use a2a_kit::card_schema::{
    agent_card_schema, build_schema, definition_key, normalise, order_violations,
    report_violations, retarget_refs, validate_agent_card, Violation, SCHEMA_A2A_VERSION,
};
use a2a_kit::json::{parse_json, set_member, to_pretty, Json};
use a2a_kit::table::Table;

/// A bundle in the shape of the published one, with fewer definitions.
const BUNDLE: &str = r##"{
  "definitions": {
    "Agent Card": {
      "type": "object",
      "additionalProperties": false,
      "properties": {
        "name": {"type": "string"},
        "description": {"type": "string"},
        "version": {"type": "string"},
        "supportedInterfaces": {
          "type": "array",
          "items": {"$ref": "a2a.v1.AgentInterface.jsonschema.json"}
        },
        "capabilities": {"$ref": "#/definitions/Agent Capabilities"},
        "defaultInputModes": {"type": "array", "items": {"type": "string"}},
        "defaultOutputModes": {"type": "array", "items": {"type": "string"}},
        "skills": {
          "type": "array",
          "items": {"$ref": "a2a.v1.AgentSkill.jsonschema.json"}
        }
      }
    },
    "Agent Interface": {
      "type": "object",
      "additionalProperties": false,
      "properties": {
        "url": {"type": "string"},
        "protocolBinding": {"type": "string"}
      }
    },
    "Agent Capabilities": {
      "type": "object",
      "additionalProperties": false,
      "properties": {"streaming": {"type": "boolean"}}
    },
    "Agent Skill": {
      "type": "object",
      "additionalProperties": false,
      "properties": {
        "id": {"type": "string"},
        "name": {"type": "string"},
        "description": {"type": "string"},
        "tags": {"type": "array"},
        "security": {
          "type": "array",
          "items": {"$ref": "a2a.v1.SecurityRequirement.jsonschema.json"}
        }
      }
    },
    "Security Requirement": {
      "type": "object",
      "additionalProperties": false,
      "properties": {
        "schemes": {
          "type": "object",
          "additionalProperties": {"$ref": "a2a.v1.StringList.jsonschema.json"}
        }
      }
    },
    "String List": {
      "type": "object",
      "additionalProperties": false,
      "properties": {"list": {"type": "array"}}
    }
  }
}"##;

fn json(text: &str) -> Json {
    parse_json(text).unwrap()
}

fn valid_card() -> Json {
    json(
        r#"{
            "name": "Fixture Agent",
            "description": "a card that satisfies the schema",
            "version": "1.0.0",
            "supportedInterfaces": [
                {"url": "http://localhost:3000/jsonrpc", "protocolBinding": "JSONRPC"}
            ],
            "capabilities": {"streaming": true},
            "defaultInputModes": ["text/plain"],
            "defaultOutputModes": ["text/plain"],
            "skills": []
        }"#,
    )
}

fn with(card: Json, key: &str, value: Json) -> Json {
    match card {
        Json::Object(mut members) => {
            set_member(&mut members, key.to_string(), value);
            Json::Object(members)
        }
        other => other,
    }
}

#[test]
fn every_reference_in_the_bundle_resolves() {
    let schema = agent_card_schema(BUNDLE).expect("bundle should load");
    let rendered = to_pretty(&schema);
    assert!(
        !rendered.contains(".jsonschema.json"),
        "an external reference survived retargeting"
    );
    assert!(rendered.contains("#/definitions/agentskill"));
    assert!(validate_agent_card(&valid_card(), BUNDLE).is_ok());
}

#[test]
fn a_bundle_missing_the_agent_card_definition_is_rejected() {
    let bundle = json(r#"{"definitions": {"Something Else": {"type": "object"}}}"#);
    let error = build_schema(&bundle).unwrap_err();
    assert!(error.contains("Agent Card"), "{error}");
}

#[test]
fn a_bundle_with_an_unplaceable_reference_is_rejected() {
    let bundle =
        json(r##"{"definitions": {"Agent Card": {"$ref": "#/definitions/NoSuchType"}}}"##);
    let error = build_schema(&bundle).unwrap_err();
    assert!(error.contains("NoSuchType"), "{error}");
}

#[test]
fn every_unplaceable_reference_is_named_once_and_in_order() {
    let bundle = json(
        r##"{"definitions": {"Agent Card": {"a": {"$ref": "Zed"}, "b": [{"$ref": "Abc"}, {"$ref": "Zed"}]}}}"##,
    );
    assert_eq!(
        build_schema(&bundle).unwrap_err(),
        "vendored schema has unplaceable references: Abc, Zed"
    );
}

#[test]
fn a_bundle_without_definitions_is_rejected() {
    assert_eq!(
        build_schema(&json("{}")).unwrap_err(),
        "vendored schema has no definitions"
    );
    assert!(agent_card_schema("{").unwrap_err().starts_with("vendored schema is not JSON: "));
}

#[test]
fn a_valid_card_has_no_violations() {
    assert_eq!(validate_agent_card(&valid_card(), BUNDLE).unwrap(), vec![]);
}

#[test]
fn an_unknown_property_is_reported_with_its_path() {
    let card = with(valid_card(), "speling", json("\"mistake\""));
    let violations = validate_agent_card(&card, BUNDLE).unwrap();
    assert_eq!(violations.len(), 1, "{violations:?}");
    assert!(
        violations[0].message.contains("speling"),
        "{:?}",
        violations[0]
    );
}

#[test]
fn a_wrong_type_is_reported_with_its_path() {
    let card = with(valid_card(), "name", json("42"));
    let violations = validate_agent_card(&card, BUNDLE).unwrap();
    assert_eq!(violations.len(), 1, "{violations:?}");
    assert_eq!(violations[0].path, "/name");
}

#[test]
fn several_violations_are_all_reported_each_with_its_own_path() {
    let card = with(valid_card(), "name", json("42"));
    let card = with(card, "defaultInputModes", json("\"text/plain\""));
    let card = with(card, "nonsense", json("true"));
    let violations = validate_agent_card(&card, BUNDLE).unwrap();
    let paths: Vec<&str> = violations.iter().map(|v| v.path.as_str()).collect();
    assert!(paths.contains(&"/name"), "{violations:?}");
    assert!(paths.contains(&"/defaultInputModes"), "{violations:?}");
    assert!(violations.len() >= 3, "{violations:?}");
}

#[test]
fn an_unrecognised_enum_member_is_reported() {
    let card = with(
        valid_card(),
        "skills",
        json(
            r#"[{
                "id": "s1",
                "name": "skill",
                "description": "d",
                "tags": [],
                "security": [{"schemes": {"oauth": {"oauth2": {"flows": {"unknownFlow": {}}}}}}]
            }]"#,
        ),
    );
    let violations = validate_agent_card(&card, BUNDLE).unwrap();
    assert!(!violations.is_empty(), "an invalid nested shape passed");
    assert!(
        violations.iter().all(|v| v.path.starts_with("/skills")),
        "{violations:?}"
    );
}

#[test]
fn the_schema_records_which_a2a_it_came_from() {
    assert!(SCHEMA_A2A_VERSION.starts_with("v1."));
}

#[test]
fn names_are_matched_on_letters_and_digits_alone() {
    assert_eq!(normalise("API Key Security Scheme"), "apikeysecurityscheme");
    assert_eq!(
        normalise("Authorization CodeO Auth Flow"),
        normalise("AuthorizationCodeOAuthFlow")
    );
    let mut index: Table<String> = Table::new();
    index.insert("agentskill".to_string(), "Agent Skill".to_string());
    for reference in [
        "a2a.v1.AgentSkill.jsonschema.json",
        "#/definitions/Agent Skill",
        "AgentSkill",
    ] {
        assert_eq!(
            definition_key(reference, &index).as_deref(),
            Some("agentskill")
        );
    }
    assert_eq!(definition_key("a2a.v1.Other.jsonschema.json", &index), None);
}

#[test]
fn reports_are_ordered_and_hold_nothing_twice() {
    let found = |pairs: &[(&str, &str)]| -> Vec<(String, String)> {
        pairs
            .iter()
            .map(|(path, message)| (path.to_string(), message.to_string()))
            .collect()
    };
    let expected = vec![
        Violation {
            path: "/a".to_string(),
            message: "x".to_string(),
        },
        Violation {
            path: "/a".to_string(),
            message: "y".to_string(),
        },
        Violation {
            path: "/b".to_string(),
            message: "x".to_string(),
        },
    ];
    let one = order_violations(found(&[("/b", "x"), ("/a", "y"), ("/a", "x"), ("/b", "x")]));
    let other = order_violations(found(&[("/a", "x"), ("/b", "x"), ("/a", "y"), ("/a", "y")]));
    assert_eq!(one, expected);
    assert_eq!(other, expected);
}

#[test]
fn a_schema_that_does_not_compile_is_told_apart() {
    let bundle = "{\"definitions\":{\"Agent Card\":{\"type\":7}}}";
    let message = validate_agent_card(&valid_card(), bundle).unwrap_err();
    assert!(
        message.starts_with("vendored schema does not compile: "),
        "{message}"
    );
    assert_eq!(
        report_violations(Err("why".to_string())),
        Err("vendored schema does not compile: why".to_string())
    );
    let found = vec![
        ("/b".to_string(), "second".to_string()),
        ("/a".to_string(), "first".to_string()),
        ("/b".to_string(), "second".to_string()),
    ];
    let paths: Vec<String> = report_violations(Ok(found))
        .unwrap()
        .into_iter()
        .map(|violation| violation.path)
        .collect();
    assert_eq!(paths, vec!["/a", "/b"]);
}

#[test]
fn retargeting_a_second_time_changes_nothing() {
    let mut index: Table<String> = Table::new();
    index.insert("agentskill".to_string(), "Agent Skill".to_string());
    let node = parse_json(
        "{\"a\":[{\"$ref\":\"a2a.v1.AgentSkill.jsonschema.json\"},{\"$ref\":\"elsewhere\"}]}",
    )
    .unwrap();
    let mut first = Vec::new();
    let once = retarget_refs(&node, &index, &mut first);
    assert_ne!(to_pretty(&once), to_pretty(&node));
    let mut second = Vec::new();
    let twice = retarget_refs(&once, &index, &mut second);
    assert_eq!(to_pretty(&twice), to_pretty(&once));
    assert_eq!(first, vec!["elsewhere"]);
    assert_eq!(second, first);
}
