use a2a_kit::cli::args::{
    Binding, CardCommand, CardGetCommand, Cli, Command, OutputFormat,
};
use a2a_kit::cli::config::{
    apply_dotenv_file, effective_config_settings, find_flag_value, global_config_path,
    load_dotenv_config, parse_dotenv, redact_secret, warn_if_world_readable, ConfigHome,
    ConfigSource, ValueSource,
};
use a2a_kit::cli::error::CliError;
use a2a_kit::cli::reference::{
    append_well_known_path, base_url_warning, has_windows_drive_prefix, is_loopback_host,
    looks_like_file_path, normalize_card_reference, resolve_agent_selection,
    synthesized_endpoint_card, AgentSelection, CardReference,
};
use a2a_kit::span::Span;
use a2a_kit::table::Table;

fn cli() -> Cli {
    Cli {
        config: None,
        agent_card: None,
        endpoint: None,
        base_url: "http://localhost:3000".to_string(),
        transport: vec![],
        a2a_version: None,
        bearer: None,
        api_key: None,
        svc_params: vec![],
        insecure: false,
        debug: false,
        tenant: None,
        output: OutputFormat::Text,
        compact: false,
        async_mode: false,
        wait: false,
        poll_interval: Span::from_millis(500),
        timeout: Span::from_secs(60),
        command: Command::Card {
            command: CardCommand::Get(CardGetCommand {
                extended: false,
                validate: false,
            }),
        },
    }
}

fn pair(key: &str, value: &str) -> (String, String) {
    (key.to_string(), value.to_string())
}

#[test]
fn test_parse_dotenv_basic() {
    let parsed = parse_dotenv("A2ACLI_BEARER=secret\nA2ACLI_TRANSPORT=jsonrpc,rest\n");
    assert_eq!(
        parsed,
        vec![
            pair("A2ACLI_BEARER", "secret"),
            pair("A2ACLI_TRANSPORT", "jsonrpc,rest"),
        ]
    );
}

#[test]
fn test_parse_dotenv_ignores_blank_lines_and_comments() {
    let parsed = parse_dotenv("\n# a comment\n   \nA2ACLI_TENANT=acme\n# another comment\n");
    assert_eq!(parsed, vec![pair("A2ACLI_TENANT", "acme")]);
}

#[test]
fn test_parse_dotenv_tolerates_export_prefix() {
    let parsed = parse_dotenv("export A2ACLI_BASE_URL=https://agent.example.com\n");
    assert_eq!(
        parsed,
        vec![pair("A2ACLI_BASE_URL", "https://agent.example.com")]
    );
}

#[test]
fn test_parse_dotenv_strips_one_layer_of_quotes() {
    let parsed = parse_dotenv("A2ACLI_BEARER=\"Bearer token\"\nA2ACLI_TENANT='acme'\n");
    assert_eq!(
        parsed,
        vec![
            pair("A2ACLI_BEARER", "Bearer token"),
            pair("A2ACLI_TENANT", "acme"),
        ]
    );
}

#[test]
fn unusual_lines_are_read_as_they_stand() {
    assert_eq!(
        parse_dotenv("A = \"'x'\" \r\nnothing here\nB==c\nC='\nD=\"\"\n"),
        vec![pair("A", "'x'"), pair("B", "=c"), pair("C", "'"), pair("D", "")]
    );
}

fn argv(args: &[&str]) -> Vec<Option<String>> {
    args.iter().map(|arg| Some(arg.to_string())).collect()
}

#[test]
fn test_find_flag_value_supports_space_and_equals_forms() {
    assert_eq!(
        find_flag_value(&argv(&["a2acli", "--config", "prod.env"]), "--config"),
        Some("prod.env".to_string())
    );
    assert_eq!(
        find_flag_value(&argv(&["a2acli", "--config=prod.env"]), "--config"),
        Some("prod.env".to_string())
    );
    assert_eq!(find_flag_value(&argv(&["a2acli", "send"]), "--config"), None);
    assert_eq!(
        find_flag_value(&argv(&["a2acli", "--config"]), "--config"),
        None
    );
    let mut odd = argv(&["a2acli"]);
    odd.push(None);
    odd.push(Some("--config=x".to_string()));
    assert_eq!(find_flag_value(&odd, "--config"), Some("x".to_string()));
}

#[test]
fn test_config_source_labels() {
    assert_eq!(ConfigSource::Flag.label(), "flag");
    assert_eq!(ConfigSource::EnvVar.label(), "environment variable");
    assert_eq!(ConfigSource::LocalFile.label(), "local .env file");
    assert_eq!(ConfigSource::GlobalFile.label(), "global .env file");
    assert_eq!(ConfigSource::Default.label(), "built-in default");
}

#[test]
fn test_redact_secret() {
    assert_eq!(
        redact_secret(&Some("secret".to_string())),
        "(set, redacted)"
    );
    assert_eq!(redact_secret(&None), "(not set)");
}

#[test]
fn files_rank_below_the_environment_and_each_other() {
    let taken = vec!["A2ACLI_BEARER".to_string()];
    let (assignments, provenance) = load_dotenv_config(
        &taken,
        Some("A2ACLI_BEARER=g\nA2ACLI_TENANT=g\nA2ACLI_OUTPUT=json\nPATH=/evil\n"),
        Some("A2ACLI_BEARER=l\nA2ACLI_TENANT=l\n"),
    );
    assert_eq!(
        assignments,
        vec![
            pair("A2ACLI_TENANT", "g"),
            pair("A2ACLI_OUTPUT", "json"),
            pair("A2ACLI_TENANT", "l"),
        ]
    );
    assert_eq!(
        provenance.get("A2ACLI_TENANT"),
        Some(&ConfigSource::LocalFile)
    );
    assert_eq!(
        provenance.get("A2ACLI_OUTPUT"),
        Some(&ConfigSource::GlobalFile)
    );
    assert_eq!(provenance.get("A2ACLI_BEARER"), None);
    assert_eq!(provenance.get("PATH"), None);
    let (none, empty) = load_dotenv_config(&taken, None, None);
    assert!(none.is_empty());
    assert_eq!(empty.len(), 0);
}

#[test]
fn a_file_notes_where_its_values_came_from() {
    let mut provenance: Table<ConfigSource> = Table::new();
    let set = apply_dotenv_file(
        "A2ACLI_WAIT=true",
        ConfigSource::LocalFile,
        &vec![],
        &mut provenance,
    );
    assert_eq!(set, vec![pair("A2ACLI_WAIT", "true")]);
    assert_eq!(
        provenance.get("A2ACLI_WAIT"),
        Some(&ConfigSource::LocalFile)
    );
}

#[test]
fn the_global_configuration_is_found() {
    let some = |text: &str| Some(text.to_string());
    assert_eq!(
        global_config_path(some("/xdg"), some("/home"), None),
        Some(ConfigHome::Config("/xdg".to_string()))
    );
    assert_eq!(
        global_config_path(some(""), some("/home"), None),
        Some(ConfigHome::Home("/home".to_string()))
    );
    assert_eq!(
        global_config_path(None, None, some("C:\\Users\\me")),
        Some(ConfigHome::Home("C:\\Users\\me".to_string()))
    );
    assert_eq!(global_config_path(None, None, None), None);
}

#[test]
fn files_that_others_can_read_are_warned_about() {
    assert_eq!(warn_if_world_readable("x.env", 0o100600), None);
    assert_eq!(
        warn_if_world_readable("x.env", 0o100644).unwrap(),
        "x.env is readable by other users (mode 644); it may contain credentials \u{2014} consider `chmod 600 x.env`"
    );
}

fn shown(cli: &Cli, sources: &Table<ValueSource>, provenance: &Table<ConfigSource>) -> Vec<String> {
    effective_config_settings(cli, sources, provenance, false)
        .settings
        .iter()
        .map(|s| format!("{}={} [{}]", s.name, s.value, s.source))
        .collect()
}

#[test]
fn settings_tell_their_value_and_source() {
    let mut sources: Table<ValueSource> = Table::new();
    sources.insert("tenant".to_string(), ValueSource::CommandLine);
    sources.insert("bearer".to_string(), ValueSource::EnvVariable);
    sources.insert("output".to_string(), ValueSource::EnvVariable);
    sources.insert("base_url".to_string(), ValueSource::DefaultValue);
    let mut provenance: Table<ConfigSource> = Table::new();
    provenance.insert("A2ACLI_BEARER".to_string(), ConfigSource::LocalFile);
    let lines = shown(
        &Cli {
            tenant: Some("acme".to_string()),
            bearer: Some("very-secret".to_string()),
            output: OutputFormat::Json,
            transport: vec![Binding::Rest, Binding::Jsonrpc],
            ..cli()
        },
        &sources,
        &provenance,
    );
    assert_eq!(lines.len(), 17);
    for expected in [
        "agent-card=(not set) [built-in default]",
        "base-url=http://localhost:3000 [built-in default]",
        "transport=rest,jsonrpc [built-in default]",
        "a2a-version=(negotiated from the agent card; a2acli supports 1.0) [built-in default]",
        "bearer=(set, redacted) [local .env file]",
        "api-key=(not set) [built-in default]",
        "tenant=acme [flag]",
        "output=json [environment variable]",
        "poll-interval=500ms [built-in default]",
        "timeout=60s [built-in default]",
        "resolved-card=http://localhost:3000/.well-known/agent-card.json [derived]",
    ] {
        assert!(
            lines.iter().any(|line| line == expected),
            "missing {expected} in {lines:?}"
        );
    }
    assert!(lines.iter().all(|line| !line.contains("very-secret")));
}

#[test]
fn the_resolved_card_follows_the_flags() {
    let none: Table<ValueSource> = Table::new();
    let nowhere: Table<ConfigSource> = Table::new();
    let last = |cli: &Cli| shown(cli, &none, &nowhere).pop().unwrap();
    assert_eq!(
        last(&Cli {
            endpoint: Some("http://host/rpc".to_string()),
            ..cli()
        }),
        "resolved-card=(none; --endpoint http://host/rpc) [derived]"
    );
    assert_eq!(
        last(&Cli {
            agent_card: Some("./card.json".to_string()),
            ..cli()
        }),
        "resolved-card=file://./card.json [derived]"
    );
    assert!(shown(&cli(), &none, &nowhere)
        .contains(&"transport=(agent card's own order) [built-in default]".to_string()));
}

#[test]
fn test_normalize_card_reference_host_forms() {
    let cases = [
        (
            "example.com",
            "https://example.com/.well-known/agent-card.json",
        ),
        (
            "http://example.com",
            "http://example.com/.well-known/agent-card.json",
        ),
        (
            "https://example.com/",
            "https://example.com/.well-known/agent-card.json",
        ),
        (
            "localhost:3000",
            "http://localhost:3000/.well-known/agent-card.json",
        ),
        (
            "127.0.0.1:8080",
            "http://127.0.0.1:8080/.well-known/agent-card.json",
        ),
        (
            "[::1]:9000",
            "http://[::1]:9000/.well-known/agent-card.json",
        ),
        (
            "https://example.com/custom/card.json",
            "https://example.com/custom/card.json",
        ),
        (
            "http://example.com/agents/a/card",
            "http://example.com/agents/a/card",
        ),
    ];
    for (reference, expected) in cases {
        assert_eq!(
            normalize_card_reference(reference, false),
            CardReference::Url(expected.to_string()),
            "reference {reference}"
        );
    }
}

#[test]
fn test_normalize_card_reference_file_forms() {
    assert_eq!(
        normalize_card_reference("file:///tmp/card.json", false),
        CardReference::File("/tmp/card.json".to_string())
    );
    for reference in ["/no/such/card.json", "./card.json", "../card.json"] {
        assert_eq!(
            normalize_card_reference(reference, false),
            CardReference::File(reference.to_string()),
            "reference {reference}"
        );
    }
}

#[test]
fn test_windows_path_shapes_are_recognized_as_files() {
    for reference in [
        r"C:\Users\me\card.json",
        r"c:/Users/me/card.json",
        r"\\server\share\card.json",
        r".\card.json",
        r"..\card.json",
    ] {
        assert!(looks_like_file_path(reference, false), "{reference}");
        assert_eq!(
            normalize_card_reference(reference, false),
            CardReference::File(reference.to_string()),
            "{reference}"
        );
    }
    for reference in ["localhost:3000", "a:3000", "example.com:443"] {
        assert!(!has_windows_drive_prefix(reference), "{reference}");
        assert!(!looks_like_file_path(reference, false), "{reference}");
    }
    assert_eq!(
        normalize_card_reference("file:///C:/Users/me/card.json", false),
        CardReference::File("C:/Users/me/card.json".to_string())
    );
    assert_eq!(
        normalize_card_reference("file:///tmp/card.json", false),
        CardReference::File("/tmp/card.json".to_string())
    );
}

#[test]
fn test_normalize_card_reference_prefers_an_existing_file_over_a_host() {
    assert_eq!(
        normalize_card_reference("example.com", true),
        CardReference::File("example.com".to_string())
    );
}

#[test]
fn naming_a_card_by_its_url_finds_it_again() {
    for url in ["https://example.com", "https://example.com/", "http://h/x"] {
        let once = append_well_known_path(url);
        assert_eq!(append_well_known_path(&once), once);
    }
}

#[test]
fn test_is_loopback_host() {
    for host in [
        "localhost",
        "localhost:3000",
        "127.0.0.1",
        "127.0.0.1:80",
        "::1",
        "[::1]:9000",
    ] {
        assert!(is_loopback_host(host), "expected loopback: {host}");
    }
    for host in [
        "example.com",
        "example.com:443",
        "8.8.8.8",
        "2606:4700::1111",
    ] {
        assert!(!is_loopback_host(host), "expected non-loopback: {host}");
    }
}

#[test]
fn test_resolve_agent_selection_matrix() {
    let card = |name: &str| AgentSelection::Card(name.to_string());
    assert_eq!(
        resolve_agent_selection(&Cli {
            agent_card: Some("example.com".to_string()),
            ..cli()
        })
        .unwrap(),
        card("example.com")
    );
    assert_eq!(
        resolve_agent_selection(&cli()).unwrap(),
        card("http://localhost:3000")
    );
    assert_eq!(base_url_warning(&cli(), false), None);
    let named = Cli {
        base_url: "http://host:1".to_string(),
        ..cli()
    };
    assert_eq!(
        resolve_agent_selection(&named).unwrap(),
        card("http://host:1")
    );
    assert!(base_url_warning(&named, true).unwrap().contains("deprecated"));
    let endpoint = |transport: Vec<Binding>| Cli {
        endpoint: Some("http://host/jsonrpc".to_string()),
        transport,
        ..cli()
    };
    assert_eq!(
        resolve_agent_selection(&endpoint(vec![Binding::Jsonrpc])).unwrap(),
        AgentSelection::Endpoint {
            url: "http://host/jsonrpc".to_string(),
            binding: Binding::Jsonrpc,
        }
    );
    for transports in [vec![], vec![Binding::Jsonrpc, Binding::Rest]] {
        let error = resolve_agent_selection(&endpoint(transports)).unwrap_err();
        assert_eq!(error.exit_code(), 2);
        assert!(error.to_text().contains("exactly one --transport"));
    }
    let both = Cli {
        agent_card: Some("example.com".to_string()),
        ..endpoint(vec![Binding::Jsonrpc])
    };
    let error = resolve_agent_selection(&both).unwrap_err();
    assert_eq!(error.exit_code(), 2);
    assert!(error.to_text().contains("mutually exclusive"));
    assert!(matches!(error, CliError::InvalidInput(_)));
}

#[test]
fn test_synthesized_endpoint_card_carries_only_the_named_interface() {
    let card = synthesized_endpoint_card("http://host/rest", Binding::Rest);
    assert_eq!(card.supported_interfaces.len(), 1);
    assert_eq!(card.supported_interfaces[0].url, "http://host/rest");
    assert_eq!(
        card.supported_interfaces[0].protocol_binding,
        Binding::Rest.protocol()
    );
    assert!(card.description.contains("no agent card was resolved"));
    assert_eq!(card.capabilities.streaming, None);
    assert!(card.skills.is_empty());
}
