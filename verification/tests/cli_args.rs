use a2a_kit::cli::args::{
    build_push_notification_config, build_send_message_request, parse_header, split_duration,
    Binding, CardCommand, CardGetCommand, Cli, Command, CreatePushConfigCommand, DurationUnit,
    HeaderArg, MessageCommand, OutputFormat, TaskStateArg,
};
use a2a_kit::cli::connect::apply_request_auth;
use a2a_kit::cli::error::CliError;
use a2a_kit::cli::parts::{
    assemble_parts, build_data_part, build_file_part, means_not_a_readable_path, order_tokens,
    parse_data_part_json, resolve_message_parts, source_of, Loaded, PartIndices, ReadErrorKind,
    Source, Token,
};
use a2a_kit::json::Json;
use a2a_kit::protocol::{
    Part, PartContent, TaskState, TRANSPORT_PROTOCOL_HTTP_JSON, TRANSPORT_PROTOCOL_JSONRPC,
};
use a2a_kit::span::Span;

fn cli() -> Cli {
    Cli {
        config: None,
        agent_card: None,
        endpoint: None,
        base_url: "http://localhost:3000".to_string(),
        transport: vec![],
        a2a_version: None,
        bearer: None,
        api_key: None,
        svc_params: vec![],
        insecure: false,
        debug: false,
        tenant: None,
        output: OutputFormat::Text,
        compact: false,
        async_mode: false,
        wait: false,
        poll_interval: Span::from_secs(2),
        timeout: Span::from_secs(60),
        command: Command::Card {
            command: CardCommand::Get(CardGetCommand {
                extended: false,
                validate: false,
            }),
        },
    }
}

fn message_command() -> MessageCommand {
    MessageCommand {
        text: None,
        text_parts: vec![],
        file_parts: vec![],
        data_parts: vec![],
        media_types: vec![],
        context_id: None,
        task_id: None,
        history_length: None,
        accepted_output_modes: vec![],
        return_immediately: false,
        stream: false,
    }
}

fn no_indices() -> PartIndices {
    PartIndices {
        text_parts: vec![],
        file_parts: vec![],
        data_parts: vec![],
        media_types: vec![],
    }
}

#[test]
fn test_parse_header() {
    let header = parse_header("Authorization: Bearer token").unwrap();
    assert_eq!(header.name, "Authorization");
    assert_eq!(header.value, "Bearer token");
}

#[test]
fn test_parse_header_requires_separator() {
    let err = parse_header("Authorization").unwrap_err();
    assert_eq!(err, "header must be in NAME:VALUE format");
}

#[test]
fn test_parse_header_requires_name() {
    let err = parse_header(": value").unwrap_err();
    assert_eq!(err, "header name cannot be empty");
}

#[test]
fn test_build_send_message_request_populates_optional_fields() {
    let request = build_send_message_request(
        &MessageCommand {
            text: Some("hello".to_string()),
            context_id: Some("ctx-1".to_string()),
            task_id: Some("task-1".to_string()),
            history_length: Some(4),
            accepted_output_modes: vec!["text/plain".to_string()],
            return_immediately: true,
            ..message_command()
        },
        vec![Part::text("hello")],
        Some("tenant-1".to_string()),
        "m-1".to_string(),
    );
    assert_eq!(request.message.parts, vec![Part::text("hello")]);
    assert_eq!(request.message.message_id, "m-1");
    assert_eq!(request.message.context_id.as_deref(), Some("ctx-1"));
    assert_eq!(request.message.task_id.as_deref(), Some("task-1"));
    assert_eq!(request.tenant.as_deref(), Some("tenant-1"));
    let configuration = request.configuration.unwrap();
    assert_eq!(configuration.history_length, Some(4));
    assert_eq!(configuration.return_immediately, Some(true));
    assert_eq!(
        configuration.accepted_output_modes,
        Some(vec!["text/plain".to_string()])
    );
}

#[test]
fn test_build_send_message_request_without_optional_fields() {
    let request = build_send_message_request(
        &MessageCommand {
            text: Some("hello".to_string()),
            ..message_command()
        },
        vec![Part::text("hello")],
        None,
        "m-1".to_string(),
    );
    assert_eq!(request.message.parts, vec![Part::text("hello")]);
    assert!(request.configuration.is_none());
    assert!(request.tenant.is_none());
}

fn create_command() -> CreatePushConfigCommand {
    CreatePushConfigCommand {
        task_id: "task-1".to_string(),
        url: "https://example.com/callback".to_string(),
        config_id: None,
        token: None,
        auth_scheme: None,
        auth_credentials: None,
    }
}

#[test]
fn test_build_push_notification_config() {
    let config = build_push_notification_config(&CreatePushConfigCommand {
        config_id: Some("cfg-1".to_string()),
        token: Some("tok-1".to_string()),
        auth_scheme: Some("Bearer".to_string()),
        auth_credentials: Some("secret".to_string()),
        ..create_command()
    })
    .unwrap();
    assert_eq!(config.id.as_deref(), Some("cfg-1"));
    assert_eq!(config.token.as_deref(), Some("tok-1"));
    let auth = config.authentication.unwrap();
    assert_eq!(auth.scheme, "Bearer");
    assert_eq!(auth.credentials.as_deref(), Some("secret"));
}

#[test]
fn test_build_push_notification_config_requires_auth_scheme() {
    let err = build_push_notification_config(&CreatePushConfigCommand {
        auth_credentials: Some("secret".to_string()),
        ..create_command()
    })
    .unwrap_err();
    assert!(matches!(err, CliError::InvalidInput(_)));
}

#[test]
fn test_build_push_notification_config_without_authentication() {
    let config = build_push_notification_config(&create_command()).unwrap();
    assert_eq!(config.url, "https://example.com/callback");
    assert!(config.authentication.is_none());
}

#[test]
fn test_binding_protocols() {
    assert_eq!(Binding::Jsonrpc.protocol(), TRANSPORT_PROTOCOL_JSONRPC);
    assert_eq!(Binding::Rest.protocol(), TRANSPORT_PROTOCOL_HTTP_JSON);
}

#[test]
fn test_apply_request_auth_builds_headers() {
    let headers = apply_request_auth(&Cli {
        bearer: Some("secret".to_string()),
        api_key: Some("key-123".to_string()),
        svc_params: vec![parse_header("X-Test: 123").unwrap()],
        ..cli()
    });
    let get = |name: &str| {
        headers
            .iter()
            .find(|(key, _)| key == name)
            .map(|(_, value)| value.as_str())
    };
    assert_eq!(get("Authorization"), Some("Bearer secret"));
    assert_eq!(get("X-API-Key"), Some("key-123"));
    assert_eq!(get("X-Test"), Some("123"));
    assert!(apply_request_auth(&cli()).is_empty());
}

#[test]
fn service_parameters_keep_their_order() {
    let param = |name: &str| HeaderArg {
        name: name.to_string(),
        value: "v".to_string(),
    };
    let headers = apply_request_auth(&Cli {
        svc_params: vec![param("B"), param("A")],
        ..cli()
    });
    assert_eq!(headers[0].0, "B");
    assert_eq!(headers[1].0, "A");
}

#[test]
fn test_task_state_conversion() {
    let cases = [
        (TaskStateArg::Unspecified, TaskState::Unspecified),
        (TaskStateArg::Submitted, TaskState::Submitted),
        (TaskStateArg::Working, TaskState::Working),
        (TaskStateArg::Completed, TaskState::Completed),
        (TaskStateArg::Failed, TaskState::Failed),
        (TaskStateArg::Canceled, TaskState::Canceled),
        (TaskStateArg::InputRequired, TaskState::InputRequired),
        (TaskStateArg::Rejected, TaskState::Rejected),
        (TaskStateArg::AuthRequired, TaskState::AuthRequired),
    ];
    for (input, expected) in cases {
        assert_eq!(TaskState::from(input), expected);
    }
}

#[test]
fn test_means_not_a_readable_path_classification() {
    for kind in [
        ReadErrorKind::NotFound,
        ReadErrorKind::InvalidFilename,
        ReadErrorKind::InvalidInput,
    ] {
        assert!(
            means_not_a_readable_path(kind),
            "{kind:?} should fall through to inline-JSON parsing"
        );
    }
    assert!(!means_not_a_readable_path(ReadErrorKind::Other));
}

#[test]
fn lengths_of_time_are_split_into_number_and_unit() {
    assert_eq!(
        split_duration("2s"),
        ("2".to_string(), DurationUnit::Seconds)
    );
    assert_eq!(
        split_duration(" 500ms "),
        ("500".to_string(), DurationUnit::Milliseconds)
    );
    assert_eq!(
        split_duration("1m"),
        ("1".to_string(), DurationUnit::Minutes)
    );
    assert_eq!(
        split_duration("30"),
        ("30".to_string(), DurationUnit::Seconds)
    );
    assert_eq!(
        split_duration("1.5 s"),
        ("1.5".to_string(), DurationUnit::Seconds)
    );
}

#[test]
fn test_resolve_message_parts_preserves_interleaved_order_and_media_type() {
    let command = MessageCommand {
        text_parts: vec!["hello".to_string()],
        file_parts: vec!["https://example.com/doc.pdf".to_string()],
        data_parts: vec![r#"{"k":1}"#.to_string()],
        media_types: vec!["application/pdf".to_string()],
        ..message_command()
    };
    let indices = PartIndices {
        text_parts: vec![2],
        file_parts: vec![4],
        media_types: vec![6],
        data_parts: vec![8],
    };
    let tokens = order_tokens(&indices, &command).unwrap();
    assert_eq!(
        tokens,
        vec![
            Token::Text("hello".to_string()),
            Token::File("https://example.com/doc.pdf".to_string()),
            Token::MediaType("application/pdf".to_string()),
            Token::Data(r#"{"k":1}"#.to_string()),
        ]
    );
    let sources: Vec<Source> = tokens.iter().map(source_of).collect();
    assert_eq!(
        sources,
        vec![Source::Token, Source::Token, Source::Token, Source::FileText]
    );
    let loaded = vec![
        Loaded::Nothing,
        Loaded::Nothing,
        Loaded::Nothing,
        Loaded::Failed {
            kind: ReadErrorKind::NotFound,
            reason: "not found".to_string(),
        },
    ];
    let parts = resolve_message_parts(&indices, &command, loaded).unwrap();
    assert_eq!(parts.len(), 3);
    assert_eq!(parts[0], Part::text("hello"));
    assert!(matches!(
        &parts[1].content,
        PartContent::Url(url) if url == "https://example.com/doc.pdf"
    ));
    assert_eq!(parts[1].media_type.as_deref(), Some("application/pdf"));
    assert!(matches!(&parts[2].content, PartContent::Data(_)));
    assert!(parts[2].media_type.is_none());
}

#[test]
fn test_resolve_message_parts_positional_text_is_shorthand() {
    let command = MessageCommand {
        text: Some("hello".to_string()),
        ..message_command()
    };
    let parts = resolve_message_parts(&no_indices(), &command, vec![Loaded::Nothing]).unwrap();
    assert_eq!(parts, vec![Part::text("hello")]);
}

#[test]
fn test_resolve_message_parts_rejects_media_type_without_preceding_part() {
    let command = MessageCommand {
        text_parts: vec!["hi".to_string()],
        media_types: vec!["text/plain".to_string()],
        ..message_command()
    };
    let indices = PartIndices {
        text_parts: vec![4],
        media_types: vec![2],
        ..no_indices()
    };
    let err = resolve_message_parts(&indices, &command, vec![Loaded::Nothing, Loaded::Nothing])
        .unwrap_err();
    assert!(matches!(err, CliError::InvalidInput(_)));
}

#[test]
fn test_resolve_message_parts_rejects_positional_text_with_part_flags() {
    let command = MessageCommand {
        text: Some("hello".to_string()),
        text_parts: vec!["world".to_string()],
        ..message_command()
    };
    let indices = PartIndices {
        text_parts: vec![3],
        ..no_indices()
    };
    let err = resolve_message_parts(&indices, &command, vec![]).unwrap_err();
    assert!(matches!(err, CliError::InvalidInput(_)));
}

#[test]
fn a_message_without_parts_is_refused() {
    let err = order_tokens(&no_indices(), &message_command()).unwrap_err();
    assert_eq!(err.exit_code(), 2);
}

#[test]
fn test_parse_data_part_json_rejects_malformed_content() {
    let error = parse_data_part_json("{not json", "payload.json").unwrap_err();
    assert_eq!(error.exit_code(), 2);
    let message = error.to_text();
    assert!(message.contains("payload.json"), "{message}");
    assert!(matches!(error, CliError::InvalidInput(_)));
}

#[test]
fn data_parts_come_from_files_from_input_or_from_the_command_line() {
    let object = Json::Object(vec![(
        "k".to_string(),
        Json::Number("1".to_string()),
    )]);
    let from_file = build_data_part(
        "payload.json",
        Loaded::Text {
            text: "{\"k\": 1}".to_string(),
        },
    )
    .unwrap();
    assert_eq!(from_file.content, PartContent::Data(object.clone()));
    let inline = build_data_part(
        "{\"k\":1}",
        Loaded::Failed {
            kind: ReadErrorKind::InvalidFilename,
            reason: "no".to_string(),
        },
    )
    .unwrap();
    assert_eq!(inline.content, PartContent::Data(object));
    let unreadable = build_data_part(
        "payload.json",
        Loaded::Failed {
            kind: ReadErrorKind::Other,
            reason: "denied".to_string(),
        },
    )
    .unwrap_err();
    assert!(matches!(unreadable, CliError::ReadFile { .. }));
}

#[test]
fn file_parts_are_referenced_or_read() {
    let url = build_file_part("https://example.com/a.pdf", Loaded::Nothing).unwrap();
    assert_eq!(
        url.content,
        PartContent::Url("https://example.com/a.pdf".to_string())
    );
    let read = build_file_part(
        "dir/a.bin",
        Loaded::Bytes {
            bytes: vec![1, 2],
            filename: Some("a.bin".to_string()),
        },
    )
    .unwrap();
    assert_eq!(read.content, PartContent::Raw(vec![1, 2]));
    assert_eq!(read.filename.as_deref(), Some("a.bin"));
    let missing = build_file_part(
        "a.bin",
        Loaded::Failed {
            kind: ReadErrorKind::NotFound,
            reason: "gone".to_string(),
        },
    )
    .unwrap_err();
    assert_eq!(missing.exit_code(), 2);
}

#[test]
fn a_media_type_changes_only_the_part_before_it() {
    let tokens = vec![
        Token::Text("a".to_string()),
        Token::Text("b".to_string()),
        Token::MediaType("text/markdown".to_string()),
        Token::Text("c".to_string()),
    ];
    let loaded = vec![
        Loaded::Nothing,
        Loaded::Nothing,
        Loaded::Nothing,
        Loaded::Nothing,
    ];
    let parts = assemble_parts(&tokens, loaded).unwrap();
    let types: Vec<Option<&str>> = parts.iter().map(|p| p.media_type.as_deref()).collect();
    assert_eq!(types, vec![None, Some("text/markdown"), None]);
}
