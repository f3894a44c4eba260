use a2a_kit::card_schema::{Violation, SCHEMA_A2A_VERSION};
use a2a_kit::cli::error::{
    clap_error_to_cli_error, flatten_clap_message, http_error_code_and_hint, http_error_exit_code,
    CliError, HttpFailure,
};
use a2a_kit::protocol::A2AError;
use a2a_kit::span::Span;

#[test]
fn test_cli_error_exit_codes_and_envelope_codes() {
    let a2a = CliError::A2A(A2AError::task_not_found("t-1"));
    assert_eq!(a2a.exit_code(), 1);
    let envelope = a2a.envelope();
    assert_eq!(envelope.code, "TASK_NOT_FOUND");
    assert_eq!(envelope.a2a_code, Some(-32001));

    let usage = CliError::InvalidInput("bad flag".to_string());
    assert_eq!(usage.exit_code(), 2);
    assert_eq!(usage.envelope().code, "A2ACLI_ERR_USAGE");
    assert!(usage.envelope().a2a_code.is_none());

    let read_file = CliError::ReadFile {
        path: "missing.bin".to_string(),
        reason: "not found".to_string(),
    };
    assert_eq!(read_file.exit_code(), 2);
    assert_eq!(read_file.envelope().code, "A2ACLI_ERR_USAGE");

    let timeout = CliError::Timeout {
        task_id: "t-2".to_string(),
        timeout: Span::from_secs(30),
    };
    assert_eq!(timeout.exit_code(), 5);
    assert_eq!(timeout.envelope().code, "A2ACLI_ERR_TIMEOUT");
    assert!(timeout.to_text().contains("30s"), "{}", timeout.to_text());

    let json = CliError::Json("unexpected end of input".to_string());
    assert_eq!(json.exit_code(), 1);
    assert_eq!(json.envelope().code, "A2ACLI_ERR_INTERNAL");
}

#[test]
fn test_cli_error_report_prints_one_json_line_to_stderr() {
    let error = CliError::A2A(A2AError::unsupported_operation("nope\n\"quoted\""));
    let json = error.report();
    assert!(json.contains("\"code\":\"UNSUPPORTED_OPERATION\""));
    assert!(!json.contains('\n'));
    assert!(json.starts_with("{\"error\":{"));
    assert!(json.ends_with("}}"));
}

#[test]
fn test_card_file_errors_map_to_appendix_d_codes() {
    let missing = CliError::CardFile {
        path: "/no/such/card.json".to_string(),
        reason: "not found".to_string(),
    };
    assert_eq!(missing.envelope().code, "A2ACLI_ERR_CARD_NOT_FOUND");
    assert_eq!(missing.exit_code(), 3);

    let invalid = CliError::CardInvalid("card.json: missing field `name`".to_string());
    assert_eq!(invalid.envelope().code, "A2ACLI_ERR_CARD_INVALID");
    assert_eq!(invalid.exit_code(), 1);
}

#[test]
fn card_fetch_failures_are_told_apart() {
    let failure = |decode: bool, status: Option<u16>| HttpFailure {
        decode,
        status,
        reason: "r".to_string(),
    };
    for (failure, code, exit) in [
        (failure(false, Some(404)), "A2ACLI_ERR_CARD_NOT_FOUND", 3),
        (failure(false, Some(401)), "A2ACLI_ERR_AUTH_FAILED", 4),
        (failure(false, Some(403)), "A2ACLI_ERR_AUTH_FAILED", 4),
        (failure(true, None), "A2ACLI_ERR_CARD_INVALID", 1),
        (failure(false, None), "A2ACLI_ERR_UNREACHABLE", 3),
    ] {
        assert_eq!(http_error_code_and_hint(&failure).0, code);
        assert_eq!(http_error_exit_code(&failure), exit);
        let error = CliError::Http(failure);
        assert_eq!(error.envelope().code, code);
        assert_eq!(error.exit_code(), exit);
    }
    assert!(http_error_code_and_hint(&failure(false, Some(404))).1.is_some());
}

#[test]
fn every_violation_is_reported() {
    let error = CliError::CardSchemaInvalid {
        violations: vec![
            Violation {
                path: "/a".to_string(),
                message: "x".to_string(),
            },
            Violation {
                path: "/b".to_string(),
                message: "y".to_string(),
            },
        ],
    };
    assert_eq!(error.exit_code(), 1);
    let json = error.report();
    assert!(
        json.contains(
            "\"details\":[{\"path\":\"/a\",\"message\":\"x\"},{\"path\":\"/b\",\"message\":\"y\"}]"
        ),
        "{json}"
    );
    assert!(json.contains(SCHEMA_A2A_VERSION), "{json}");
}

#[test]
fn test_flatten_clap_message() {
    let rendered = "error: unexpected argument '--nope' found\n\nUsage: a2acli [OPTIONS]\n";
    assert_eq!(
        flatten_clap_message(rendered),
        "unexpected argument '--nope' found"
    );
    let rendered = "error: the following required arguments were not provided:\n  <ID>\n\nUsage: a2acli task get <ID>\n";
    assert_eq!(
        flatten_clap_message(rendered),
        "the following required arguments were not provided: <ID>"
    );
    assert_eq!(flatten_clap_message("error: bare"), "bare");
    assert_eq!(flatten_clap_message("\n\nUsage: a2acli"), "Usage: a2acli");
}

#[test]
fn test_usage_error_maps_to_the_appendix_d_usage_code() {
    let error = CliError::Usage("unexpected argument '--nope' found".to_string());
    assert_eq!(error.exit_code(), 2);
    let envelope = error.envelope();
    assert_eq!(envelope.code, "A2ACLI_ERR_USAGE");
    assert_eq!(envelope.message, "unexpected argument '--nope' found");
    assert!(envelope.hint.unwrap().contains("--help"));
}

#[test]
fn requests_for_help_are_no_failures() {
    assert_eq!(clap_error_to_cli_error(true, "help"), None);
    assert_eq!(
        clap_error_to_cli_error(false, "error: bad\n\nUsage"),
        Some(CliError::Usage("bad".to_string()))
    );
}
