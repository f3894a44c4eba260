use a2a_kit::cli::args::{
    Binding, CardCommand, CardGetCommand, Cli, Command, ConfigCommand, CreatePushConfigCommand,
    HeaderArg, ListPushConfigsCommand, ListTasksCommand, MessageCommand, OutputFormat,
    PushConfigCommand, PushConfigIdCommand, Shell, TaskCommand, TaskIdCommand, TaskLookupCommand,
    TaskStateArg,
};
use a2a_kit::cli::commands::{
    consume_stream, finish_client_call, print_output, print_stream_value, run, run_card_command,
    run_push_config_command, run_send_command, run_task_command, stream_refused, Call, Form, Step,
    StreamRefused, StreamStep,
};
use a2a_kit::cli::connect::{
    choose_interface, client_factory, client_interceptors, invalid_card, read_agent_card_file,
    resolve_agent_card, resolve_client, validate_card_or_fail, warn_if_insecure_with_credentials,
    CallInterceptor, CardSource,
};
use a2a_kit::cli::error::CliError;
use a2a_kit::cli::negotiate::{
    negotiate_a2a_version, parse_protocol_version, signal_version, supported_protocol_version,
    validate_a2a_version, Capability, DeclaredCapabilities,
};
use a2a_kit::cli::outcome::{
    is_settled, stream_response_state, task_outcome_note, TaskOutcome,
};
use a2a_kit::cli::subscribe::{subscribe_with_resumption, Following, Happening, Resumption};
use a2a_kit::cli::wait::{
    close_client, send_and_maybe_wait, settle_task, Polled, Sent, Settling, Waiting,
};
use a2a_kit::error_code;
use a2a_kit::factory::TransportChoice;
use a2a_kit::handler::ServiceParams;
use a2a_kit::json::parse_json;
use a2a_kit::protocol::{
    A2AError, AgentCapabilities, AgentCard, AgentInterface, Message, Part, Role,
    SendMessageResponse, StreamResponse, Task, TaskState, TaskStatus, TaskStatusUpdateEvent,
    SVC_PARAM_VERSION, TRANSPORT_PROTOCOL_HTTP_JSON, TRANSPORT_PROTOCOL_JSONRPC,
};
use a2a_kit::span::Span;

fn cli() -> Cli {
    Cli {
        config: None,
        agent_card: None,
        endpoint: None,
        base_url: "http://localhost:3000".to_string(),
        transport: vec![],
        a2a_version: None,
        bearer: None,
        api_key: None,
        svc_params: vec![],
        insecure: false,
        debug: false,
        tenant: None,
        output: OutputFormat::Text,
        compact: false,
        async_mode: false,
        wait: false,
        poll_interval: Span::from_secs(2),
        timeout: Span::from_secs(60),
        command: Command::Config {
            command: ConfigCommand::Show,
        },
    }
}

fn message() -> Message {
    Message::new("m-1".to_string(), Role::Agent, vec![Part::text("hi")])
}

fn task(id: &str, state: TaskState) -> Task {
    Task {
        id: id.to_string(),
        context_id: "c-1".to_string(),
        status: TaskStatus {
            state,
            message: None,
            timestamp: None,
        },
        artifacts: None,
        history: None,
        metadata: None,
    }
}

fn status_update(state: TaskState) -> StreamResponse {
    StreamResponse::StatusUpdate(TaskStatusUpdateEvent {
        task_id: "t-2".to_string(),
        context_id: "c-2".to_string(),
        status: TaskStatus {
            state,
            message: None,
            timestamp: None,
        },
        metadata: None,
    })
}

#[test]
fn test_parse_protocol_version() {
    assert_eq!(parse_protocol_version("1"), Some((1, 0)));
    assert_eq!(parse_protocol_version("1.0"), Some((1, 0)));
    assert_eq!(parse_protocol_version("1.2"), Some((1, 2)));
    assert_eq!(parse_protocol_version("1.0.2"), Some((1, 0)));
    assert_eq!(parse_protocol_version(" 1.1 "), Some((1, 1)));
    assert_eq!(parse_protocol_version("nonsense"), None);
    assert_eq!(parse_protocol_version(""), None);
    assert_eq!(parse_protocol_version("1.x"), None);
    assert_eq!(parse_protocol_version("4294967296.0"), None);
    assert_eq!(supported_protocol_version(), (1, 0));
}

#[test]
fn test_validate_a2a_version() {
    for accepted in [None, Some("1"), Some("1.0"), Some("1.7")] {
        assert!(
            validate_a2a_version(accepted).is_ok(),
            "should accept {accepted:?}"
        );
    }
    for rejected in ["0.3", "0.9", "2.0", "nonsense", ""] {
        let error = validate_a2a_version(Some(rejected)).unwrap_err();
        assert_eq!(error.exit_code(), 2, "rejecting {rejected}");
        assert_eq!(error.envelope().code, "A2ACLI_ERR_USAGE");
    }
    let error = validate_a2a_version(Some("0.3")).unwrap_err();
    assert!(error.to_text().contains("must be 1.x"), "{error:?}");
}

#[test]
fn test_negotiate_a2a_version_uses_an_explicit_flag_verbatim() {
    let negotiated = negotiate_a2a_version(Some("1.0"), "1.0", (1, 0));
    assert_eq!(negotiated.version, "1.0");
    assert!(negotiated.note.is_none());
    let negotiated = negotiate_a2a_version(Some("1.3"), "1.0", (1, 0));
    assert_eq!(negotiated.version, "1.3");
    assert!(negotiated.note.unwrap().contains("1.3"));
}

#[test]
fn test_negotiate_a2a_version_takes_the_highest_shared_1x() {
    let negotiated = negotiate_a2a_version(None, "1.1", (1, 3));
    assert_eq!(negotiated.version, "1.1");
    assert!(negotiated.note.unwrap().contains("negotiated"));
    let negotiated = negotiate_a2a_version(None, "1.5", (1, 3));
    assert_eq!(negotiated.version, "1.3");
    assert!(negotiated.note.is_none());
    let negotiated = negotiate_a2a_version(None, "1.3", (1, 3));
    assert_eq!(negotiated.version, "1.3");
    assert!(negotiated.note.is_none());
}

#[test]
fn test_negotiate_a2a_version_never_goes_below_the_1x_floor() {
    for declared in ["0.3", "0.9", "2.0"] {
        let negotiated = negotiate_a2a_version(None, declared, (1, 0));
        assert_eq!(negotiated.version, "1.0", "declared {declared}");
        let note = negotiated.note.unwrap_or_default();
        assert!(note.contains("outside 1.x"), "declared {declared}: {note}");
    }
    let negotiated = negotiate_a2a_version(None, "not-a-version", (1, 0));
    assert_eq!(negotiated.version, "1.0");
    assert!(negotiated.note.unwrap().contains("unparseable"));
}

#[test]
fn exactly_one_version_is_signaled() {
    let mut params = ServiceParams::new();
    params.insert(
        SVC_PARAM_VERSION.to_string(),
        vec!["0.3".to_string(), "1.0".to_string()],
    );
    signal_version("1.2", &mut params);
    assert_eq!(
        params.get(SVC_PARAM_VERSION),
        Some(&vec!["1.2".to_string()])
    );
    assert_eq!(params.len(), 1);
}

fn capabilities(streaming: Option<bool>) -> AgentCapabilities {
    AgentCapabilities {
        streaming,
        push_notifications: None,
        extensions: None,
        extended_agent_card: None,
    }
}

#[test]
fn undeclared_capabilities_are_refused_with_the_code_of_the_agent() {
    let card = DeclaredCapabilities::Card(capabilities(Some(false)));
    for (capability, code, field) in [
        (
            Capability::Streaming,
            error_code::UNSUPPORTED_OPERATION,
            "streaming",
        ),
        (
            Capability::PushNotifications,
            error_code::PUSH_NOTIFICATION_NOT_SUPPORTED,
            "pushNotifications",
        ),
        (
            Capability::ExtendedCard,
            error_code::UNSUPPORTED_OPERATION,
            "extendedAgentCard",
        ),
    ] {
        assert_eq!(capability.field(), field);
        match card.require(capability).unwrap_err() {
            CliError::A2A(error) => {
                assert_eq!(error.code, code);
                assert_eq!(
                    error.message,
                    format!("the agent card does not declare {field}")
                );
            }
            other => panic!("unexpected error: {other:?}"),
        }
        assert!(DeclaredCapabilities::NoCard.require(capability).is_ok());
    }
    let streaming = DeclaredCapabilities::Card(capabilities(Some(true)));
    assert!(streaming.declares(Capability::Streaming));
    assert!(!streaming.declares(Capability::PushNotifications));
}

#[test]
fn test_is_settled_classifies_task_states() {
    let settled = [
        TaskState::Completed,
        TaskState::Failed,
        TaskState::Canceled,
        TaskState::Rejected,
        TaskState::InputRequired,
        TaskState::AuthRequired,
    ];
    for state in settled {
        assert!(is_settled(&state), "{state:?} should be settled");
    }
    let unsettled = [
        TaskState::Unspecified,
        TaskState::Submitted,
        TaskState::Working,
    ];
    for state in unsettled {
        assert!(!is_settled(&state), "{state:?} should not be settled");
    }
}

#[test]
fn test_task_outcome_note_names_only_non_success_and_paused_states() {
    for (state, expected) in [
        (TaskState::Failed, "FAILED"),
        (TaskState::Rejected, "REJECTED"),
        (TaskState::InputRequired, "INPUT_REQUIRED"),
        (TaskState::AuthRequired, "AUTH_REQUIRED"),
    ] {
        let note =
            task_outcome_note(&state).unwrap_or_else(|| panic!("{state:?} should be named"));
        assert!(note.contains(expected), "{state:?} -> {note}");
    }
    for state in [
        TaskState::Completed,
        TaskState::Canceled,
        TaskState::Submitted,
        TaskState::Working,
        TaskState::Unspecified,
    ] {
        assert!(
            task_outcome_note(&state).is_none(),
            "{state:?} should stay silent"
        );
    }
}

#[test]
fn test_task_outcome_is_read_from_the_reported_value() {
    assert!(
        task_outcome_note(&TaskState::Completed).is_none(),
        "sanity: COMPLETED is silent"
    );
    assert_eq!(SendMessageResponse::Message(message()).warn_outcome(), None);
    assert_eq!(StreamResponse::Message(message()).warn_outcome(), None);
    let failed = task("t-1", TaskState::Failed);
    assert_eq!(
        task_outcome_note(&failed.status.state),
        Some("the agent reported it FAILED")
    );
    assert_eq!(
        SendMessageResponse::Task(failed.clone())
            .warn_outcome()
            .as_deref(),
        Some("task t-1: the agent reported it FAILED")
    );
    assert_eq!(
        StreamResponse::Task(failed).warn_outcome().as_deref(),
        Some("task t-1: the agent reported it FAILED")
    );
    assert_eq!(
        status_update(TaskState::AuthRequired)
            .warn_outcome()
            .as_deref(),
        Some("task t-2: it is paused at AUTH_REQUIRED and needs credentials to continue")
    );
}

#[test]
fn events_carry_the_state_of_their_task() {
    assert_eq!(
        stream_response_state(&status_update(TaskState::Working)),
        Some(TaskState::Working)
    );
    assert_eq!(
        stream_response_state(&StreamResponse::Message(message())),
        None
    );
}

fn waiting() -> Waiting {
    Waiting {
        task_id: "t-1".to_string(),
        tenant: Some("acme".to_string()),
        poll_interval: Span::from_secs(2),
        timeout: Span::from_secs(5),
    }
}

#[test]
fn waiting_polls_until_the_task_settles_or_the_time_is_over() {
    let waiting = waiting();
    let request = waiting.request();
    assert_eq!(request.id, "t-1");
    assert_eq!(request.tenant.as_deref(), Some("acme"));
    assert_eq!(request.history_length, None);
    let poll = |state: TaskState, elapsed: Span| {
        waiting.wait_for_task_settled(Ok(task("t-1", state)), elapsed)
    };
    assert_eq!(
        poll(TaskState::Working, Span::from_secs(0)),
        Polled::Sleep(Span::from_secs(2))
    );
    assert_eq!(
        poll(TaskState::Unspecified, Span::from_millis(4500)),
        Polled::Sleep(Span::from_millis(500))
    );
    assert_eq!(
        poll(TaskState::Completed, Span::from_secs(99)),
        Polled::Settled(task("t-1", TaskState::Completed))
    );
    assert_eq!(
        poll(TaskState::Working, Span::from_secs(5)),
        Polled::Failed(CliError::Timeout {
            task_id: "t-1".to_string(),
            timeout: Span::from_secs(5),
        })
    );
    assert_eq!(
        waiting.wait_for_task_settled(Err(A2AError::internal("x")), Span::from_secs(0)),
        Polled::Failed(CliError::A2A(A2AError::internal("x")))
    );
}

#[test]
fn only_unsettled_tasks_are_waited_for() {
    let settle = |state: TaskState, wait: bool| {
        settle_task(
            task("t-1", state),
            wait,
            Some("acme".to_string()),
            Span::from_secs(2),
            Span::from_secs(5),
        )
    };
    assert_eq!(settle(TaskState::Working, true), Settling::Poll(waiting()));
    assert_eq!(
        settle(TaskState::Working, false),
        Settling::Done(task("t-1", TaskState::Working))
    );
    assert_eq!(
        settle(TaskState::InputRequired, true),
        Settling::Done(task("t-1", TaskState::InputRequired))
    );
}

#[test]
fn a_sent_message_is_followed_unless_told_otherwise() {
    let send = |result: Result<SendMessageResponse, A2AError>, async_mode: bool| {
        send_and_maybe_wait(
            result,
            Some("acme".to_string()),
            async_mode,
            Span::from_secs(2),
            Span::from_secs(5),
        )
    };
    let working = || SendMessageResponse::Task(task("t-1", TaskState::Working));
    assert_eq!(send(Ok(working()), false), Sent::Poll(waiting()));
    assert_eq!(send(Ok(working()), true), Sent::Done(working()));
    assert_eq!(
        send(Ok(SendMessageResponse::Message(message())), false),
        Sent::Done(SendMessageResponse::Message(message()))
    );
    assert_eq!(
        send(Err(A2AError::internal("x")), false),
        Sent::Failed(CliError::A2A(A2AError::internal("x")))
    );
}

fn follow(known: &mut Resumption, happening: Happening, elapsed: Span) -> Following {
    subscribe_with_resumption(
        known,
        happening,
        "t-2",
        &Some("acme".to_string()),
        Span::from_secs(2),
        Span::from_secs(5),
        elapsed,
    )
}

#[test]
fn a_cut_stream_is_resumed_without_repeating_the_state() {
    let start = Span::from_secs(0);
    let mut known = Resumption::new();
    let working = || status_update(TaskState::Working);
    assert_eq!(
        follow(&mut known, Happening::Event(working()), start),
        Following::Show(working())
    );
    match follow(&mut known, Happening::Ended, start) {
        Following::Resubscribe {
            warning,
            pause,
            request,
        } => {
            assert_eq!(
                warning,
                "subscription to task t-2 was interrupted before it settled; reconnecting (attempt 1)..."
            );
            assert_eq!(pause, Span::from_secs(2));
            assert_eq!(request.id, "t-2");
            assert_eq!(request.tenant.as_deref(), Some("acme"));
        }
        other => panic!("unexpected: {other:?}"),
    }
    match follow(
        &mut known,
        Happening::NotResubscribed,
        Span::from_millis(4000),
    ) {
        Following::Resubscribe { warning, pause, .. } => {
            assert!(warning.contains("(attempt 2)"), "{warning}");
            assert_eq!(pause, Span::from_secs(1));
        }
        other => panic!("unexpected: {other:?}"),
    }
    assert_eq!(
        follow(&mut known, Happening::Resubscribed, start),
        Following::Wait
    );
    assert_eq!(
        follow(&mut known, Happening::Event(working()), start),
        Following::Wait
    );
    assert_eq!(
        follow(&mut known, Happening::Event(working()), start),
        Following::Show(working())
    );
    let done = || status_update(TaskState::Completed);
    assert_eq!(
        follow(&mut known, Happening::Event(done()), start),
        Following::Show(done())
    );
    assert_eq!(
        follow(&mut known, Happening::Ended, start),
        Following::Close
    );
}

#[test]
fn a_change_during_the_cut_is_shown() {
    let start = Span::from_secs(0);
    let mut known = Resumption::new();
    follow(
        &mut known,
        Happening::Event(status_update(TaskState::Working)),
        start,
    );
    follow(&mut known, Happening::Ended, start);
    follow(&mut known, Happening::Resubscribed, start);
    let done = || status_update(TaskState::Completed);
    assert_eq!(
        follow(&mut known, Happening::Event(done()), start),
        Following::Show(done())
    );
}

#[test]
fn following_gives_up_when_the_time_is_over_or_the_stream_fails() {
    let mut known = Resumption::new();
    assert_eq!(
        follow(&mut known, Happening::Ended, Span::from_secs(5)),
        Following::Fail(CliError::Timeout {
            task_id: "t-2".to_string(),
            timeout: Span::from_secs(5),
        })
    );
    assert_eq!(known.attempt, 0);
    assert_eq!(
        follow(
            &mut known,
            Happening::Failed(A2AError::internal("x")),
            Span::from_secs(0)
        ),
        Following::Fail(CliError::A2A(A2AError::internal("x")))
    );
}

#[test]
fn a_bad_version_is_refused_before_anything_else() {
    let error = run(&Cli {
        a2a_version: Some("0.3".to_string()),
        ..cli()
    })
    .unwrap_err();
    assert_eq!(error.exit_code(), 2);
    assert_eq!(run(&cli()).unwrap(), Step::ShowConfig);
    let step = |command: Command| {
        run(&Cli {
            command,
            a2a_version: Some("1.1".to_string()),
            ..cli()
        })
        .unwrap()
    };
    assert_eq!(
        step(Command::Completion { shell: Shell::Zsh }),
        Step::Complete(Shell::Zsh)
    );
    let card = |extended: bool, validate: bool| Command::Card {
        command: CardCommand::Get(CardGetCommand { extended, validate }),
    };
    assert_eq!(step(card(false, true)), Step::ShowCard { validate: true });
    assert_eq!(step(card(true, false)), Step::Connect);
    assert_eq!(step(Command::Send(message_command())), Step::Compose);
    assert_eq!(
        step(Command::Task {
            command: TaskCommand::Cancel(TaskIdCommand {
                id: "t".to_string()
            })
        }),
        Step::Connect
    );
}

fn message_command() -> MessageCommand {
    MessageCommand {
        text: Some("hi".to_string()),
        text_parts: vec![],
        file_parts: vec![],
        data_parts: vec![],
        media_types: vec![],
        context_id: None,
        task_id: None,
        history_length: None,
        accepted_output_modes: vec![],
        return_immediately: false,
        stream: false,
    }
}

fn declares_all() -> DeclaredCapabilities {
    DeclaredCapabilities::Card(AgentCapabilities {
        streaming: Some(true),
        push_notifications: Some(true),
        extensions: None,
        extended_agent_card: Some(true),
    })
}

fn declares_nothing() -> DeclaredCapabilities {
    DeclaredCapabilities::Card(capabilities(None))
}

fn acme() -> Option<String> {
    Some("acme".to_string())
}

#[test]
fn task_commands_make_their_calls() {
    let none = declares_nothing();
    match run_task_command(
        &TaskCommand::Get(TaskLookupCommand {
            id: "t".to_string(),
            history_length: Some(3),
        }),
        acme(),
        &none,
    )
    .unwrap()
    {
        Call::GetTask(request) => {
            assert_eq!(request.id, "t");
            assert_eq!(request.history_length, Some(3));
            assert_eq!(request.tenant, acme());
        }
        other => panic!("unexpected: {other:?}"),
    }
    match run_task_command(
        &TaskCommand::List(ListTasksCommand {
            context_id: Some("c".to_string()),
            status: Some(TaskStateArg::Working),
            page_size: Some(7),
            page_token: None,
            history_length: None,
            include_artifacts: true,
        }),
        acme(),
        &none,
    )
    .unwrap()
    {
        Call::ListTasks(request) => {
            assert_eq!(request.status, Some(TaskState::Working));
            assert_eq!(request.page_size, Some(7));
            assert_eq!(request.include_artifacts, Some(true));
            assert_eq!(request.context_id.as_deref(), Some("c"));
        }
        other => panic!("unexpected: {other:?}"),
    }
    let subscribe = || {
        TaskCommand::Subscribe(TaskIdCommand {
            id: "t".to_string(),
        })
    };
    assert!(matches!(
        run_task_command(&subscribe(), acme(), &declares_all()).unwrap(),
        Call::SubscribeToTask(_)
    ));
    assert_eq!(
        run_task_command(&subscribe(), acme(), &none).unwrap_err(),
        CliError::A2A(Capability::Streaming.undeclared_error())
    );
    assert!(run_task_command(&subscribe(), acme(), &DeclaredCapabilities::NoCard).is_ok());
}

#[test]
fn push_config_commands_need_push_notifications() {
    let create = |scheme: Option<&str>| {
        PushConfigCommand::Create(CreatePushConfigCommand {
            task_id: "t".to_string(),
            url: "https://example.com".to_string(),
            config_id: None,
            token: None,
            auth_scheme: scheme.map(str::to_string),
            auth_credentials: Some("secret".to_string()),
        })
    };
    match run_push_config_command(&create(Some("Bearer")), acme(), &declares_all()).unwrap() {
        Call::CreatePushConfig(config) => {
            assert_eq!(config.task_id, "t");
            assert_eq!(config.tenant, acme());
        }
        other => panic!("unexpected: {other:?}"),
    }
    assert!(matches!(
        run_push_config_command(&create(None), acme(), &declares_all()).unwrap_err(),
        CliError::InvalidInput(_)
    ));
    let by_id = || PushConfigIdCommand {
        task_id: "t".to_string(),
        id: "cfg".to_string(),
    };
    let list = || ListPushConfigsCommand {
        task_id: "t".to_string(),
        page_size: None,
        page_token: None,
    };
    for command in [
        create(None),
        PushConfigCommand::Get(by_id()),
        PushConfigCommand::List(list()),
        PushConfigCommand::Delete(by_id()),
    ] {
        assert_eq!(
            run_push_config_command(&command, acme(), &declares_nothing()).unwrap_err(),
            CliError::A2A(Capability::PushNotifications.undeclared_error())
        );
    }
    assert!(matches!(
        run_push_config_command(&PushConfigCommand::Delete(by_id()), None, &declares_all()),
        Ok(Call::DeletePushConfig(_))
    ));
}

#[test]
fn an_extended_card_has_to_be_declared() {
    assert!(matches!(
        run_card_command(acme(), &declares_all()).unwrap(),
        Call::GetExtendedAgentCard(_)
    ));
    assert!(run_card_command(acme(), &declares_nothing()).is_err());
}

#[test]
fn streaming_falls_back_to_polling() {
    let command = |stream: bool| MessageCommand {
        text: Some("hi".to_string()),
        text_parts: vec![],
        file_parts: vec![],
        data_parts: vec![],
        media_types: vec![],
        context_id: None,
        task_id: None,
        history_length: None,
        accepted_output_modes: vec![],
        return_immediately: false,
        stream,
    };
    let send = |stream: bool, declared: &DeclaredCapabilities| {
        run_send_command(
            &command(stream),
            vec![Part::text("hi")],
            acme(),
            "m".to_string(),
            declared,
        )
    };
    let (call, warning) = send(true, &declares_all());
    assert!(matches!(call, Call::SendStreamingMessage(_)));
    assert!(warning.is_none());
    let (call, warning) = send(true, &declares_nothing());
    assert!(matches!(call, Call::SendMessage(_)));
    assert!(warning.unwrap().contains("does not declare streaming"));
    let (call, warning) = send(false, &declares_nothing());
    assert!(matches!(call, Call::SendMessage(_)));
    assert!(warning.is_none());
    assert_eq!(
        stream_refused(A2AError::unsupported_operation("no")),
        StreamRefused::FallBack
    );
    assert_eq!(
        stream_refused(A2AError::internal("no")),
        StreamRefused::Fail(CliError::A2A(A2AError::internal("no")))
    );
}

#[test]
fn test_finish_client_call_propagates_destroy_error() {
    let destroy = || Err(A2AError::internal("destroy"));
    assert_eq!(
        finish_client_call(Ok(1), destroy()).unwrap_err(),
        CliError::A2A(A2AError::internal("destroy"))
    );
    assert_eq!(
        finish_client_call::<i32>(Err(A2AError::internal("call")), destroy()).unwrap_err(),
        CliError::A2A(A2AError::internal("call"))
    );
    assert_eq!(finish_client_call(Ok(1), Ok(())).unwrap(), 1);
}

#[test]
fn streams_are_printed_to_their_end() {
    assert_eq!(consume_stream(Some(Ok(1))), StreamStep::Print(1));
    assert_eq!(consume_stream::<i32>(None), StreamStep::Close);
    assert_eq!(
        consume_stream::<i32>(Some(Err(A2AError::internal("x")))),
        StreamStep::Fail(CliError::A2A(A2AError::internal("x")))
    );
}

#[test]
fn the_output_mode_decides_the_form() {
    let with = |output: OutputFormat, compact: bool| Cli {
        output,
        compact,
        ..cli()
    };
    assert_eq!(print_output(&with(OutputFormat::Text, true)), Form::Text);
    assert_eq!(print_output(&with(OutputFormat::Json, false)), Form::Pretty);
    assert_eq!(print_output(&with(OutputFormat::Json, true)), Form::Compact);
    assert_eq!(
        print_stream_value(&with(OutputFormat::Json, false)),
        Form::Compact
    );
    assert_eq!(
        print_stream_value(&with(OutputFormat::Text, false)),
        Form::Text
    );
}

#[test]
fn insecure_connections_are_never_silent() {
    assert_eq!(warn_if_insecure_with_credentials(&cli()), None);
    let plain = warn_if_insecure_with_credentials(&Cli {
        insecure: true,
        ..cli()
    })
    .unwrap();
    assert!(!plain.contains("credential (--bearer"), "{plain}");
    let risky = warn_if_insecure_with_credentials(&Cli {
        insecure: true,
        api_key: Some("k".to_string()),
        ..cli()
    })
    .unwrap();
    assert!(risky.contains("a credential (--bearer/--api-key)"), "{risky}");
}

#[test]
fn the_card_comes_from_where_the_flags_say() {
    assert_eq!(
        resolve_agent_card(&cli(), false).unwrap(),
        CardSource::Url("http://localhost:3000/.well-known/agent-card.json".to_string())
    );
    assert_eq!(
        resolve_agent_card(
            &Cli {
                agent_card: Some("card.json".to_string()),
                ..cli()
            },
            true
        )
        .unwrap(),
        CardSource::File("card.json".to_string())
    );
    assert!(matches!(
        resolve_agent_card(
            &Cli {
                endpoint: Some("http://h/rpc".to_string()),
                transport: vec![Binding::Jsonrpc],
                ..cli()
            },
            false
        )
        .unwrap(),
        CardSource::Synthesized(_)
    ));
}

#[test]
fn unreadable_and_malformed_cards_are_told_apart() {
    assert_eq!(
        read_agent_card_file("c.json", Err("gone".to_string())).unwrap_err(),
        CliError::CardFile {
            path: "c.json".to_string(),
            reason: "gone".to_string(),
        }
    );
    let error = read_agent_card_file("c.json", Ok("{".to_string())).unwrap_err();
    assert!(error.to_text().contains("c.json: "), "{error:?}");
    assert!(matches!(error, CliError::CardInvalid(_)));
    assert_eq!(
        read_agent_card_file("c.json", Ok("{\"a\": [1]}".to_string())).unwrap(),
        parse_json("{\"a\":[1]}").unwrap()
    );
    assert_eq!(
        invalid_card("u", "bad"),
        CliError::CardInvalid("u: bad".to_string())
    );
}

#[test]
fn a_card_is_held_against_the_schema() {
    let bundle =
        r#"{"definitions": {"Agent Card": {"type": "object", "required": ["name"]}}}"#;
    assert!(validate_card_or_fail(&parse_json("{\"name\":1}").unwrap(), bundle).is_ok());
    match validate_card_or_fail(&parse_json("{}").unwrap(), bundle).unwrap_err() {
        CliError::CardSchemaInvalid { violations } => assert_eq!(violations.len(), 1),
        other => panic!("unexpected: {other:?}"),
    }
    let broken = validate_card_or_fail(&parse_json("{}").unwrap(), "{}").unwrap_err();
    assert_eq!(
        broken,
        CliError::CardInvalid(
            "schema could not be loaded: vendored schema has no definitions".to_string()
        )
    );
}

#[test]
fn every_call_carries_credentials_and_one_version() {
    let param = |name: &str, value: &str| CallInterceptor::Param {
        name: name.to_string(),
        value: value.to_string(),
    };
    assert_eq!(
        client_interceptors(
            &Cli {
                bearer: Some("b".to_string()),
                api_key: Some("k".to_string()),
                svc_params: vec![HeaderArg {
                    name: "X".to_string(),
                    value: "1".to_string(),
                }],
                debug: true,
                ..cli()
            },
            "1.0".to_string()
        ),
        vec![
            param("Authorization", "Bearer b"),
            param("X-API-Key", "k"),
            param("X", "1"),
            CallInterceptor::Logging,
            CallInterceptor::Version("1.0".to_string()),
        ]
    );
}

fn card(interfaces: Vec<AgentInterface>) -> AgentCard {
    AgentCard {
        name: "n".to_string(),
        description: "d".to_string(),
        version: "1.0".to_string(),
        supported_interfaces: interfaces,
        capabilities: capabilities(Some(true)),
        default_input_modes: vec![],
        default_output_modes: vec![],
        skills: vec![],
        provider: None,
        documentation_url: None,
        icon_url: None,
        security_schemes: None,
        security_requirements: None,
        signatures: None,
    }
}

#[test]
fn the_card_decides_the_interface_unless_the_caller_does() {
    let card = card(vec![
        AgentInterface::new("http://rest", TRANSPORT_PROTOCOL_HTTP_JSON),
        AgentInterface::new("http://rpc", TRANSPORT_PROTOCOL_JSONRPC),
    ]);
    let choose = |cli: &Cli, failures: &Vec<A2AError>| {
        choose_interface(cli, &client_factory(cli, 1, 2), &card, failures)
    };
    let plain = choose(&cli(), &vec![]).ok().unwrap();
    assert_eq!(plain.interface.url, "http://rest");
    assert_eq!(plain.transport, TransportChoice::Rest);
    let preferring = Cli {
        transport: vec![Binding::Jsonrpc],
        ..cli()
    };
    assert_eq!(
        choose(&preferring, &vec![]).ok().unwrap().interface.url,
        "http://rpc"
    );
    let next = choose(&cli(), &vec![A2AError::internal("x")]).ok().unwrap();
    assert_eq!(next.interface.url, "http://rpc");
    let insecure = Cli {
        insecure: true,
        ..cli()
    };
    assert_eq!(
        choose(&insecure, &vec![]).ok().unwrap().transport,
        TransportChoice::Registered(2)
    );
}

#[test]
fn a_declared_tenant_is_not_displaced() {
    let mut interface = AgentInterface::new("http://rpc", TRANSPORT_PROTOCOL_JSONRPC);
    let flagged = Cli {
        tenant: Some("flag".to_string()),
        ..cli()
    };
    let resolve = |interface: &AgentInterface| {
        resolve_client(&flagged, &card(vec![]), interface)
            .ok()
            .unwrap()
    };
    assert_eq!(resolve(&interface).tenant.as_deref(), Some("flag"));
    interface.tenant = Some(String::new());
    assert_eq!(resolve(&interface).tenant.as_deref(), Some("flag"));
    interface.tenant = Some("declared".to_string());
    let client = resolve(&interface);
    assert_eq!(client.tenant.as_deref(), Some("declared"));
    assert_eq!(client.note, None);
    assert_eq!(
        client.capabilities,
        DeclaredCapabilities::Card(capabilities(Some(true)))
    );
    let endpoint = Cli {
        endpoint: Some("http://rpc".to_string()),
        transport: vec![Binding::Jsonrpc],
        ..cli()
    };
    assert_eq!(
        resolve_client(&endpoint, &card(vec![]), &interface)
            .ok()
            .unwrap()
            .capabilities,
        DeclaredCapabilities::NoCard
    );
}

#[test]
fn a_failure_to_close_is_reported_only_after_success() {
    let broken = || Err(A2AError::internal("close failed"));
    assert_eq!(close_client(Ok(7), Ok(())), Ok(7));
    assert_eq!(
        close_client(Ok(7), broken()),
        Err(CliError::A2A(A2AError::internal("close failed")))
    );
    let first = || Err::<i32, CliError>(CliError::InvalidInput("first".to_string()));
    assert_eq!(close_client(first(), broken()), first());
    assert_eq!(close_client(first(), Ok(())), first());
}

#[test]
fn only_a_cut_with_time_left_leads_to_reconnecting() {
    let timeout = Span::from_secs(5);
    let mut known = Resumption::new();
    let early = Span::from_secs(1);
    assert!(known.reconnects(&Happening::Ended, timeout, early));
    assert!(known.reconnects(&Happening::NotResubscribed, timeout, early));
    assert!(!known.reconnects(&Happening::Ended, timeout, timeout));
    assert!(!known.reconnects(&Happening::Resubscribed, timeout, early));
    known.last_state = Some(TaskState::Completed);
    known.attempt = u32::MAX;
    assert!(!known.reconnects(&Happening::Ended, timeout, early));
    assert_eq!(follow(&mut known, Happening::Ended, early), Following::Close);
}
