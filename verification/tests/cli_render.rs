use a2a_kit::cli::config::{ConfigSetting, ConfigSettings};
use a2a_kit::cli::render::{task_state_label, PushConfigDeleted, TextRender};
use a2a_kit::json::Json;
use a2a_kit::protocol::{
    AgentCapabilities, AgentCard, AgentInterface, Artifact, AuthenticationInfo,
    ListTaskPushNotificationConfigsResponse, ListTasksResponse, Message, Part, Role,
    SendMessageResponse, StreamResponse, Task, TaskArtifactUpdateEvent,
    TaskPushNotificationConfig, TaskState, TaskStatus, TaskStatusUpdateEvent,
    TRANSPORT_PROTOCOL_JSONRPC, VERSION,
};

fn message(parts: Vec<Part>) -> Message {
    Message::new("m-1".to_string(), Role::Agent, parts)
}

fn object(key: &str, number: &str) -> Json {
    Json::Object(vec![(key.to_string(), Json::Number(number.to_string()))])
}

fn make_fixture_task(id: &str, context_id: &str, state: TaskState, text: &str) -> Task {
    Task {
        id: id.to_string(),
        context_id: context_id.to_string(),
        status: TaskStatus {
            state,
            message: Some(message(vec![Part::text(text)])),
            timestamp: None,
        },
        artifacts: None,
        history: None,
        metadata: None,
    }
}

fn card(name: &str, interfaces: Vec<AgentInterface>, capabilities: AgentCapabilities) -> AgentCard {
    AgentCard {
        name: name.to_string(),
        description: "desc".to_string(),
        version: VERSION.to_string(),
        supported_interfaces: interfaces,
        capabilities,
        default_input_modes: vec![],
        default_output_modes: vec![],
        skills: vec![],
        provider: None,
        documentation_url: None,
        icon_url: None,
        security_schemes: None,
        security_requirements: None,
        signatures: None,
    }
}

#[test]
fn test_agent_card_render_text() {
    let card = card(
        "Fixture",
        vec![AgentInterface::new(
            "http://host/jsonrpc",
            TRANSPORT_PROTOCOL_JSONRPC,
        )],
        AgentCapabilities {
            streaming: Some(true),
            push_notifications: Some(false),
            extensions: None,
            extended_agent_card: None,
        },
    );
    let text = card.render_text();
    assert!(text.contains("Name: Fixture"));
    assert!(text.contains("Streaming: true"));
    assert!(text.contains("Push Notifications: false"));
    assert!(text.contains("Extended Card: false"));
    assert!(text.contains("Interfaces:"));
    assert!(text.contains("http://host/jsonrpc"));
    assert!(text.contains("Skills: 0"));
    assert_eq!(
        text,
        "Name: Fixture\nDescription: desc\nVersion: 1.0\nStreaming: true\nPush Notifications: false\nExtended Card: false\nInterfaces:\n  - JSONRPC http://host/jsonrpc (v1.0)\n\nSkills: 0"
    );
}

#[test]
fn test_message_render_text_renders_every_part_kind() {
    let mut file_part = Part::raw(vec![1, 2, 3]);
    file_part.filename = Some("report.bin".to_string());
    file_part.media_type = Some("application/octet-stream".to_string());
    let message = message(vec![
        Part::text("hello"),
        Part::data(object("k", "1")),
        file_part,
    ]);
    let text = message.render_text();
    assert!(text.contains("Text:\nhello"));
    assert!(text.contains("Data:"));
    assert!(text.contains("\"k\": 1"));
    assert!(text.contains("File: report.bin (application/octet-stream, 3 bytes)"));
}

#[test]
fn test_render_part_without_media_type_falls_back_to_name_and_url() {
    let mut notes = Part::raw(vec![1, 2]);
    notes.filename = Some("notes.txt".to_string());
    let mut report = Part::url("https://example.com/report.csv");
    report.media_type = Some("text/csv".to_string());
    let message = message(vec![
        Part::raw(vec![7; 12]),
        notes,
        Part::url("https://example.com/spec.pdf"),
        report,
    ]);
    let text = message.render_text();
    assert!(text.contains("File: (unnamed) (12 bytes)"), "{text}");
    assert!(text.contains("File: notes.txt (2 bytes)"), "{text}");
    assert!(
        text.contains("File: https://example.com/spec.pdf"),
        "{text}"
    );
    assert!(
        text.contains("File: https://example.com/report.csv (text/csv)"),
        "{text}"
    );
}

#[test]
fn test_message_render_text_marks_an_empty_part_list() {
    let mut message = message(vec![]);
    message.context_id = Some("ctx-1".to_string());
    message.task_id = Some("task-1".to_string());
    let text = message.render_text();
    assert!(text.contains("Context ID: ctx-1"), "{text}");
    assert!(text.contains("Task ID: task-1"), "{text}");
    assert!(text.contains("Parts: (none)"), "{text}");
}

#[test]
fn test_send_message_response_renders_the_message_arm() {
    let message = message(vec![Part::text("no task needed")]);
    let response = SendMessageResponse::Message(message.clone());
    assert_eq!(response.render_text(), message.render_text());
    assert!(response.render_text().contains("no task needed"));
}

#[test]
fn test_agent_card_render_text_marks_an_empty_interface_list() {
    let text = card("Bare", vec![], AgentCapabilities::default()).render_text();
    assert!(text.contains("Interfaces:\n  (none)"), "{text}");
    assert!(text.contains("Streaming: false"), "{text}");
}

#[test]
fn test_task_render_text_lists_artifacts_and_resume_hint() {
    let mut task = make_fixture_task(
        "task-art",
        "ctx-art",
        TaskState::InputRequired,
        "which region?",
    );
    task.artifacts = Some(vec![
        Artifact {
            artifact_id: "art-1".to_string(),
            name: Some("summary".to_string()),
            description: None,
            parts: vec![Part::text("all clear")],
            metadata: None,
            extensions: None,
        },
        Artifact {
            artifact_id: "art-2".to_string(),
            name: None,
            description: None,
            parts: vec![Part::data(object("rows", "3"))],
            metadata: None,
            extensions: None,
        },
    ]);
    let text = task.render_text();
    assert!(text.contains("Artifact: summary"), "{text}");
    assert!(text.contains("all clear"), "{text}");
    assert!(text.contains("Artifact: art-2"), "{text}");
    assert!(text.contains("\"rows\": 3"), "{text}");
    assert!(
        text.contains("Resume with: a2acli send --task-id task-art \"<reply>\""),
        "{text}"
    );
}

#[test]
fn test_task_state_label_covers_every_state() {
    let cases = [
        (TaskState::Unspecified, "UNSPECIFIED"),
        (TaskState::Submitted, "SUBMITTED"),
        (TaskState::Working, "WORKING"),
        (TaskState::Completed, "COMPLETED"),
        (TaskState::Failed, "FAILED"),
        (TaskState::Canceled, "CANCELED"),
        (TaskState::InputRequired, "INPUT_REQUIRED"),
        (TaskState::Rejected, "REJECTED"),
        (TaskState::AuthRequired, "AUTH_REQUIRED"),
    ];
    for (state, expected) in cases {
        assert_eq!(task_state_label(&state), expected);
        assert!(!expected.starts_with("TASK_STATE_"));
    }
}

#[test]
fn test_list_tasks_render_text_empty_and_paged() {
    let empty = ListTasksResponse {
        tasks: vec![],
        next_page_token: "next-token".to_string(),
        page_size: 10,
        total_size: 0,
    };
    let text = empty.render_text();
    assert!(text.contains("Total: 0"), "{text}");
    assert!(text.contains("Page Size: 10"), "{text}");
    assert!(text.contains("Next Page Token: next-token"), "{text}");
    assert!(text.contains("Tasks: (none)"), "{text}");
    let populated = ListTasksResponse {
        tasks: vec![make_fixture_task(
            "task-1",
            "ctx-1",
            TaskState::Completed,
            "done",
        )],
        next_page_token: String::new(),
        page_size: 10,
        total_size: 1,
    };
    let text = populated.render_text();
    assert!(!text.contains("Next Page Token"), "{text}");
    assert!(text.contains("Task:"), "{text}");
    assert!(text.contains("Task ID: task-1"), "{text}");
}

fn push_config() -> TaskPushNotificationConfig {
    TaskPushNotificationConfig {
        url: "https://example.com/hook".to_string(),
        id: Some("cfg-1".to_string()),
        task_id: "task-1".to_string(),
        token: None,
        authentication: None,
        tenant: None,
    }
}

#[test]
fn test_push_config_render_text_includes_token_and_auth_scheme() {
    let mut config = push_config();
    config.token = Some("tok-1".to_string());
    config.authentication = Some(AuthenticationInfo {
        scheme: "Bearer".to_string(),
        credentials: Some("super-secret".to_string()),
    });
    let text = config.render_text();
    assert!(text.contains("Config ID: cfg-1"), "{text}");
    assert!(text.contains("Task ID: task-1"), "{text}");
    assert!(text.contains("URL: https://example.com/hook"), "{text}");
    assert!(text.contains("Token: tok-1"), "{text}");
    assert!(text.contains("Auth Scheme: Bearer"), "{text}");
    assert!(!text.contains("super-secret"), "{text}");
}

#[test]
fn test_list_push_configs_render_text_empty_and_paged() {
    let empty = ListTaskPushNotificationConfigsResponse {
        configs: vec![],
        next_page_token: Some("next-token".to_string()),
    };
    let text = empty.render_text();
    assert!(text.contains("Next Page Token: next-token"), "{text}");
    assert!(text.contains("Configs: (none)"), "{text}");
    let populated = ListTaskPushNotificationConfigsResponse {
        configs: vec![push_config()],
        next_page_token: None,
    };
    let text = populated.render_text();
    assert!(!text.contains("Next Page Token"), "{text}");
    assert!(text.contains("Push Config:"), "{text}");
    assert!(text.contains("Config ID: cfg-1"), "{text}");
}

#[test]
fn test_push_config_deleted_render_text() {
    let deleted = PushConfigDeleted {
        deleted: true,
        task_id: "task-1".to_string(),
        id: "cfg-1".to_string(),
    };
    let text = deleted.render_text();
    assert!(text.contains("Deleted: true"), "{text}");
    assert!(text.contains("Task ID: task-1"), "{text}");
    assert!(text.contains("Config ID: cfg-1"), "{text}");
}

fn status_update(state: TaskState) -> StreamResponse {
    StreamResponse::StatusUpdate(TaskStatusUpdateEvent {
        task_id: "task-s".to_string(),
        context_id: "ctx-s".to_string(),
        status: TaskStatus {
            state,
            message: None,
            timestamp: None,
        },
        metadata: None,
    })
}

#[test]
fn test_stream_response_render_text_covers_update_events() {
    let text = status_update(TaskState::AuthRequired).render_text();
    assert!(text.contains("Task ID: task-s"), "{text}");
    assert!(text.contains("Context ID: ctx-s"), "{text}");
    assert!(text.contains("State: AUTH_REQUIRED"), "{text}");
    assert!(
        text.contains("Resume with: a2acli send --task-id task-s \"<reply>\""),
        "{text}"
    );
    assert!(!status_update(TaskState::Working)
        .render_text()
        .contains("Resume with"));
    let artifact = StreamResponse::ArtifactUpdate(TaskArtifactUpdateEvent {
        task_id: "task-s".to_string(),
        context_id: "ctx-s".to_string(),
        artifact: Artifact {
            artifact_id: "art-9".to_string(),
            name: None,
            description: None,
            parts: vec![Part::text("chunk one")],
            metadata: None,
            extensions: None,
        },
        append: None,
        last_chunk: None,
        metadata: None,
    });
    let text = artifact.render_text();
    assert!(text.contains("Task ID: task-s"), "{text}");
    assert!(text.contains("Artifact: art-9"), "{text}");
    assert!(text.contains("chunk one"), "{text}");
    let task = make_fixture_task("task-s", "ctx-s", TaskState::Completed, "done");
    assert_eq!(
        StreamResponse::Task(task.clone()).render_text(),
        task.render_text()
    );
    let message = message(vec![Part::text("interim")]);
    assert_eq!(
        StreamResponse::Message(message.clone()).render_text(),
        message.render_text()
    );
}

#[test]
fn settings_render_with_their_source() {
    let settings = ConfigSettings {
        settings: vec![
            ConfigSetting {
                name: "tenant".to_string(),
                value: "acme".to_string(),
                source: "flag".to_string(),
            },
            ConfigSetting {
                name: "wait".to_string(),
                value: "false".to_string(),
                source: "built-in default".to_string(),
            },
        ],
    };
    assert_eq!(
        settings.render_text(),
        "tenant: acme (source: flag)\nwait: false (source: built-in default)"
    );
}
