use a2a_kit::error_code;
use a2a_kit::handler::{
    bound_list_request, bound_list_response, cancel_context, execution_context, get_task,
    list_push_configs, prepare_task_for_execution, subscribe_to_task, task_id_for_message,
    DefaultRequestHandler, ServiceParams,
};
use a2a_kit::protocol::{
    AgentCapabilities, CancelTaskRequest, GetTaskRequest, ListTaskPushNotificationConfigsRequest,
    ListTasksRequest, ListTasksResponse, Message, Part, Role, SendMessageConfiguration,
    SendMessageRequest, Task, TaskPushNotificationConfig, TaskState, TaskStatus, Timestamp,
};

fn message() -> Message {
    Message::new("m1".to_string(), Role::User, vec![Part::text("hi")])
}

fn request() -> SendMessageRequest {
    SendMessageRequest {
        message: message(),
        configuration: None,
        metadata: None,
        tenant: None,
    }
}

fn make_task(id: &str, state: TaskState) -> Task {
    Task {
        id: id.to_string(),
        context_id: "c1".to_string(),
        status: TaskStatus {
            state,
            message: None,
            timestamp: None,
        },
        artifacts: None,
        history: Some(vec![message(), message(), message()]),
        metadata: None,
    }
}

fn get(id: &str, history_length: Option<i32>) -> GetTaskRequest {
    GetTaskRequest {
        id: id.to_string(),
        history_length,
        tenant: None,
    }
}

#[test]
fn test_with_capabilities() {
    let handler = DefaultRequestHandler::new().with_capabilities(AgentCapabilities {
        streaming: Some(true),
        push_notifications: None,
        extensions: None,
        extended_agent_card: None,
    });
    assert_eq!(handler.capabilities().streaming, Some(true));
}

#[test]
fn test_with_push_config_store_enables_push_capability() {
    let handler = DefaultRequestHandler::new().with_push_config_store();
    assert_eq!(handler.capabilities().push_notifications, Some(true));
    assert!(handler.push_config_store().is_ok());
}

#[test]
fn test_push_config_not_supported_without_store() {
    let handler = DefaultRequestHandler::new();
    let error = handler.push_config_store().unwrap_err();
    assert_eq!(error.code, error_code::PUSH_NOTIFICATION_NOT_SUPPORTED);
    assert_eq!(error.message, "push notifications are not supported");
}

#[test]
fn test_extended_agent_card_not_configured() {
    let error = DefaultRequestHandler::new()
        .get_extended_agent_card()
        .unwrap_err();
    assert_eq!(error.code, error_code::UNSUPPORTED_OPERATION);
}

#[test]
fn test_get_task_not_found() {
    let error = get_task(&get("nonexistent", None), Ok(None)).unwrap_err();
    assert_eq!(error.code, error_code::TASK_NOT_FOUND);
}

#[test]
fn test_get_task_applies_history_length() {
    let task = get_task(
        &get("t-hist", Some(1)),
        Ok(Some(make_task("t-hist", TaskState::Working))),
    )
    .unwrap();
    assert_eq!(task.history.unwrap().len(), 1);
}

#[test]
fn test_get_task_negative_history_length_returns_empty_history() {
    let task = get_task(
        &get("t-neg", Some(-1)),
        Ok(Some(make_task("t-neg", TaskState::Working))),
    )
    .unwrap();
    assert_eq!(task.history.unwrap().len(), 0);
}

#[test]
fn test_require_authentication_rejects_unauthenticated_requests() {
    let handler = DefaultRequestHandler::new().require_authentication();
    let error = handler.authorize(&ServiceParams::new()).unwrap_err();
    assert_eq!(error.code, error_code::INVALID_REQUEST);
    let mut blank = ServiceParams::new();
    blank.insert("authorization".to_string(), vec!["  ".to_string()]);
    assert!(handler.authorize(&blank).is_err());
}

#[test]
fn test_require_authentication_allows_authenticated_requests() {
    let handler = DefaultRequestHandler::new().require_authentication();
    let mut params = ServiceParams::new();
    params.insert(
        "authorization".to_string(),
        vec!["Bearer token-abc".to_string()],
    );
    assert!(handler.authorize(&params).is_ok());
}

#[test]
fn nobody_is_refused_unless_credentials_are_required() {
    assert!(DefaultRequestHandler::new()
        .authorize(&ServiceParams::new())
        .is_ok());
}

#[test]
fn test_subscribe_requires_active_execution() {
    match subscribe_to_task("t1", None) {
        Ok(_) => panic!("expected subscribe_to_task to fail"),
        Err(error) => assert_eq!(error.code, error_code::TASK_NOT_FOUND),
    }
}

fn config(id: &str) -> TaskPushNotificationConfig {
    TaskPushNotificationConfig {
        task_id: "t1".to_string(),
        url: format!("https://example.com/{id}"),
        id: Some(id.to_string()),
        token: None,
        authentication: None,
        tenant: Some("tenant-a".to_string()),
    }
}

fn page(size: Option<i32>, token: Option<&str>) -> ListTaskPushNotificationConfigsRequest {
    ListTaskPushNotificationConfigsRequest {
        task_id: "t1".to_string(),
        page_size: size,
        page_token: token.map(str::to_string),
        tenant: Some("tenant-a".to_string()),
    }
}

#[test]
fn push_configs_are_listed_in_order_and_in_pages() {
    let configs = || vec![config("cfg-2"), config("cfg-1")];
    let first_page = list_push_configs(configs(), &page(Some(1), Some("0")));
    assert_eq!(first_page.configs.len(), 1);
    assert_eq!(first_page.configs[0].id.as_deref(), Some("cfg-1"));
    assert_eq!(first_page.next_page_token.as_deref(), Some("1"));
    let default_page = list_push_configs(configs(), &page(Some(0), None));
    assert_eq!(default_page.configs.len(), 2);
    assert!(default_page.next_page_token.is_none());
    let beyond = list_push_configs(configs(), &page(None, Some("9")));
    assert!(beyond.configs.is_empty());
    let garbage = list_push_configs(configs(), &page(None, Some("x")));
    assert_eq!(garbage.configs.len(), 2);
}

#[test]
fn pages_of_push_configs_are_bounded() {
    let configs: Vec<TaskPushNotificationConfig> =
        (0..150).map(|i| config(&format!("cfg-{i:03}"))).collect();
    let page = list_push_configs(configs, &page(Some(1000), None));
    assert_eq!(page.configs.len(), 100);
    assert_eq!(page.next_page_token.as_deref(), Some("100"));
}

#[test]
fn pages_of_tasks_are_bounded_whatever_the_store_does() {
    let bounded = bound_list_request(ListTasksRequest {
        context_id: None,
        status: None,
        page_size: Some(1000),
        page_token: None,
        history_length: None,
        status_timestamp_after: None,
        include_artifacts: None,
        tenant: None,
    });
    assert_eq!(bounded.page_size, Some(100));
    let response = bound_list_response(ListTasksResponse {
        tasks: (0..120)
            .map(|i| make_task(&format!("t{i}"), TaskState::Working))
            .collect(),
        next_page_token: String::new(),
        page_size: 100,
        total_size: 120,
    });
    assert_eq!(response.tasks.len(), 100);
}

#[test]
fn a_new_task_starts_submitted_with_the_message_as_its_history() {
    let now = Timestamp {
        seconds: 1,
        nanoseconds: 2,
    };
    let req = request();
    let task_id = task_id_for_message(&req, "fresh-task".to_string());
    assert_eq!(task_id, "fresh-task");
    let prepared =
        prepare_task_for_execution(&req, task_id, None, "fresh-context".to_string(), now);
    assert_eq!(prepared.task.status.state, TaskState::Submitted);
    assert_eq!(prepared.task.status.timestamp, Some(now));
    assert_eq!(prepared.task.context_id, "fresh-context");
    assert_eq!(prepared.task.history, Some(vec![message()]));
    assert!(prepared.stored.is_none());
    let seen = execution_context(&ServiceParams::new(), request(), &prepared, true);
    assert_eq!(seen.stored_task.unwrap().id, "fresh-task");
    let unseen = execution_context(&ServiceParams::new(), request(), &prepared, false);
    assert!(unseen.stored_task.is_none());
}

#[test]
fn a_stored_task_keeps_its_context() {
    let mut req = request();
    req.message.task_id = Some("t1".to_string());
    req.message.context_id = Some("other".to_string());
    assert_eq!(
        task_id_for_message(&req, "fresh-task".to_string()),
        "t1"
    );
    let prepared = prepare_task_for_execution(
        &req,
        "t1".to_string(),
        Some(make_task("t1", TaskState::Working)),
        "fresh-context".to_string(),
        Timestamp {
            seconds: 1,
            nanoseconds: 0,
        },
    );
    assert_eq!(prepared.context_id, "c1");
    assert_eq!(prepared.task, make_task("t1", TaskState::Working));
}

#[test]
fn a_cancel_shows_the_executor_the_stored_task() {
    let req = CancelTaskRequest {
        id: "t1".to_string(),
        metadata: None,
        tenant: Some("acme".to_string()),
    };
    let context = cancel_context(
        &ServiceParams::new(),
        req,
        &make_task("t1", TaskState::Working),
    );
    assert_eq!(context.task_id, "t1");
    assert_eq!(context.context_id, "c1");
    assert_eq!(context.tenant.as_deref(), Some("acme"));
    assert!(context.message.is_none());
}

#[test]
fn a_push_config_in_a_request_is_saved_for_its_task() {
    let mut req = request();
    req.tenant = Some("acme".to_string());
    let mut sent = config("cfg");
    sent.task_id = String::new();
    sent.tenant = None;
    req.configuration = Some(SendMessageConfiguration {
        accepted_output_modes: None,
        task_push_notification_config: Some(sent),
        history_length: None,
        return_immediately: None,
    });
    let handler = DefaultRequestHandler::new().with_push_notifications();
    let saved = handler
        .save_request_push_config("t1", &req)
        .unwrap()
        .unwrap();
    assert_eq!(saved.task_id, "t1");
    assert_eq!(saved.tenant.as_deref(), Some("acme"));
    let refused = DefaultRequestHandler::new().save_request_push_config("t1", &req);
    assert_eq!(
        refused.unwrap_err().code,
        error_code::PUSH_NOTIFICATION_NOT_SUPPORTED
    );
    assert_eq!(
        DefaultRequestHandler::new()
            .save_request_push_config("t1", &request())
            .unwrap(),
        None
    );
}
