use a2a_kit::error_code;
use a2a_kit::protocol::{
    ListTasksRequest, Message, Part, Role, Task, TaskState, TaskStatus, Timestamp,
};
use a2a_kit::task_store::InMemoryTaskStore;

fn make_task(id: &str, ctx: &str, state: TaskState) -> Task {
    Task {
        id: id.to_string(),
        context_id: ctx.to_string(),
        status: TaskStatus {
            state,
            message: None,
            timestamp: None,
        },
        artifacts: None,
        history: None,
        metadata: None,
    }
}

fn message(role: Role, text: &str) -> Message {
    Message::new("m".to_string(), role, vec![Part::text(text)])
}

fn request() -> ListTasksRequest {
    ListTasksRequest {
        context_id: None,
        status: None,
        page_size: None,
        page_token: None,
        history_length: None,
        status_timestamp_after: None,
        include_artifacts: None,
        tenant: None,
    }
}

fn store_of(tasks: Vec<Task>) -> InMemoryTaskStore {
    let mut store = InMemoryTaskStore::new();
    for task in tasks {
        store.create(task).unwrap();
    }
    store
}

#[test]
fn test_create_and_get() {
    let mut store = InMemoryTaskStore::new();
    let ver = store
        .create(make_task("t1", "c1", TaskState::Submitted))
        .unwrap();
    assert_eq!(ver, 1);
    let got = store.get("t1").unwrap().unwrap();
    assert_eq!(got.id, "t1");
    assert_eq!(got.context_id, "c1");
}

#[test]
fn test_create_duplicate() {
    let mut store = store_of(vec![make_task("t1", "c1", TaskState::Submitted)]);
    let result = store.create(make_task("t1", "c1", TaskState::Submitted));
    assert!(result.is_err());
}

#[test]
fn test_update() {
    let mut store = store_of(vec![make_task("t1", "c1", TaskState::Submitted)]);
    let ver = store
        .update(make_task("t1", "c1", TaskState::Working))
        .unwrap();
    assert_eq!(ver, 2);
    assert_eq!(store.version_of("t1"), Some(2));
    let got = store.get("t1").unwrap().unwrap();
    assert_eq!(got.status.state, TaskState::Working);
}

#[test]
fn test_update_not_found() {
    let mut store = InMemoryTaskStore::new();
    let result = store.update(make_task("t1", "c1", TaskState::Working));
    assert_eq!(result.unwrap_err().code, error_code::TASK_NOT_FOUND);
    assert_eq!(store.version_of("t1"), None);
}

#[test]
fn test_update_terminal_state_rejected() {
    let mut store = store_of(vec![make_task("t1", "c1", TaskState::Completed)]);
    for state in [
        TaskState::Submitted,
        TaskState::Working,
        TaskState::Canceled,
        TaskState::Failed,
    ] {
        let result = store.update(make_task("t1", "c1", state));
        assert!(result.is_err(), "expected {state:?} update to be rejected");
        assert_eq!(
            result.unwrap_err().code,
            error_code::INVALID_REQUEST,
            "unexpected code for {state:?}"
        );
    }
}

#[test]
fn test_update_terminal_same_state_allowed() {
    let mut store = store_of(vec![make_task("t1", "c1", TaskState::Canceled)]);
    let mut task = make_task("t1", "c1", TaskState::Canceled);
    task.status.message = Some(message(Role::Agent, "after cancel"));
    let ver = store.update(task).unwrap();
    assert_eq!(ver, 2);
    let got = store.get("t1").unwrap().unwrap();
    assert_eq!(got.status.state, TaskState::Canceled);
    assert!(got.status.message.is_some());
}

#[test]
fn test_begin_cancel_transitions_non_terminal() {
    let mut store = store_of(vec![make_task("t1", "c1", TaskState::Working)]);
    let task = store.begin_cancel("t1").unwrap();
    assert_eq!(task.status.state, TaskState::Canceled);
    let result = store.begin_cancel("t1");
    assert!(result.is_err());
    assert_eq!(result.unwrap_err().code, error_code::TASK_NOT_CANCELABLE);
}

#[test]
fn canceling_is_dated_with_the_current_time() {
    let mut store = store_of(vec![make_task("t1", "c1", TaskState::Working)]);
    let task = store.begin_cancel("t1").unwrap();
    assert!(task.status.timestamp.unwrap().seconds > 1_600_000_000);
}

#[test]
fn test_begin_cancel_terminal_rejected() {
    let mut store = store_of(vec![make_task("t1", "c1", TaskState::Completed)]);
    let result = store.begin_cancel("t1");
    assert!(result.is_err());
    assert_eq!(result.unwrap_err().code, error_code::TASK_NOT_CANCELABLE);
}

#[test]
fn test_begin_cancel_not_found() {
    let mut store = InMemoryTaskStore::new();
    let result = store.begin_cancel("nonexistent");
    assert!(result.is_err());
    assert_eq!(result.unwrap_err().code, error_code::TASK_NOT_FOUND);
}

#[test]
fn test_get_not_found() {
    let store = InMemoryTaskStore::new();
    assert!(store.get("nonexistent").unwrap().is_none());
}

#[test]
fn test_list_filter_by_context() {
    let store = store_of(vec![
        make_task("t1", "c1", TaskState::Submitted),
        make_task("t2", "c2", TaskState::Working),
        make_task("t3", "c1", TaskState::Completed),
    ]);
    let resp = store
        .list(&ListTasksRequest {
            context_id: Some("c1".to_string()),
            ..request()
        })
        .unwrap();
    assert_eq!(resp.tasks.len(), 2);
    assert_eq!(resp.total_size, 2);
}

#[test]
fn test_list_filter_by_status() {
    let store = store_of(vec![
        make_task("t1", "c1", TaskState::Submitted),
        make_task("t2", "c1", TaskState::Working),
    ]);
    let resp = store
        .list(&ListTasksRequest {
            status: Some(TaskState::Working),
            ..request()
        })
        .unwrap();
    assert_eq!(resp.tasks.len(), 1);
    assert_eq!(resp.tasks[0].id, "t2");
}

fn numbered(count: usize) -> InMemoryTaskStore {
    store_of(
        (0..count)
            .map(|i| make_task(&format!("t{i:03}"), "c1", TaskState::Submitted))
            .collect(),
    )
}

#[test]
fn test_list_pagination() {
    let store = numbered(5);
    let resp = store
        .list(&ListTasksRequest {
            page_size: Some(2),
            ..request()
        })
        .unwrap();
    assert_eq!(resp.tasks.len(), 2);
    assert_eq!(resp.total_size, 5);
    assert!(!resp.next_page_token.is_empty());
    let resp2 = store
        .list(&ListTasksRequest {
            page_token: Some(resp.next_page_token),
            page_size: Some(2),
            ..request()
        })
        .unwrap();
    assert_eq!(resp2.tasks.len(), 2);
}

#[test]
fn the_pages_together_list_every_task_once() {
    let store = numbered(7);
    let mut seen: Vec<String> = Vec::new();
    let mut token: Option<String> = None;
    loop {
        let resp = store
            .list(&ListTasksRequest {
                page_size: Some(3),
                page_token: token,
                ..request()
            })
            .unwrap();
        seen.extend(resp.tasks.iter().map(|task| task.id.clone()));
        if resp.next_page_token.is_empty() {
            break;
        }
        token = Some(resp.next_page_token);
    }
    seen.sort();
    let expected: Vec<String> = (0..7).map(|i| format!("t{i:03}")).collect();
    assert_eq!(seen, expected);
}

#[test]
fn test_list_zero_page_size_uses_default_window() {
    let resp = numbered(3)
        .list(&ListTasksRequest {
            page_size: Some(0),
            ..request()
        })
        .unwrap();
    assert_eq!(resp.tasks.len(), 3);
    assert_eq!(resp.page_size, 50);
}

fn with_history() -> InMemoryTaskStore {
    let mut task = make_task("t1", "c1", TaskState::Working);
    task.history = Some(vec![
        message(Role::User, "1"),
        message(Role::Agent, "2"),
        message(Role::User, "3"),
    ]);
    store_of(vec![task])
}

#[test]
fn test_list_history_truncation() {
    let store = with_history();
    let resp = store
        .list(&ListTasksRequest {
            history_length: Some(1),
            ..request()
        })
        .unwrap();
    let history = resp.tasks[0].history.as_ref().unwrap();
    assert_eq!(history.len(), 1);
    assert_eq!(history[0], message(Role::User, "3"));
    let empty = store
        .list(&ListTasksRequest {
            history_length: Some(-1),
            ..request()
        })
        .unwrap();
    assert!(empty.tasks[0].history.as_ref().unwrap().is_empty());
}

#[test]
fn test_list_negative_history_length_returns_empty_history() {
    let resp = with_history()
        .list(&ListTasksRequest {
            history_length: Some(-1),
            ..request()
        })
        .unwrap();
    assert_eq!(resp.tasks.len(), 1);
    assert_eq!(resp.tasks[0].history.as_ref().unwrap().len(), 0);
}

#[test]
fn test_list_page_size_is_capped() {
    let resp = numbered(150)
        .list(&ListTasksRequest {
            page_size: Some(1000),
            ..request()
        })
        .unwrap();
    assert_eq!(resp.tasks.len(), 100);
    assert_eq!(resp.page_size, 100);
    assert_eq!(resp.total_size, 150);
}

#[test]
fn test_list_invalid_page_token_errors() {
    let result = numbered(1).list(&ListTasksRequest {
        page_token: Some("not-a-number".to_string()),
        ..request()
    });
    assert!(result.is_err());
    assert_eq!(result.unwrap_err().code, error_code::INVALID_PARAMS);
}

#[test]
fn test_list_out_of_range_page_token_returns_empty_page() {
    let resp = numbered(3)
        .list(&ListTasksRequest {
            page_token: Some("999".to_string()),
            ..request()
        })
        .unwrap();
    assert!(resp.tasks.is_empty());
    assert!(
        resp.next_page_token.is_empty(),
        "must not hand back another token"
    );
    assert_eq!(resp.total_size, 3);
}

#[test]
fn a_cancel_keeps_everything_but_the_status() {
    let mut task = make_task("t1", "c1", TaskState::Working);
    task.history = Some(vec![message(Role::User, "hi")]);
    let mut store = store_of(vec![task]);
    let now = Timestamp {
        seconds: 5,
        nanoseconds: 6,
    };
    let canceled = store.begin_cancel_at("t1", now).unwrap();
    assert_eq!(canceled.status.timestamp, Some(now));
    assert_eq!(canceled.history.unwrap().len(), 1);
    assert_eq!(store.version_of("t1"), Some(2));
}

#[test]
fn grants_are_told_before_a_write() {
    let mut store = InMemoryTaskStore::new();
    store
        .create(make_task("t1", "c1", TaskState::Working))
        .unwrap();
    assert!(store.grants_cancel("t1"));
    assert!(!store.grants_cancel("t2"));
    assert!(store.grants_update(&make_task("t1", "c1", TaskState::Completed)));
    assert!(!store.grants_update(&make_task("t2", "c1", TaskState::Completed)));
    store.begin_cancel("t1").unwrap();
    assert!(!store.grants_cancel("t1"));
    assert!(!store.grants_update(&make_task("t1", "c1", TaskState::Working)));
    assert!(store.grants_update(&make_task("t1", "c1", TaskState::Canceled)));
}
