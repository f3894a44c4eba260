use a2a_kit::drive::{
    on_created, on_event, on_found, on_published, on_pushed, on_updated, send_push_notifications,
    Drive, PushRound, Turn,
};
use a2a_kit::error_code;
use a2a_kit::execution::{
    ActiveExecution, Delivery, ExecutionEvent, ExecutionManager, Item, Received, Subscription,
    EXECUTION_BUFFER_CAPACITY,
};
use a2a_kit::handler::{
    cancel_task, get_task, on_reply, subscribe_to_task, CancelStart, Reply,
};
use a2a_kit::protocol::{
    A2AError, Artifact, GetTaskRequest, Message, Part, Role, SendMessageConfiguration,
    SendMessageRequest, SendMessageResponse, StreamResponse, Task, TaskArtifactUpdateEvent,
    TaskState, TaskStatus, TaskStatusUpdateEvent,
};
use a2a_kit::task_store::InMemoryTaskStore;

fn make_task(id: &str, state: TaskState) -> Task {
    Task {
        id: id.to_string(),
        context_id: "c1".to_string(),
        status: TaskStatus {
            state,
            message: None,
            timestamp: None,
        },
        artifacts: None,
        history: None,
        metadata: None,
    }
}

fn task_event(id: &str, state: TaskState) -> StreamResponse {
    StreamResponse::Task(make_task(id, state))
}

fn status_event(id: &str, state: TaskState) -> StreamResponse {
    StreamResponse::StatusUpdate(TaskStatusUpdateEvent {
        task_id: id.to_string(),
        context_id: "c1".to_string(),
        status: TaskStatus {
            state,
            message: None,
            timestamp: None,
        },
        metadata: None,
    })
}

/// Runs a turn on a store to its end: gives what was published with its
/// number, and what the turn ended in.
fn drive(
    turn: Turn,
    store: &mut InMemoryTaskStore,
    active: &mut ActiveExecution,
    items: Vec<Item>,
    sent: Result<(), A2AError>,
) -> (Vec<ExecutionEvent>, Option<A2AError>) {
    let mut items = items.into_iter();
    let mut published = Vec::new();
    let mut next = Drive::Await {
        current: active.snapshot_task.clone(),
    };
    loop {
        next = match next {
            Drive::Await { current } => {
                on_event(turn, current, items.next(), active.snapshot_is_terminal())
            }
            Drive::Lookup {
                current,
                event,
                update,
            } => {
                let found = store.get(update.task_id());
                on_found(turn, current, event, &update, found)
            }
            Drive::Update { event, task } => {
                let written = store.update(task.clone());
                on_updated(turn, event, task, written)
            }
            Drive::Create { event, task } => {
                let written = store.create(task.clone());
                on_created(turn, event, task, written)
            }
            Drive::Push { event, updated } => on_pushed(turn, event, updated, sent.clone()),
            Drive::Publish { result, snapshot } => {
                published.extend(active.publish(&result, snapshot.clone(), 1));
                on_published(turn, result, snapshot)
            }
            Drive::Finish => return (published, None),
            Drive::Fail { error } => return (published, Some(error)),
        };
    }
}

#[test]
fn test_active_execution_keeps_snapshot_without_subscribers() {
    let mut active = ActiveExecution::new(make_task("t-buffering", TaskState::Working));
    let event = Ok(task_event("t-buffering", TaskState::Working));
    let published = active.publish(&event, Some(make_task("t-buffering", TaskState::Working)), 0);
    assert!(published.is_none());
    let subscription = active.resubscribe();
    assert_eq!(subscription.snapshot_task.unwrap().id, "t-buffering");
    assert_eq!(subscription.min_sequence, 1);
}

#[test]
fn test_active_execution_publishes_errors_to_subscribers() {
    let mut active = ActiveExecution::new(make_task("t", TaskState::Working));
    let event = active
        .publish(&Err(A2AError::internal("execution failed")), None, 1)
        .unwrap();
    assert_eq!(event.sequence, 1);
    assert_eq!(event.result.unwrap_err().code, error_code::INTERNAL_ERROR);
}

#[test]
fn test_active_execution_drops_errors_without_subscribers() {
    let mut active = ActiveExecution::new(make_task("t", TaskState::Working));
    let published = active.publish(
        &Err(A2AError::internal("execution failed")),
        Some(make_task("t-error-no-sub", TaskState::Working)),
        0,
    );
    assert!(published.is_none());
    let subscription = active.resubscribe();
    assert_eq!(subscription.snapshot_task.unwrap().id, "t-error-no-sub");
    assert_eq!(subscription.min_sequence, 1);
}

#[test]
fn test_active_execution_publishes_events_with_snapshot_updates() {
    let mut active = ActiveExecution::new(make_task("t", TaskState::Working));
    let event = active
        .publish(
            &Ok(task_event("t-snapshot-update", TaskState::Working)),
            Some(make_task("t-snapshot-update", TaskState::Working)),
            1,
        )
        .unwrap();
    assert_eq!(event.sequence, 1);
    match event.result {
        Ok(StreamResponse::Task(task)) => assert_eq!(task.id, "t-snapshot-update"),
        _ => panic!("expected Ok(Task) event"),
    }
    let subscription = active.resubscribe();
    assert_eq!(subscription.snapshot_task.unwrap().id, "t-snapshot-update");
    assert_eq!(subscription.min_sequence, 1);
}

#[test]
fn a_slow_subscriber_is_told_that_it_fell_behind() {
    assert_eq!(EXECUTION_BUFFER_CAPACITY, 32);
    let mut subscription = Subscription::from_start();
    assert!(matches!(subscription.poll(), Delivery::Receive));
    match subscription.receive(Received::Lagged) {
        Delivery::Emit(Err(error)) => {
            assert_eq!(error.message, "subscription fell behind active execution")
        }
        _ => panic!("expected an error"),
    }
    assert!(matches!(subscription.poll(), Delivery::End));
}

#[test]
fn a_late_subscriber_sees_the_snapshot_and_then_only_what_is_new() {
    let mut active = ActiveExecution::new(make_task("t", TaskState::Working));
    let old = active
        .publish(&Ok(task_event("t", TaskState::Working)), None, 1)
        .unwrap();
    let mut subscription = active.resubscribe();
    match subscription.poll() {
        Delivery::Emit(Ok(StreamResponse::Task(task))) => {
            assert_eq!(task.status.state, TaskState::Working)
        }
        _ => panic!("expected the snapshot"),
    }
    assert!(matches!(subscription.poll(), Delivery::Receive));
    assert!(matches!(
        subscription.receive(Received::Event(old)),
        Delivery::Receive
    ));
    let new = active
        .publish(&Ok(task_event("t", TaskState::Completed)), None, 1)
        .unwrap();
    assert!(matches!(
        subscription.receive(Received::Event(new)),
        Delivery::Emit(Ok(_))
    ));
    assert!(matches!(subscription.poll(), Delivery::End));
}

#[test]
fn a_task_runs_once_at_a_time() {
    let mut manager = ExecutionManager::new();
    let first = manager.start("t1").unwrap();
    let error = manager.start("t1").unwrap_err();
    assert_eq!(error.code, error_code::INVALID_REQUEST);
    assert_eq!(
        error.message,
        "task execution is already in progress: t1"
    );
    assert_eq!(manager.get("t1"), Some(first));
    manager.finish("t1", first + 1);
    assert_eq!(manager.get("t1"), Some(first));
    manager.finish("t1", first);
    assert_eq!(manager.get("t1"), None);
    let second = manager.start("t1").unwrap();
    assert!(second != first);
}

fn request(return_immediately: bool) -> SendMessageRequest {
    SendMessageRequest {
        message: Message::new("m1".to_string(), Role::User, vec![Part::text("hi")]),
        configuration: Some(SendMessageConfiguration {
            accepted_output_modes: None,
            task_push_notification_config: None,
            history_length: None,
            return_immediately: Some(return_immediately),
        }),
        metadata: None,
        tenant: None,
    }
}

/// Answers a blocking request from what an execution published.
fn reply(
    store: &InMemoryTaskStore,
    req: &SendMessageRequest,
    published: Vec<ExecutionEvent>,
) -> Result<SendMessageResponse, A2AError> {
    let mut subscription = Subscription::from_start();
    let mut inbox = published.into_iter();
    let mut last = None;
    loop {
        let item = loop {
            match subscription.poll() {
                Delivery::Emit(item) => break Some(item),
                Delivery::End => break None,
                Delivery::Receive => match inbox.next() {
                    None => break None,
                    Some(event) => match subscription.receive(Received::Event(event)) {
                        Delivery::Emit(item) => break Some(item),
                        Delivery::Receive => (),
                        Delivery::End => break None,
                    },
                },
            }
        };
        match on_reply(req, "t1", last, item) {
            Reply::Wait { last: kept } => last = kept,
            Reply::Load { task_id } => {
                return Ok(SendMessageResponse::Task(
                    store.get(&task_id).unwrap().unwrap(),
                ))
            }
            Reply::Answer { response } => return Ok(response),
            Reply::Fail { error } => return Err(error),
        }
    }
}

fn answered(req: &SendMessageRequest, items: Vec<Item>) -> Result<SendMessageResponse, A2AError> {
    let mut store = InMemoryTaskStore::new();
    store
        .create(make_task("t1", TaskState::Submitted))
        .unwrap();
    let mut active = ActiveExecution::new(make_task("t1", TaskState::Submitted));
    let (published, _) = drive(Turn::Execute, &mut store, &mut active, items, Ok(()));
    reply(&store, req, published)
}

#[test]
fn test_send_message_creates_task() {
    let response = answered(
        &request(false),
        vec![
            Ok(status_event("t1", TaskState::Working)),
            Ok(task_event("t1", TaskState::Completed)),
        ],
    )
    .unwrap();
    match response {
        SendMessageResponse::Task(task) => assert_eq!(task.status.state, TaskState::Completed),
        _ => panic!("expected Task response"),
    }
}

#[test]
fn test_send_message_return_immediately_allows_resubscribe() {
    let mut store = InMemoryTaskStore::new();
    let mut manager = ExecutionManager::new();
    let mut submitted = make_task("t-resume", TaskState::Submitted);
    submitted.context_id = "c-resume".to_string();
    store.create(submitted.clone()).unwrap();
    let handle = manager.start("t-resume").unwrap();
    let mut active = ActiveExecution::new(submitted);
    let (published, _) = drive(
        Turn::Execute,
        &mut store,
        &mut active,
        vec![Ok(task_event("t-resume", TaskState::Working))],
        Ok(()),
    );
    match reply(&store, &request(true), published).unwrap() {
        SendMessageResponse::Task(task) => assert_eq!(task.status.state, TaskState::Working),
        _ => panic!("expected Task response"),
    }
    assert_eq!(manager.get("t-resume"), Some(handle));
    let mut subscription = subscribe_to_task("t-resume", Some(&active)).unwrap();
    match subscription.poll() {
        Delivery::Emit(Ok(StreamResponse::Task(task))) => {
            assert_eq!(task.status.state, TaskState::Working)
        }
        _ => panic!("expected snapshot task"),
    }
    let terminal = active
        .publish(&Ok(task_event("t-resume", TaskState::Completed)), None, 1)
        .unwrap();
    match subscription.receive(Received::Event(terminal)) {
        Delivery::Emit(Ok(StreamResponse::Task(task))) => {
            assert_eq!(task.status.state, TaskState::Completed)
        }
        _ => panic!("expected terminal task"),
    }
    assert!(matches!(subscription.poll(), Delivery::End));
    manager.finish("t-resume", handle);
    assert_eq!(manager.get("t-resume"), None);
    match subscribe_to_task("t-resume", None) {
        Ok(_) => panic!("expected subscribe_to_task to fail after completion"),
        Err(error) => assert_eq!(error.code, error_code::TASK_NOT_FOUND),
    }
}

#[test]
fn a_blocking_answer_is_what_a_read_then_gives() {
    let artifact = StreamResponse::ArtifactUpdate(TaskArtifactUpdateEvent {
        task_id: "t1".to_string(),
        context_id: "c1".to_string(),
        artifact: Artifact {
            artifact_id: "a1".to_string(),
            name: None,
            description: None,
            parts: vec![Part::text("half")],
            metadata: None,
            extensions: None,
        },
        append: None,
        last_chunk: None,
        metadata: None,
    });
    let last_events = vec![
        status_event("t1", TaskState::Completed),
        task_event("t1", TaskState::Failed),
    ];
    for last in last_events {
        let mut store = InMemoryTaskStore::new();
        store
            .create(make_task("t1", TaskState::Submitted))
            .unwrap();
        let mut active = ActiveExecution::new(make_task("t1", TaskState::Submitted));
        let (published, _) = drive(
            Turn::Execute,
            &mut store,
            &mut active,
            vec![Ok(artifact.clone()), Ok(last)],
            Ok(()),
        );
        let answer = match reply(&store, &request(false), published).unwrap() {
            SendMessageResponse::Task(task) => task,
            _ => panic!("expected Task response"),
        };
        assert!(answer.status.state.is_terminal());
        let read = GetTaskRequest {
            id: answer.id.clone(),
            history_length: None,
            tenant: None,
        };
        assert_eq!(get_task(&read, store.get(&answer.id)), Ok(answer));
    }
}

#[test]
fn a_message_answers_at_once() {
    let message = Message::new("m2".to_string(), Role::Agent, vec![Part::text("hello")]);
    let response = answered(
        &request(false),
        vec![Ok(StreamResponse::Message(message.clone()))],
    )
    .unwrap();
    assert_eq!(response, SendMessageResponse::Message(message));
}

#[test]
fn a_pause_for_credentials_answers_a_blocking_request() {
    let response = answered(
        &request(false),
        vec![
            Ok(status_event("t1", TaskState::AuthRequired)),
            Ok(status_event("t1", TaskState::Completed)),
        ],
    )
    .unwrap();
    match response {
        SendMessageResponse::Task(task) => assert_eq!(task.id, "t1"),
        _ => panic!("expected Task response"),
    }
}

#[test]
fn an_error_of_the_executor_is_published_and_ends_the_turn() {
    let error = answered(
        &request(false),
        vec![
            Err(A2AError::internal("execution failed")),
            Ok(task_event("t1", TaskState::Completed)),
        ],
    )
    .unwrap_err();
    assert_eq!(error.message, "execution failed");
}

#[test]
fn nothing_is_looked_at_after_a_terminal_event() {
    let mut store = InMemoryTaskStore::new();
    store
        .create(make_task("t1", TaskState::Submitted))
        .unwrap();
    let mut active = ActiveExecution::new(make_task("t1", TaskState::Submitted));
    let (published, failed) = drive(
        Turn::Execute,
        &mut store,
        &mut active,
        vec![
            Ok(status_event("t1", TaskState::Completed)),
            Ok(status_event("t1", TaskState::Working)),
        ],
        Ok(()),
    );
    assert_eq!(published.len(), 1);
    assert!(failed.is_none());
    assert_eq!(
        store.get("t1").unwrap().unwrap().status.state,
        TaskState::Completed
    );
}

#[test]
fn a_failed_notification_ends_an_execution_and_a_cancel() {
    for turn in [Turn::Execute, Turn::Cancel] {
        let mut store = InMemoryTaskStore::new();
        store.create(make_task("t1", TaskState::Working)).unwrap();
        let mut active = ActiveExecution::new(make_task("t1", TaskState::Working));
        let (published, failed) = drive(
            turn,
            &mut store,
            &mut active,
            vec![Ok(status_event("t1", TaskState::Working))],
            Err(A2AError::internal("push")),
        );
        match turn {
            Turn::Execute => {
                assert_eq!(
                    published[0].result.as_ref().unwrap_err().message,
                    "push"
                );
                assert!(failed.is_none());
            }
            Turn::Cancel => {
                assert!(published.is_empty());
                assert_eq!(failed.unwrap().message, "push");
            }
        }
    }
}

#[test]
fn test_cancel_task_working() {
    let mut store = InMemoryTaskStore::new();
    store.create(make_task("t2", TaskState::Working)).unwrap();
    let task = match cancel_task("t2", store.get("t2")) {
        CancelStart::Run { task } => task,
        CancelStart::Answer { .. } => panic!("expected the cancel to run"),
    };
    let mut active = ActiveExecution::new(task);
    let (_, failed) = drive(
        Turn::Cancel,
        &mut store,
        &mut active,
        vec![Ok(status_event("t2", TaskState::Canceled))],
        Ok(()),
    );
    assert!(failed.is_none());
    assert_eq!(
        store.get("t2").unwrap().unwrap().status.state,
        TaskState::Canceled
    );
}

#[test]
fn test_cancel_task_already_completed() {
    let mut store = InMemoryTaskStore::new();
    store.create(make_task("t3", TaskState::Completed)).unwrap();
    match cancel_task("t3", store.get("t3")) {
        CancelStart::Answer { answer } => {
            assert_eq!(answer.unwrap().status.state, TaskState::Completed)
        }
        CancelStart::Run { .. } => panic!("expected the task as it is"),
    }
}

#[test]
fn test_cancel_task_not_found() {
    let store = InMemoryTaskStore::new();
    match cancel_task("nonexistent", store.get("nonexistent")) {
        CancelStart::Answer { answer } => {
            assert_eq!(answer.unwrap_err().code, error_code::TASK_NOT_FOUND)
        }
        CancelStart::Run { .. } => panic!("expected an error"),
    }
}

#[test]
fn webhooks_are_notified_one_after_the_other() {
    assert_eq!(
        send_push_notifications(2, 0, Ok(())),
        PushRound::Send { index: 0 }
    );
    assert_eq!(
        send_push_notifications(2, 1, Ok(())),
        PushRound::Send { index: 1 }
    );
    assert_eq!(
        send_push_notifications(2, 2, Ok(())),
        PushRound::Done { sent: Ok(()) }
    );
    assert_eq!(
        send_push_notifications(2, 1, Err(A2AError::internal("x"))),
        PushRound::Done {
            sent: Err(A2AError::internal("x"))
        }
    );
}
