use a2a_kit::artifacts::apply_artifact;
use a2a_kit::error_code;
use a2a_kit::events::apply_event_to_task;
use a2a_kit::json::Json;
use a2a_kit::protocol::{
    Artifact, Part, StreamResponse, Task, TaskArtifactUpdateEvent, TaskState, TaskStatus,
    TaskStatusUpdateEvent,
};
use a2a_kit::protocol::{A2AError, Members};
use a2a_kit::task_store::InMemoryTaskStore;

type Update = (Artifact, Option<bool>);

fn artifact(id: &str, texts: &[&str]) -> Artifact {
    Artifact {
        artifact_id: id.to_string(),
        name: None,
        description: None,
        parts: texts.iter().map(|text| Part::text(text)).collect(),
        metadata: None,
        extensions: None,
    }
}

fn members(pairs: &[(&str, Json)]) -> Option<Members> {
    Some(
        pairs
            .iter()
            .map(|(name, value)| (name.to_string(), value.clone()))
            .collect(),
    )
}

fn number(text: &str) -> Json {
    Json::Number(text.to_string())
}

fn text(value: &str) -> Json {
    Json::Text(value.to_string())
}

fn task() -> Task {
    Task {
        id: "t1".to_string(),
        context_id: "c1".to_string(),
        status: TaskStatus {
            state: TaskState::Submitted,
            message: None,
            timestamp: None,
        },
        artifacts: None,
        history: None,
        metadata: None,
    }
}

/// Applies a task, the updates and its completion to a store.
fn snapshot(updates: Vec<Update>) -> Result<Task, A2AError> {
    let mut store = InMemoryTaskStore::new();
    let mut current = apply_event_to_task(&mut store, None, &StreamResponse::Task(task()))?;
    for (artifact, append) in updates {
        let event = StreamResponse::ArtifactUpdate(TaskArtifactUpdateEvent {
            task_id: "t1".to_string(),
            context_id: "c1".to_string(),
            artifact,
            append,
            last_chunk: None,
            metadata: None,
        });
        current = apply_event_to_task(&mut store, current, &event)?;
    }
    let done = StreamResponse::StatusUpdate(TaskStatusUpdateEvent {
        task_id: "t1".to_string(),
        context_id: "c1".to_string(),
        status: TaskStatus {
            state: TaskState::Completed,
            message: None,
            timestamp: None,
        },
        metadata: None,
    });
    let last = apply_event_to_task(&mut store, current, &done)?.unwrap();
    let stored = store.get("t1").unwrap().unwrap();
    assert_eq!(last, stored);
    assert_eq!(stored.status.state, TaskState::Completed);
    Ok(stored)
}

fn assert_snapshot(updates: Vec<Update>, expected: Vec<Artifact>) {
    assert_eq!(snapshot(updates).unwrap().artifacts.unwrap(), expected);
}

#[test]
fn single_artifact_is_preserved() {
    for append in [None, Some(false)] {
        let initial = artifact("answer", &["Hello"]);
        assert_snapshot(vec![(initial.clone(), append)], vec![initial]);
    }
}

#[test]
fn append_updates_preserve_part_boundaries_and_empty_final_chunk() {
    assert_snapshot(
        vec![
            (artifact("answer", &["Hello"]), Some(false)),
            (artifact("answer", &[" ", "world"]), Some(true)),
            (artifact("answer", &[""]), Some(true)),
        ],
        vec![artifact("answer", &["Hello", " ", "world", ""])],
    );
}

#[test]
fn replacement_discards_the_draft_before_later_appends() {
    for append in [None, Some(false)] {
        let mut draft = artifact("answer", &["Draft"]);
        draft.name = Some("Draft name".to_string());
        draft.description = Some("Draft description".to_string());
        draft.metadata = members(&[("draft", Json::Bool(true))]);
        draft.extensions = Some(vec!["https://example.com/draft".to_string()]);
        assert_snapshot(
            vec![
                (draft, None),
                (artifact("answer", &["Final"]), append),
                (artifact("answer", &["!"]), Some(true)),
            ],
            vec![artifact("answer", &["Final", "!"])],
        );
    }
}

#[test]
fn interleaved_ids_keep_their_order_and_independent_contents() {
    assert_snapshot(
        vec![
            (artifact("answer", &["Draft"]), None),
            (artifact("reasoning", &["Think"]), None),
            (artifact("answer", &["Final"]), Some(false)),
            (artifact("reasoning", &[" more"]), Some(true)),
            (artifact("answer", &["!"]), Some(true)),
        ],
        vec![
            artifact("answer", &["Final", "!"]),
            artifact("reasoning", &["Think", " more"]),
        ],
    );
}

#[test]
fn append_merges_artifact_metadata_and_preserves_structured_parts() {
    let mut initial = artifact("answer", &["Hello"]);
    initial.name = Some("Answer".to_string());
    initial.description = Some("Description".to_string());
    initial.extensions = Some(vec!["https://example.com/extension".to_string()]);
    initial.metadata = members(&[("keep", Json::Bool(true)), ("state", text("draft"))]);
    let mut chunk = artifact("answer", &[]);
    chunk.name = Some("Chunk name".to_string());
    chunk.description = Some("Chunk description".to_string());
    chunk.extensions = Some(vec!["https://example.com/chunk".to_string()]);
    chunk.metadata = members(&[("state", text("done")), ("new", number("42"))]);
    let mut data = Part::data(Json::Object(vec![(
        "result".to_string(),
        Json::Array(vec![number("1"), number("2")]),
    )]));
    data.metadata = members(&[("source", text("tool"))]);
    let mut file = Part::raw(vec![0, 1, 255]);
    file.filename = Some("result.bin".to_string());
    file.media_type = Some("application/octet-stream".to_string());
    chunk.parts = vec![data.clone(), file.clone()];
    let mut expected = initial.clone();
    expected.parts = vec![Part::text("Hello"), data, file];
    expected.metadata = members(&[
        ("keep", Json::Bool(true)),
        ("state", text("done")),
        ("new", number("42")),
    ]);
    assert_snapshot(vec![(initial, None), (chunk, Some(true))], vec![expected]);
}

#[test]
fn append_can_introduce_metadata() {
    let initial = artifact("answer", &["Hello"]);
    let mut chunk = artifact("answer", &[" world"]);
    chunk.metadata = members(&[("source", text("model"))]);
    let mut expected = artifact("answer", &["Hello", " world"]);
    expected.metadata = members(&[("source", text("model"))]);
    assert_snapshot(vec![(initial, None), (chunk, Some(true))], vec![expected]);
}

#[test]
fn append_to_an_unknown_artifact_is_an_invalid_agent_response() {
    let result = snapshot(vec![(artifact("missing", &["orphan chunk"]), Some(true))]);
    assert_eq!(result.unwrap_err().code, error_code::INVALID_AGENT_RESPONSE);
}

#[test]
fn an_orphan_chunk_has_nothing_to_be_appended_to() {
    assert_eq!(apply_artifact(vec![], &artifact("a", &["x"]), true), None);
    assert_eq!(
        apply_artifact(vec![], &artifact("a", &["x"]), false),
        Some(vec![artifact("a", &["x"])])
    );
}

#[test]
fn an_update_of_an_unknown_task_is_refused() {
    let mut store = InMemoryTaskStore::new();
    let event = StreamResponse::StatusUpdate(TaskStatusUpdateEvent {
        task_id: "ghost".to_string(),
        context_id: "c1".to_string(),
        status: TaskStatus {
            state: TaskState::Working,
            message: None,
            timestamp: None,
        },
        metadata: None,
    });
    let error = apply_event_to_task(&mut store, None, &event).unwrap_err();
    assert_eq!(error.code, error_code::TASK_NOT_FOUND);
}
