//! What the events of an execution mean, and what they do to a stored task.

use vstd::prelude::*;

use crate::artifacts;
use crate::error_code;
use crate::json;
use crate::protocol::{
    A2AError, A2AErrorView, ArtifactView, SendMessageRequest, SendMessageRequestView,
    StreamResponse, StreamResponseView, Task, TaskArtifactUpdateEvent,
    TaskArtifactUpdateEventView, TaskState, TaskStatusUpdateEvent, TaskStatusUpdateEventView,
    TaskView,
};
use crate::task_store;
use crate::task_store::{InMemoryTaskStore, StoredTaskView, TaskVersion};

verus! {

/// Whether no event follows this one: it reports a terminal state.
pub open spec fn is_final(event: StreamResponseView) -> bool {
    match event {
        StreamResponseView::Task(task) => task.status.state.terminal(),
        StreamResponseView::StatusUpdate(update) => update.status.state.terminal(),
        _ => false,
    }
}

/// The task an event is about; a message is about none.
pub open spec fn event_task(event: StreamResponseView) -> Option<Seq<char>> {
    match event {
        StreamResponseView::Task(task) => Some(task.id),
        StreamResponseView::StatusUpdate(update) => Some(update.task_id),
        StreamResponseView::ArtifactUpdate(update) => Some(update.task_id),
        StreamResponseView::Message(_) => None,
    }
}

/// Whether `event` reports a terminal state.
pub fn is_terminal_event(event: &StreamResponse) -> (r: bool)
    ensures
        r == is_final(event.deep_view()),
{
    match event {
        StreamResponse::Task(task) => task.status.state.is_terminal(),
        StreamResponse::StatusUpdate(update) => update.status.state.is_terminal(),
        _ => false,
    }
}

/// The identifier of the task that `event` is about.
pub fn task_id_for_event(event: &StreamResponse) -> (r: Option<&String>)
    ensures
        r.deep_view() == event_task(event.deep_view()),
{
    match event {
        StreamResponse::Task(task) => Some(&task.id),
        StreamResponse::StatusUpdate(update) => Some(&update.task_id),
        StreamResponse::ArtifactUpdate(update) => Some(&update.task_id),
        StreamResponse::Message(_) => None,
    }
}

/// Whether the caller asked not to be kept waiting.
pub open spec fn wants_no_wait(req: SendMessageRequestView) -> bool {
    req.configuration matches Some(configuration) && configuration.return_immediately == Some(true)
}

/// The task to answer a blocking send with as soon as `event` arrives: any
/// task event for a caller that does not wait, and one that needs
/// authentication for every caller.
pub open spec fn interruption(
    req: SendMessageRequestView,
    event: StreamResponseView,
) -> Option<Seq<char>> {
    if wants_no_wait(req) {
        event_task(event)
    } else {
        match event {
            StreamResponseView::Task(task) => if task.status.state == TaskState::AuthRequired {
                Some(task.id)
            } else {
                None
            },
            StreamResponseView::StatusUpdate(update) => if update.status.state
                == TaskState::AuthRequired {
                Some(update.task_id)
            } else {
                None
            },
            _ => None,
        }
    }
}

/// The task that a blocking send is answered with when `event` arrives, if
/// the event cuts the wait short.
pub fn should_interrupt_non_streaming(req: &SendMessageRequest, event: &StreamResponse) -> (r:
    Option<String>)
    ensures
        r.deep_view() == interruption(req.deep_view(), event.deep_view()),
{
    let immediately = match &req.configuration {
        Some(configuration) => match configuration.return_immediately {
            Some(flag) => flag,
            None => false,
        },
        None => false,
    };
    if immediately {
        return match task_id_for_event(event) {
            Some(id) => Some(id.clone()),
            None => None,
        };
    }
    match event {
        StreamResponse::Task(task) => {
            if task.status.state == TaskState::AuthRequired {
                Some(task.id.clone())
            } else {
                None
            }
        },
        StreamResponse::StatusUpdate(update) => {
            if update.status.state == TaskState::AuthRequired {
                Some(update.task_id.clone())
            } else {
                None
            }
        },
        _ => None,
    }
}

/// The error that a chunk continues an artifact that was never started.
pub open spec fn orphan_chunk(artifact_id: Seq<char>) -> A2AErrorView {
    A2AErrorView {
        code: error_code::INVALID_AGENT_RESPONSE,
        message: "append to unknown artifact: "@ + artifact_id,
    }
}

/// `task` after an artifact update.
pub open spec fn with_artifact_update(
    task: TaskView,
    update: TaskArtifactUpdateEventView,
) -> Result<TaskView, A2AErrorView> {
    let held = match task.artifacts {
        Some(artifacts) => artifacts,
        None => Seq::empty(),
    };
    match artifacts::with_artifact(held, update.artifact, update.append == Some(true)) {
        Some(artifacts) => Ok(TaskView { artifacts: Some(artifacts), ..task }),
        None => Err(orphan_chunk(update.artifact.artifact_id)),
    }
}

/// An event that changes a task without replacing it.
pub enum TaskUpdate {
    Status(TaskStatusUpdateEvent),
    Artifact(TaskArtifactUpdateEvent),
}

/// What a [`TaskUpdate`] stands for.
pub enum TaskUpdateView {
    Status(TaskStatusUpdateEventView),
    Artifact(TaskArtifactUpdateEventView),
}

impl DeepView for TaskUpdate {
    type V = TaskUpdateView;

    open spec fn deep_view(&self) -> TaskUpdateView {
        match self {
            TaskUpdate::Status(update) => TaskUpdateView::Status(update.deep_view()),
            TaskUpdate::Artifact(update) => TaskUpdateView::Artifact(update.deep_view()),
        }
    }
}

impl TaskUpdateView {
    /// The task that the update is about.
    pub open spec fn task_id(self) -> Seq<char> {
        match self {
            TaskUpdateView::Status(update) => update.task_id,
            TaskUpdateView::Artifact(update) => update.task_id,
        }
    }
}

impl TaskUpdate {
    /// The identifier of the task that the update is about.
    pub fn task_id(&self) -> (r: &String)
        ensures
            r@ == self.deep_view().task_id(),
    {
        match self {
            TaskUpdate::Status(update) => &update.task_id,
            TaskUpdate::Artifact(update) => &update.task_id,
        }
    }
}

/// `task` after `update`.
pub open spec fn updated_task(task: TaskView, update: TaskUpdateView) -> Result<
    TaskView,
    A2AErrorView,
> {
    match update {
        TaskUpdateView::Status(update) => Ok(TaskView { status: update.status, ..task }),
        TaskUpdateView::Artifact(update) => with_artifact_update(task, update),
    }
}

fn apply_artifact_update(task: Task, update: &TaskArtifactUpdateEvent) -> (r: Result<
    Task,
    A2AError,
>)
    ensures
        match r {
            Ok(after) => with_artifact_update(task.deep_view(), update.deep_view()) == Ok::<
                TaskView,
                A2AErrorView,
            >(after.deep_view()),
            Err(error) => with_artifact_update(task.deep_view(), update.deep_view()) == Err::<
                TaskView,
                A2AErrorView,
            >(error.deep_view()),
        },
{
    let mut task = task;
    let held = match task.artifacts.take() {
        Some(artifacts) => artifacts,
        None => Vec::new(),
    };
    assert(task.artifacts is None);
    let append = match update.append {
        Some(flag) => flag,
        None => false,
    };
    proof {
        if held@.len() == 0 {
            assert(held.deep_view() =~= Seq::empty());
        }
    }
    match artifacts::apply_artifact(held, &update.artifact, append) {
        Some(artifacts) => {
            task.artifacts = Some(artifacts);
            Ok(task)
        },
        None => {
            let mut message = "append to unknown artifact: ".to_string();
            message.append(update.artifact.artifact_id.as_str());
            Err(A2AError::new(error_code::INVALID_AGENT_RESPONSE, message))
        },
    }
}

/// What an event asks of the stored tasks.
pub enum Change {
    /// Write `task`: over the stored one, or as a new one.
    Save { task: Task },
    /// Nothing; `last` is the task as last seen.
    Keep { last: Option<Task> },
    /// The event cannot be applied.
    Refuse { error: A2AError },
}

/// What a [`Change`] stands for.
pub enum ChangeView {
    Save { task: TaskView },
    Keep { last: Option<TaskView> },
    Refuse { error: A2AErrorView },
}

impl DeepView for Change {
    type V = ChangeView;

    open spec fn deep_view(&self) -> ChangeView {
        match self {
            Change::Save { task } => ChangeView::Save { task: task.deep_view() },
            Change::Keep { last } => ChangeView::Keep { last: last.deep_view() },
            Change::Refuse { error } => ChangeView::Refuse { error: error.deep_view() },
        }
    }
}

/// The start of applying an event.
pub enum Applying {
    /// Read the task that `update` is about first.
    Lookup { update: TaskUpdate },
    /// The change is known at once.
    Ready { change: Change },
}

/// What an [`Applying`] stands for.
pub enum ApplyingView {
    Lookup { update: TaskUpdateView },
    Ready { change: ChangeView },
}

impl DeepView for Applying {
    type V = ApplyingView;

    open spec fn deep_view(&self) -> ApplyingView {
        match self {
            Applying::Lookup { update } => ApplyingView::Lookup { update: update.deep_view() },
            Applying::Ready { change } => ApplyingView::Ready { change: change.deep_view() },
        }
    }
}

/// How applying `event` starts: a task is saved as it is, an update needs the
/// task it is about, and a message changes no task.
pub open spec fn apply_start(
    current: Option<TaskView>,
    event: StreamResponseView,
) -> ApplyingView {
    match event {
        StreamResponseView::Task(task) => ApplyingView::Ready {
            change: ChangeView::Save { task },
        },
        StreamResponseView::StatusUpdate(update) => ApplyingView::Lookup {
            update: TaskUpdateView::Status(update),
        },
        StreamResponseView::ArtifactUpdate(update) => ApplyingView::Lookup {
            update: TaskUpdateView::Artifact(update),
        },
        StreamResponseView::Message(_) => ApplyingView::Ready {
            change: ChangeView::Keep { last: current },
        },
    }
}

/// Starts applying `event`, with `current` the task as last seen.
pub fn start_applying(current: &Option<Task>, event: &StreamResponse) -> (r: Applying)
    ensures
        r.deep_view() == apply_start(current.deep_view(), event.deep_view()),
{
    match event {
        StreamResponse::Task(task) => Applying::Ready {
            change: Change::Save { task: task.clone() },
        },
        StreamResponse::StatusUpdate(update) => Applying::Lookup {
            update: TaskUpdate::Status(update.clone()),
        },
        StreamResponse::ArtifactUpdate(update) => Applying::Lookup {
            update: TaskUpdate::Artifact(update.clone()),
        },
        StreamResponse::Message(_) => Applying::Ready {
            change: Change::Keep {
                last: match current {
                    Some(task) => Some(task.clone()),
                    None => None,
                },
            },
        },
    }
}

/// The task an update starts from: the one last seen, else the stored one.
pub open spec fn base_task(current: Option<TaskView>, found: Option<TaskView>) -> Option<
    TaskView,
> {
    match current {
        Some(task) => Some(task),
        None => found,
    }
}

/// How applying `update` goes on once the store was read.
pub open spec fn apply_found(
    current: Option<TaskView>,
    update: TaskUpdateView,
    found: Result<Option<TaskView>, A2AErrorView>,
) -> ChangeView {
    match found {
        Err(error) => ChangeView::Refuse { error },
        Ok(found) => match base_task(current, found) {
            Some(task) => match updated_task(task, update) {
                Ok(task) => ChangeView::Save { task },
                Err(error) => ChangeView::Refuse { error },
            },
            None => ChangeView::Refuse { error: error_code::not_found(update.task_id()) },
        },
    }
}

/// What a fallible read stands for.
pub open spec fn read_view(found: Result<Option<Task>, A2AError>) -> Result<
    Option<TaskView>,
    A2AErrorView,
> {
    match found {
        Ok(task) => Ok(task.deep_view()),
        Err(error) => Err(error.deep_view()),
    }
}

/// Goes on applying `update` with what the store gave back.
pub fn resume_applying(
    current: Option<Task>,
    update: &TaskUpdate,
    found: Result<Option<Task>, A2AError>,
) -> (r: Change)
    ensures
        r.deep_view() == apply_found(current.deep_view(), update.deep_view(), read_view(found)),
{
    let found = match found {
        Ok(found) => found,
        Err(error) => {
            return Change::Refuse { error };
        },
    };
    let known = match current {
        Some(task) => Some(task),
        None => found,
    };
    match known {
        Some(task) => match update {
            TaskUpdate::Status(update) => {
                let mut task = task;
                task.status = update.status.clone();
                Change::Save { task }
            },
            TaskUpdate::Artifact(update) => match apply_artifact_update(task, update) {
                Ok(task) => Change::Save { task },
                Err(error) => Change::Refuse { error },
            },
        },
        None => Change::Refuse { error: A2AError::task_not_found(update.task_id().as_str()) },
    }
}

/// What follows an attempt to overwrite a stored task.
pub enum Saved {
    /// The write stands.
    Done,
    /// There was nothing to overwrite: create the task instead.
    Create,
    /// The write failed.
    Failed { error: A2AError },
}

/// Decides what an attempt to overwrite a stored task leads to: a task that
/// is not stored yet is created.
pub fn after_save(written: Result<TaskVersion, A2AError>) -> (r: Saved)
    ensures
        match written {
            Ok(_) => r is Done,
            Err(error) => if error.code == error_code::TASK_NOT_FOUND {
                r is Create
            } else {
                r matches Saved::Failed { error: e } && e == error
            },
        },
{
    match written {
        Ok(_) => Saved::Done,
        Err(error) => if error.code == error_code::TASK_NOT_FOUND {
            Saved::Create
        } else {
            Saved::Failed { error }
        },
    }
}

/// The outcome of saving `task`: the store after it, and the error if it is
/// refused.
pub open spec fn save_outcome(
    stored: Map<Seq<char>, StoredTaskView>,
    task: TaskView,
) -> (Map<Seq<char>, StoredTaskView>, Option<A2AErrorView>) {
    if !stored.contains_key(task.id) {
        (task_store::after_create(stored, task), None)
    } else if task_store::update_granted(stored, task) {
        (task_store::after_update(stored, task), None)
    } else {
        (stored, Some(task_store::frozen_error(stored[task.id].task, task)))
    }
}

/// What is stored under `id`.
pub open spec fn stored_task(
    stored: Map<Seq<char>, StoredTaskView>,
    id: Seq<char>,
) -> Option<TaskView> {
    if stored.contains_key(id) {
        Some(stored[id].task)
    } else {
        None
    }
}

/// What applying `event` to a store asks for.
pub open spec fn event_change(
    stored: Map<Seq<char>, StoredTaskView>,
    current: Option<TaskView>,
    event: StreamResponseView,
) -> ChangeView {
    match apply_start(current, event) {
        ApplyingView::Lookup { update } => apply_found(
            current,
            update,
            Ok(stored_task(stored, update.task_id())),
        ),
        ApplyingView::Ready { change } => change,
    }
}

/// What applying `event` to a store leads to: the store after it, and the
/// task it left or the error that stopped it.
pub open spec fn event_outcome(
    stored: Map<Seq<char>, StoredTaskView>,
    current: Option<TaskView>,
    event: StreamResponseView,
) -> (Map<Seq<char>, StoredTaskView>, Result<Option<TaskView>, A2AErrorView>) {
    match event_change(stored, current, event) {
        ChangeView::Save { task } => match save_outcome(stored, task) {
            (after, None) => (after, Ok(Some(task))),
            (after, Some(error)) => (after, Err(error)),
        },
        ChangeView::Keep { last } => (stored, Ok(last)),
        ChangeView::Refuse { error } => (stored, Err(error)),
    }
}

/// Saves `task`: over the stored one, or as a new one.
pub fn save_task(store: &mut InMemoryTaskStore, task: Task) -> (r: Result<Task, A2AError>)
    requires
        task_store::update_granted(old(store)@, task.deep_view()) ==> old(
            store,
        )@[task.id@].version < u64::MAX,
    ensures
        ({
            let (after, error) = save_outcome(old(store)@, task.deep_view());
            &&& final(store)@ == after
            &&& match r {
                Ok(saved) => error is None && saved.deep_view() == task.deep_view(),
                Err(e) => error == Some(e.deep_view()),
            }
        }),
{
    let copy = task.clone();
    match after_save(store.update(copy)) {
        Saved::Done => Ok(task),
        Saved::Create => {
            let copy = task.clone();
            match store.create(copy) {
                Ok(_) => Ok(task),
                Err(error) => Err(error),
            }
        },
        Saved::Failed { error } => Err(error),
    }
}

/// Applies `event` to the stored task it is about, with `current` the task as
/// last seen, and gives back the task it left.
pub fn apply_event_to_task(
    store: &mut InMemoryTaskStore,
    current: Option<Task>,
    event: &StreamResponse,
) -> (r: Result<Option<Task>, A2AError>)
    requires
        event_change(old(store)@, current.deep_view(), event.deep_view()) matches ChangeView::Save {
            task,
        } ==> (task_store::update_granted(old(store)@, task) ==> old(store)@[task.id].version
            < u64::MAX),
    ensures
        ({
            let (after, outcome) = event_outcome(
                old(store)@,
                current.deep_view(),
                event.deep_view(),
            );
            &&& final(store)@ == after
            &&& outcome == read_view(r)
        }),
{
    let change = match start_applying(&current, event) {
        Applying::Lookup { update } => {
            let found = store.get(update.task_id().as_str());
            resume_applying(current, &update, found)
        },
        Applying::Ready { change } => change,
    };
    match change {
        Change::Save { task } => match save_task(store, task) {
            Ok(task) => Ok(Some(task)),
            Err(error) => Err(error),
        },
        Change::Keep { last } => Ok(last),
        Change::Refuse { error } => Err(error),
    }
}

/// Whether two stores hold the same under every identifier but `id`.
pub open spec fn agree_elsewhere(
    a: Map<Seq<char>, StoredTaskView>,
    b: Map<Seq<char>, StoredTaskView>,
    id: Seq<char>,
) -> bool {
    forall|other: Seq<char>| #![trigger a.contains_key(other)] #![trigger b.contains_key(other)]
        other != id ==> {
            &&& a.contains_key(other) <==> b.contains_key(other)
            &&& a.contains_key(other) ==> a[other] == b[other]
        }
}

/// A status update gives its task the status that it carries and changes
/// nothing else of it: the identifier, the context, the artifacts, the history
/// and the metadata stay. The stored task is that task afterwards, and every
/// other stored task is as it was. Only a task that has ended in another state
/// refuses the update, and nothing is stored in that case.
pub proof fn status_updates_change_only_the_status(
    stored: Map<Seq<char>, StoredTaskView>,
    current: Option<TaskView>,
    update: TaskStatusUpdateEventView,
    before: TaskView,
)
    requires
        current == Some(before) || (current is None && stored.contains_key(update.task_id)
            && stored[update.task_id].task == before),
    ensures
        ({
            let (after, outcome) = event_outcome(
                stored,
                current,
                StreamResponseView::StatusUpdate(update),
            );
            let ended = stored.contains_key(before.id)
                && stored[before.id].task.status.state.terminal()
                && stored[before.id].task.status.state != update.status.state;
            if ended {
                &&& after == stored
                &&& outcome matches Err(error) && error.code == error_code::INVALID_REQUEST
            } else {
                &&& outcome matches Ok(Some(task)) && {
                    &&& task.id == before.id
                    &&& task.context_id == before.context_id
                    &&& task.status == update.status
                    &&& task.artifacts == before.artifacts
                    &&& task.history == before.history
                    &&& task.metadata == before.metadata
                }
                &&& after.contains_key(before.id)
                &&& after[before.id].task.id == before.id
                &&& after[before.id].task.context_id == before.context_id
                &&& after[before.id].task.status == update.status
                &&& after[before.id].task.artifacts == before.artifacts
                &&& after[before.id].task.history == before.history
                &&& after[before.id].task.metadata == before.metadata
                &&& agree_elsewhere(stored, after, before.id)
            }
        }),
{
}

/// An artifact update changes the artifacts of its task and nothing else: the
/// identifier, the context, the status, the history and the metadata stay. The
/// stored task is that task afterwards, and every other stored task is as it
/// was.
pub proof fn artifact_updates_change_only_the_artifacts(
    stored: Map<Seq<char>, StoredTaskView>,
    current: Option<TaskView>,
    update: TaskArtifactUpdateEventView,
    before: TaskView,
)
    requires
        current == Some(before) || (current is None && stored.contains_key(update.task_id)
            && stored[update.task_id].task == before),
    ensures
        ({
            let (after, outcome) = event_outcome(
                stored,
                current,
                StreamResponseView::ArtifactUpdate(update),
            );
            match outcome {
                Ok(left) => {
                    &&& left matches Some(task) && {
                        &&& task.id == before.id
                        &&& task.context_id == before.context_id
                        &&& task.status == before.status
                        &&& task.history == before.history
                        &&& task.metadata == before.metadata
                        &&& task.artifacts is Some
                        &&& after.contains_key(before.id)
                        &&& after[before.id].task == task
                    }
                    &&& agree_elsewhere(stored, after, before.id)
                },
                Err(_) => after == stored,
            }
        }),
{
}

/// An artifact that is not sent as the continuation of another is in the task
/// afterwards exactly as it was sent, and every artifact with another
/// identifier is there as it was, at its place.
pub proof fn sent_artifacts_are_stored(
    stored: Map<Seq<char>, StoredTaskView>,
    current: Option<TaskView>,
    update: TaskArtifactUpdateEventView,
    before: TaskView,
)
    requires
        current == Some(before) || (current is None && stored.contains_key(update.task_id)
            && stored[update.task_id].task == before),
        update.append != Some(true),
        !(stored.contains_key(before.id) && stored[before.id].task.status.state.terminal()
            && stored[before.id].task.status.state != before.status.state),
    ensures
        event_outcome(stored, current, StreamResponseView::ArtifactUpdate(update)).1 matches Ok(
            Some(task),
        ) && task.artifacts matches Some(artifacts) && {
            &&& artifacts.contains(update.artifact)
            &&& before.artifacts matches Some(held) ==> {
                &&& forall|i: int|
                    0 <= i < held.len() && (#[trigger] held[i]).artifact_id
                        != update.artifact.artifact_id ==> i < artifacts.len() && artifacts[i]
                        == held[i]
                &&& artifacts.len() == held.len() || artifacts.len() == held.len() + 1
                &&& artifacts.len() == held.len() <==> exists|i: int|
                    0 <= i < held.len() && (#[trigger] held[i]).artifact_id
                        == update.artifact.artifact_id
            }
            &&& before.artifacts is None ==> artifacts == seq![update.artifact]
        },
{
    let held = match before.artifacts {
        Some(artifacts) => artifacts,
        None => Seq::empty(),
    };
    artifacts::lemma_artifact_index_bounds(held, update.artifact.artifact_id);
    let after = artifacts::with_artifact(held, update.artifact, false)->0;
    match artifacts::artifact_index(held, update.artifact.artifact_id) {
        Some(i) => {
            assert(after[i] == update.artifact);
        },
        None => {
            assert(after[held.len() as int] == update.artifact);
        },
    }
    if before.artifacts is None {
        assert(after =~= seq![update.artifact]);
    }
}

/// A chunk that continues an artifact that the task has not is an error, and
/// nothing is stored.
pub proof fn orphan_chunks_are_refused(
    stored: Map<Seq<char>, StoredTaskView>,
    current: Option<TaskView>,
    update: TaskArtifactUpdateEventView,
    before: TaskView,
)
    requires
        current == Some(before) || (current is None && stored.contains_key(update.task_id)
            && stored[update.task_id].task == before),
        update.append == Some(true),
        before.artifacts matches Some(held) ==> forall|i: int|
            0 <= i < held.len() ==> (#[trigger] held[i]).artifact_id
                != update.artifact.artifact_id,
    ensures
        ({
            let (after, outcome) = event_outcome(
                stored,
                current,
                StreamResponseView::ArtifactUpdate(update),
            );
            &&& after == stored
            &&& outcome matches Err(error) && error.code == error_code::INVALID_AGENT_RESPONSE
                && error.message == "append to unknown artifact: "@ + update.artifact.artifact_id
        }),
{
    let held = match before.artifacts {
        Some(artifacts) => artifacts,
        None => Seq::empty(),
    };
    artifacts::lemma_artifact_index_at(held, update.artifact.artifact_id, held.len() as int);
}

/// A chunk that continues an artifact of the task adds its parts behind the
/// artifact's own and changes neither its name, its description nor its
/// extensions; the other artifacts stay as they were.
pub proof fn chunks_continue_the_artifact(
    stored: Map<Seq<char>, StoredTaskView>,
    current: Option<TaskView>,
    update: TaskArtifactUpdateEventView,
    before: TaskView,
    held: Seq<ArtifactView>,
    at: int,
)
    requires
        current == Some(before) || (current is None && stored.contains_key(update.task_id)
            && stored[update.task_id].task == before),
        update.append == Some(true),
        !(stored.contains_key(before.id) && stored[before.id].task.status.state.terminal()
            && stored[before.id].task.status.state != before.status.state),
        before.artifacts == Some(held),
        0 <= at < held.len(),
        held[at].artifact_id == update.artifact.artifact_id,
        forall|i: int|
            0 <= i < at ==> (#[trigger] held[i]).artifact_id != update.artifact.artifact_id,
    ensures
        event_outcome(stored, current, StreamResponseView::ArtifactUpdate(update)).1 matches Ok(
            Some(task),
        ) && task.artifacts matches Some(artifacts) && {
            &&& artifacts.len() == held.len()
            &&& forall|i: int| 0 <= i < held.len() && i != at ==> #[trigger] artifacts[i] == held[i]
            &&& artifacts[at].artifact_id == held[at].artifact_id
            &&& artifacts[at].name == held[at].name
            &&& artifacts[at].description == held[at].description
            &&& artifacts[at].extensions == held[at].extensions
            &&& artifacts[at].parts == held[at].parts + update.artifact.parts
        },
{
    artifacts::lemma_artifact_index_at(held, update.artifact.artifact_id, at);
}

/// The metadata of a chunk is added to that of the artifact that it continues:
/// a key of the chunk takes the value that the chunk gives it, and every other
/// key keeps its value.
pub proof fn chunks_add_their_metadata(
    artifact: ArtifactView,
    chunk: ArtifactView,
    key: Seq<char>,
)
    requires
        chunk.artifact_id == artifact.artifact_id,
    ensures
        artifacts::with_artifact(seq![artifact], chunk, true) matches Some(after) && {
            &&& after.len() == 1
            &&& chunk.metadata is None ==> after[0].metadata == artifact.metadata
            &&& artifact.metadata is None ==> after[0].metadata == chunk.metadata
            &&& artifact.metadata matches Some(base) ==> (chunk.metadata matches Some(over) ==> (
            after[0].metadata matches Some(merged) && {
                &&& (forall|i: int| 0 <= i < over.len() ==> (#[trigger] over[i]).0 != key)
                    ==> json::member(merged, key) == json::member(base, key)
                &&& forall|i: int|
                    0 <= i < over.len() && (#[trigger] over[i]).0 == key && (forall|j: int|
                        i < j < over.len() ==> (#[trigger] over[j]).0 != key) ==> json::member(
                        merged,
                        key,
                    ) == Some(over[i].1)
            }))
        },
{
    artifacts::lemma_artifact_index_at(seq![artifact], chunk.artifact_id, 0);
    match (artifact.metadata, chunk.metadata) {
        (Some(base), Some(over)) => {
            json::merged_members_prefer_the_newer(base, over, key);
        },
        _ => {},
    }
}

/// A task event stores the task exactly as it came, new or over the stored
/// one, and every other stored task is as it was. Only a task that has ended
/// in another state is not overwritten.
pub proof fn task_events_store_the_task(
    stored: Map<Seq<char>, StoredTaskView>,
    current: Option<TaskView>,
    task: TaskView,
)
    ensures
        ({
            let (after, outcome) = event_outcome(stored, current, StreamResponseView::Task(task));
            let ended = stored.contains_key(task.id)
                && stored[task.id].task.status.state.terminal()
                && stored[task.id].task.status.state != task.status.state;
            if ended {
                &&& after == stored
                &&& outcome matches Err(error) && error.code == error_code::INVALID_REQUEST
            } else {
                &&& outcome == Ok::<Option<TaskView>, A2AErrorView>(Some(task))
                &&& after.contains_key(task.id)
                &&& after[task.id].task == task
                &&& agree_elsewhere(stored, after, task.id)
            }
        }),
{
}

/// A message changes no task, and leaves the task as last seen.
pub proof fn messages_change_no_task(
    stored: Map<Seq<char>, StoredTaskView>,
    current: Option<TaskView>,
    event: StreamResponseView,
)
    requires
        event is Message,
    ensures
        event_outcome(stored, current, event).0 == stored,
        event_outcome(stored, current, event).1 == Ok::<Option<TaskView>, A2AErrorView>(current),
{
}

/// An update of a task that was neither seen before nor stored is an error
/// that names the task, and nothing is stored.
pub proof fn updates_need_their_task(
    stored: Map<Seq<char>, StoredTaskView>,
    status: TaskStatusUpdateEventView,
    artifact: TaskArtifactUpdateEventView,
)
    ensures
        !stored.contains_key(status.task_id) ==> {
            let (after, outcome) = event_outcome(
                stored,
                None,
                StreamResponseView::StatusUpdate(status),
            );
            &&& after == stored
            &&& outcome matches Err(error) && error.code == error_code::TASK_NOT_FOUND
                && error.message == "task not found: "@ + status.task_id
        },
        !stored.contains_key(artifact.task_id) ==> {
            let (after, outcome) = event_outcome(
                stored,
                None,
                StreamResponseView::ArtifactUpdate(artifact),
            );
            &&& after == stored
            &&& outcome matches Err(error) && error.code == error_code::TASK_NOT_FOUND
                && error.message == "task not found: "@ + artifact.task_id
        },
{
}

/// A blocking send is cut short by an event that is about a task, for a caller
/// that does not wait, and by a task that needs authentication, for every
/// caller; it is answered with the task that the event is about. Nothing else
/// cuts it short, and a message never does.
pub proof fn waits_are_cut_short_for_a_reason(
    req: SendMessageRequestView,
    event: StreamResponseView,
)
    ensures
        ({
            let hasty = req.configuration is Some && req.configuration->0.return_immediately
                == Some(true);
            match event {
                StreamResponseView::Task(task) => {
                    &&& interruption(req, event) is Some <==> hasty || task.status.state
                        == TaskState::AuthRequired
                    &&& interruption(req, event) matches Some(id) ==> id == task.id
                },
                StreamResponseView::StatusUpdate(update) => {
                    &&& interruption(req, event) is Some <==> hasty || update.status.state
                        == TaskState::AuthRequired
                    &&& interruption(req, event) matches Some(id) ==> id == update.task_id
                },
                StreamResponseView::ArtifactUpdate(update) => {
                    &&& interruption(req, event) is Some <==> hasty
                    &&& interruption(req, event) matches Some(id) ==> id == update.task_id
                },
                StreamResponseView::Message(_) => interruption(req, event) is None,
            }
        }),
{
}

/// An event is the last one exactly where it reports, as a task or as a status
/// update, that the task was completed, failed, canceled or rejected.
pub proof fn last_events_report_an_end(event: StreamResponseView)
    ensures
        is_final(event) <==> {
            let state = match event {
                StreamResponseView::Task(task) => Some(task.status.state),
                StreamResponseView::StatusUpdate(update) => Some(update.status.state),
                _ => None,
            };
            ||| state == Some(TaskState::Completed)
            ||| state == Some(TaskState::Failed)
            ||| state == Some(TaskState::Canceled)
            ||| state == Some(TaskState::Rejected)
        },
{
}

/// What is saved for a status update, once the store was read, is the task with
/// the new status and everything else as it was: the task as last seen, or the
/// stored one where none was seen. A failed read is passed on, and a task that
/// is nowhere is not found.
pub proof fn resumed_updates_keep_the_rest_of_the_task(
    current: Option<Task>,
    update: TaskStatusUpdateEvent,
    found: Result<Option<Task>, A2AError>,
    r: Change,
)
    requires
        call_ensures(resume_applying, (current, &TaskUpdate::Status(update), found), r),
    ensures
        found matches Err(error) ==> (r matches Change::Refuse { error: told }
            && told.deep_view() == error.deep_view()),
        found matches Ok(stored) ==> {
            let base = if current is Some {
                current
            } else {
                stored
            };
            &&& base is None ==> (r matches Change::Refuse { error } && error.code
                == error_code::TASK_NOT_FOUND)
            &&& base matches Some(before) ==> (r matches Change::Save { task } && {
                &&& task.id@ == before.id@
                &&& task.context_id@ == before.context_id@
                &&& task.status.state == update.status.state
                &&& task.status.message.deep_view() == update.status.message.deep_view()
                &&& task.status.timestamp == update.status.timestamp
                &&& task.artifacts.deep_view() == before.artifacts.deep_view()
                &&& task.history.deep_view() == before.history.deep_view()
                &&& task.metadata.deep_view() == before.metadata.deep_view()
            })
        },
{
}

/// Applying a task saves it as it came; applying an update reads the task that
/// the update names; and applying a message keeps the task as last seen.
pub proof fn applying_starts_with_the_event(
    current: Option<Task>,
    event: StreamResponse,
    r: Applying,
)
    requires
        call_ensures(start_applying, (&current, &event), r),
    ensures
        match event {
            StreamResponse::Task(task) => r matches Applying::Ready {
                change: Change::Save { task: saved },
            } && saved.deep_view() == task.deep_view(),
            StreamResponse::StatusUpdate(update) => r matches Applying::Lookup { update: named }
                && named.deep_view().task_id() == update.task_id@,
            StreamResponse::ArtifactUpdate(update) => r matches Applying::Lookup { update: named }
                && named.deep_view().task_id() == update.task_id@,
            StreamResponse::Message(_) => r matches Applying::Ready {
                change: Change::Keep { last },
            } && last.deep_view() == current.deep_view(),
        },
{
}

} // verus!
