//! Task outcomes: which states end the waiting, and what is said about them.

use vstd::prelude::*;

use crate::protocol::{
    SendMessageResponse, StreamResponse, StreamResponseView, Task, TaskState, TaskView,
};

verus! {

/// Whether a task in `state` needs no more waiting: it ended, or it waits for
/// its caller.
pub open spec fn settled(state: TaskState) -> bool {
    state.terminal() || state == TaskState::InputRequired || state == TaskState::AuthRequired
}

/// Whether a task in `state` needs no more waiting.
pub fn is_settled(state: &TaskState) -> (r: bool)
    ensures
        r == settled(*state),
{
    state.is_terminal() || *state == TaskState::InputRequired || *state == TaskState::AuthRequired
}

/// What is said about a task that did not succeed or that is paused. A task
/// that was canceled ended as its caller asked.
pub open spec fn outcome_note(state: TaskState) -> Option<Seq<char>> {
    match state {
        TaskState::Failed => Some("the agent reported it FAILED"@),
        TaskState::Rejected => Some("the agent REJECTED it"@),
        TaskState::InputRequired => Some(
            "it is paused at INPUT_REQUIRED and needs a reply to continue"@,
        ),
        TaskState::AuthRequired => Some(
            "it is paused at AUTH_REQUIRED and needs credentials to continue"@,
        ),
        _ => None,
    }
}

/// What is said about a task that did not succeed or that is paused.
pub fn task_outcome_note(state: &TaskState) -> (r: Option<&'static str>)
    ensures
        r.deep_view() == outcome_note(*state),
{
    match state {
        TaskState::Failed => Some("the agent reported it FAILED"),
        TaskState::Rejected => Some("the agent REJECTED it"),
        TaskState::InputRequired => Some(
            "it is paused at INPUT_REQUIRED and needs a reply to continue",
        ),
        TaskState::AuthRequired => Some(
            "it is paused at AUTH_REQUIRED and needs credentials to continue",
        ),
        _ => None,
    }
}

/// The warning about the outcome of a task.
pub open spec fn task_warning(task_id: Seq<char>, state: TaskState) -> Option<Seq<char>> {
    match outcome_note(state) {
        Some(note) => Some("task "@ + task_id + ": "@ + note),
        None => None,
    }
}

/// The warning about the outcome of a task.
pub fn warn_task_outcome(task_id: &str, state: &TaskState) -> (r: Option<String>)
    ensures
        r.deep_view() == task_warning(task_id@, *state),
{
    match task_outcome_note(state) {
        Some(note) => {
            let mut out = "task ".to_string();
            out.append(task_id);
            out.append(": ");
            out.append(note);
            Some(out)
        },
        None => None,
    }
}

/// What is reported and may carry the outcome of a task.
pub trait TaskOutcome {
    /// The warning about the outcome.
    spec fn outcome(&self) -> Option<Seq<char>>;

    /// The warning about the outcome.
    fn warn_outcome(&self) -> (r: Option<String>)
        ensures
            r.deep_view() == self.outcome(),
    ;
}

impl TaskOutcome for Task {
    open spec fn outcome(&self) -> Option<Seq<char>> {
        task_warning(self.id@, self.status.state)
    }

    fn warn_outcome(&self) -> (r: Option<String>) {
        warn_task_outcome(self.id.as_str(), &self.status.state)
    }
}

impl TaskOutcome for SendMessageResponse {
    open spec fn outcome(&self) -> Option<Seq<char>> {
        match self {
            SendMessageResponse::Task(task) => task.outcome(),
            SendMessageResponse::Message(_) => None,
        }
    }

    fn warn_outcome(&self) -> (r: Option<String>) {
        match self {
            SendMessageResponse::Task(task) => task.warn_outcome(),
            SendMessageResponse::Message(_) => None,
        }
    }
}

impl TaskOutcome for StreamResponse {
    open spec fn outcome(&self) -> Option<Seq<char>> {
        match self {
            StreamResponse::Task(task) => task.outcome(),
            StreamResponse::StatusUpdate(event) => task_warning(event.task_id@, event.status.state),
            StreamResponse::Message(_) => None,
            StreamResponse::ArtifactUpdate(_) => None,
        }
    }

    fn warn_outcome(&self) -> (r: Option<String>) {
        match self {
            StreamResponse::Task(task) => task.warn_outcome(),
            StreamResponse::StatusUpdate(event) => warn_task_outcome(
                event.task_id.as_str(),
                &event.status.state,
            ),
            StreamResponse::Message(_) => None,
            StreamResponse::ArtifactUpdate(_) => None,
        }
    }
}

/// The task state that an event carries, if it carries one.
pub open spec fn carried_state(event: StreamResponseView) -> Option<TaskState> {
    match event {
        StreamResponseView::Task(task) => Some(task.status.state),
        StreamResponseView::StatusUpdate(event) => Some(event.status.state),
        StreamResponseView::Message(_) => None,
        StreamResponseView::ArtifactUpdate(_) => None,
    }
}

/// The task state that an event carries, if it carries one.
pub fn stream_response_state(value: &StreamResponse) -> (r: Option<TaskState>)
    ensures
        r == carried_state(value.deep_view()),
{
    match value {
        StreamResponse::Task(task) => Some(task.status.state),
        StreamResponse::StatusUpdate(event) => Some(event.status.state),
        StreamResponse::Message(_) => None,
        StreamResponse::ArtifactUpdate(_) => None,
    }
}

/// A task that needs no more waiting either succeeded, was canceled, or is
/// warned about; one that is warned about needs no more waiting.
pub proof fn every_other_ending_is_warned_about(task: TaskView)
    ensures
        settled(task.status.state) <==> {
            ||| task.status.state == TaskState::Completed
            ||| task.status.state == TaskState::Canceled
            ||| task_warning(task.id, task.status.state) is Some
        },
{
}

/// A task needs no more waiting exactly where it was completed, failed,
/// canceled or rejected, or where it needs input or authentication.
pub proof fn settled_states_are_these(state: TaskState)
    ensures
        settled(state) <==> {
            ||| state == TaskState::Completed
            ||| state == TaskState::Failed
            ||| state == TaskState::Canceled
            ||| state == TaskState::Rejected
            ||| state == TaskState::InputRequired
            ||| state == TaskState::AuthRequired
        },
{
}

/// A task is warned about exactly where it failed, was rejected, or needs
/// input or authentication; the warning names the task, and says something
/// else for each of these states.
pub proof fn warnings_name_the_task(task_id: Seq<char>, state: TaskState, other: TaskState)
    ensures
        task_warning(task_id, state) is Some <==> {
            ||| state == TaskState::Failed
            ||| state == TaskState::Rejected
            ||| state == TaskState::InputRequired
            ||| state == TaskState::AuthRequired
        },
        task_warning(task_id, state) matches Some(warning) ==> ("task "@ + task_id
            + ": "@).is_prefix_of(warning),
        outcome_note(state) is Some && outcome_note(state) == outcome_note(other) ==> state
            == other,
{
    reveal_strlit("the agent reported it FAILED");
    reveal_strlit("the agent REJECTED it");
    reveal_strlit("it is paused at INPUT_REQUIRED and needs a reply to continue");
    reveal_strlit("it is paused at AUTH_REQUIRED and needs credentials to continue");
    assert("the agent reported it FAILED"@.len() == 28);
    assert("the agent REJECTED it"@.len() == 21);
    assert("it is paused at INPUT_REQUIRED and needs a reply to continue"@.len() == 60);
    assert("it is paused at AUTH_REQUIRED and needs credentials to continue"@.len() == 63);
    if outcome_note(state) is Some {
        let lead = "task "@ + task_id + ": "@;
        let warning = task_warning(task_id, state)->0;
        assert(warning.subrange(0, lead.len() as int) =~= lead);
    }
}

/// What is reported of an answer or an event is the outcome of the task that
/// it is or that it updates, under that task's identifier; messages and
/// artifacts report none.
pub proof fn outcomes_are_those_of_the_task(
    response: SendMessageResponse,
    event: StreamResponse,
)
    ensures
        match response {
            SendMessageResponse::Task(task) => response.outcome() == task_warning(
                task.id@,
                task.status.state,
            ),
            SendMessageResponse::Message(_) => response.outcome() is None,
        },
        match event {
            StreamResponse::Task(task) => event.outcome() == task_warning(
                task.id@,
                task.status.state,
            ) && carried_state(event.deep_view()) == Some(task.status.state),
            StreamResponse::StatusUpdate(update) => event.outcome() == task_warning(
                update.task_id@,
                update.status.state,
            ) && carried_state(event.deep_view()) == Some(update.status.state),
            _ => event.outcome() is None && carried_state(event.deep_view()) is None,
        },
{
}

} // verus!
