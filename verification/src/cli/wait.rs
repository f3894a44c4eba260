//! Waiting for a task: polling it until it settles or the time is over.

use vstd::prelude::*;

use crate::cli::error::{CliError, CliErrorView};
use crate::cli::outcome;
use crate::protocol::{
    A2AError, A2AErrorView, GetTaskRequest, GetTaskRequestView, SendMessageResponse,
    SendMessageResponseView, Task, TaskState, TaskView,
};
use crate::span::Span;

verus! {

/// Waiting for a task to settle.
#[derive(Debug, PartialEq, Eq)]
pub struct Waiting {
    pub task_id: String,
    pub tenant: Option<String>,
    pub poll_interval: Span,
    pub timeout: Span,
}

/// What a [`Waiting`] stands for.
#[verifier::ext_equal]
pub struct WaitingView {
    pub task_id: Seq<char>,
    pub tenant: Option<Seq<char>>,
    pub poll_interval: Span,
    pub timeout: Span,
}

impl DeepView for Waiting {
    type V = WaitingView;

    open spec fn deep_view(&self) -> WaitingView {
        WaitingView {
            task_id: self.task_id@,
            tenant: self.tenant.deep_view(),
            poll_interval: self.poll_interval,
            timeout: self.timeout,
        }
    }
}

/// What to do with a task that the agent answered with.
#[derive(Debug, PartialEq, Eq)]
pub enum Settling {
    /// It is the result.
    Done(Task),
    /// Its settling has to be waited for.
    Poll(Waiting),
}

/// What a [`Settling`] stands for.
#[verifier::ext_equal]
pub enum SettlingView {
    Done(TaskView),
    Poll(WaitingView),
}

impl DeepView for Settling {
    type V = SettlingView;

    open spec fn deep_view(&self) -> SettlingView {
        match self {
            Settling::Done(task) => SettlingView::Done(task.deep_view()),
            Settling::Poll(waiting) => SettlingView::Poll(waiting.deep_view()),
        }
    }
}

/// A task is waited for only where that was asked for and it has not settled.
pub open spec fn settling(
    task: TaskView,
    wait: bool,
    tenant: Option<Seq<char>>,
    poll_interval: Span,
    timeout: Span,
) -> SettlingView {
    if wait && !outcome::settled(task.status.state) {
        SettlingView::Poll(WaitingView { task_id: task.id, tenant, poll_interval, timeout })
    } else {
        SettlingView::Done(task)
    }
}

/// Decides whether a task has to be waited for.
pub fn settle_task(
    task: Task,
    wait: bool,
    tenant: Option<String>,
    poll_interval: Span,
    timeout: Span,
) -> (r: Settling)
    ensures
        r.deep_view() == settling(
            task.deep_view(),
            wait,
            tenant.deep_view(),
            poll_interval,
            timeout,
        ),
{
    if wait && !outcome::is_settled(&task.status.state) {
        Settling::Poll(Waiting { task_id: task.id, tenant, poll_interval, timeout })
    } else {
        Settling::Done(task)
    }
}

/// What to do after the agent was asked for the task.
#[derive(Debug, PartialEq, Eq)]
pub enum Polled {
    Settled(Task),
    Failed(CliError),
    /// Ask again after so long.
    Sleep(Span),
}

/// What a [`Polled`] stands for.
#[verifier::ext_equal]
pub enum PolledView {
    Settled(TaskView),
    Failed(CliErrorView),
    Sleep(Span),
}

impl DeepView for Polled {
    type V = PolledView;

    open spec fn deep_view(&self) -> PolledView {
        match self {
            Polled::Settled(task) => PolledView::Settled(task.deep_view()),
            Polled::Failed(error) => PolledView::Failed(error.deep_view()),
            Polled::Sleep(pause) => PolledView::Sleep(*pause),
        }
    }
}

/// What an answer stands for.
pub open spec fn task_answer(result: Result<Task, A2AError>) -> Result<TaskView, A2AErrorView> {
    match result {
        Ok(task) => Ok(task.deep_view()),
        Err(error) => Err(error.deep_view()),
    }
}

/// What to do after an answer that came when `elapsed` of the time was over.
pub open spec fn polled(
    waiting: WaitingView,
    answer: Result<TaskView, A2AErrorView>,
    elapsed: Span,
) -> PolledView {
    match answer {
        Err(error) => PolledView::Failed(CliErrorView::A2A(error)),
        Ok(task) => if outcome::settled(task.status.state) {
            PolledView::Settled(task)
        } else if elapsed.length() >= waiting.timeout.length() {
            PolledView::Failed(
                CliErrorView::Timeout { task_id: waiting.task_id, timeout: waiting.timeout },
            )
        } else {
            PolledView::Sleep(waiting.poll_interval.shorter(waiting.timeout.rest(elapsed)))
        },
    }
}

impl Waiting {
    /// The request that asks for the task.
    pub fn request(&self) -> (r: GetTaskRequest)
        ensures
            r.deep_view() == (GetTaskRequestView {
                id: self.task_id@,
                history_length: None,
                tenant: self.tenant.deep_view(),
            }),
    {
        GetTaskRequest {
            id: self.task_id.clone(),
            history_length: None,
            tenant: match &self.tenant {
                Some(tenant) => Some(tenant.clone()),
                None => None,
            },
        }
    }

    /// Decides how to go on after an answer that came when `elapsed` of the
    /// time was over.
    pub fn wait_for_task_settled(&self, result: Result<Task, A2AError>, elapsed: Span) -> (r:
        Polled)
        requires
            self.poll_interval.well_formed(),
            self.timeout.well_formed(),
            elapsed.well_formed(),
        ensures
            r.deep_view() == polled(self.deep_view(), task_answer(result), elapsed),
    {
        let task = match result {
            Ok(task) => task,
            Err(error) => {
                return Polled::Failed(CliError::A2A(error));
            },
        };
        if outcome::is_settled(&task.status.state) {
            return Polled::Settled(task);
        }
        if elapsed.at_least(self.timeout) {
            return Polled::Failed(
                CliError::Timeout { task_id: self.task_id.clone(), timeout: self.timeout },
            );
        }
        Polled::Sleep(self.poll_interval.min(self.timeout.saturating_sub(elapsed)))
    }
}

/// What to do after a message was sent.
#[derive(Debug, PartialEq, Eq)]
pub enum Sent {
    Failed(CliError),
    Done(SendMessageResponse),
    /// The task that it started has to be waited for.
    Poll(Waiting),
}

/// What a [`Sent`] stands for.
#[verifier::ext_equal]
pub enum SentView {
    Failed(CliErrorView),
    Done(SendMessageResponseView),
    Poll(WaitingView),
}

impl DeepView for Sent {
    type V = SentView;

    open spec fn deep_view(&self) -> SentView {
        match self {
            Sent::Failed(error) => SentView::Failed(error.deep_view()),
            Sent::Done(response) => SentView::Done(response.deep_view()),
            Sent::Poll(waiting) => SentView::Poll(waiting.deep_view()),
        }
    }
}

/// What an answer to a message stands for.
pub open spec fn message_answer(result: Result<SendMessageResponse, A2AError>) -> Result<
    SendMessageResponseView,
    A2AErrorView,
> {
    match result {
        Ok(response) => Ok(response.deep_view()),
        Err(error) => Err(error.deep_view()),
    }
}

/// A task that a message started is waited for unless `async_mode` is on; an
/// answer that is a message has no task to wait for.
pub open spec fn sent(
    answer: Result<SendMessageResponseView, A2AErrorView>,
    tenant: Option<Seq<char>>,
    async_mode: bool,
    poll_interval: Span,
    timeout: Span,
) -> SentView {
    match answer {
        Err(error) => SentView::Failed(CliErrorView::A2A(error)),
        Ok(SendMessageResponseView::Message(message)) => SentView::Done(
            SendMessageResponseView::Message(message),
        ),
        Ok(SendMessageResponseView::Task(task)) => match settling(
            task,
            !async_mode,
            tenant,
            poll_interval,
            timeout,
        ) {
            SettlingView::Done(task) => SentView::Done(SendMessageResponseView::Task(task)),
            SettlingView::Poll(waiting) => SentView::Poll(waiting),
        },
    }
}

/// Decides how to go on after a message was sent.
pub fn send_and_maybe_wait(
    result: Result<SendMessageResponse, A2AError>,
    tenant: Option<String>,
    async_mode: bool,
    poll_interval: Span,
    timeout: Span,
) -> (r: Sent)
    ensures
        r.deep_view() == sent(
            message_answer(result),
            tenant.deep_view(),
            async_mode,
            poll_interval,
            timeout,
        ),
{
    match result {
        Err(error) => Sent::Failed(CliError::A2A(error)),
        Ok(SendMessageResponse::Message(message)) => Sent::Done(
            SendMessageResponse::Message(message),
        ),
        Ok(SendMessageResponse::Task(task)) => match settle_task(
            task,
            !async_mode,
            tenant,
            poll_interval,
            timeout,
        ) {
            Settling::Done(task) => Sent::Done(SendMessageResponse::Task(task)),
            Settling::Poll(waiting) => Sent::Poll(waiting),
        },
    }
}

/// What a command comes to once the connection was closed with `closed`. A
/// failure to close it is reported where nothing else failed; a failure that
/// came before is reported in its place.
pub fn close_client<V>(outcome: Result<V, CliError>, closed: Result<(), A2AError>) -> (r: Result<
    V,
    CliError,
>)
    ensures
        match (outcome, closed, r) {
            (Ok(value), Ok(_), Ok(kept)) => kept == value,
            (Ok(_), Err(error), Err(failure)) => failure.deep_view() == CliErrorView::A2A(
                error.deep_view(),
            ),
            (Err(first), _, Err(failure)) => failure == first,
            _ => false,
        },
{
    match outcome {
        Ok(value) => match closed {
            Ok(_) => Ok(value),
            Err(error) => Err(CliError::A2A(error)),
        },
        Err(failure) => Err(failure),
    }
}

/// A pause never outlasts the time for waiting, and is no shorter than the
/// interval or what is left of that time. So each pause brings the end nearer
/// by the interval, or reaches it.
pub proof fn waiting_ends_with_its_time(waiting: WaitingView, task: TaskView, elapsed: Span)
    requires
        waiting.poll_interval.well_formed(),
        waiting.timeout.well_formed(),
        elapsed.well_formed(),
    ensures
        match polled(waiting, Ok(task), elapsed) {
            PolledView::Sleep(pause) => {
                &&& elapsed.length() + pause.length() <= waiting.timeout.length()
                &&& pause.length() == waiting.poll_interval.length() || elapsed.length()
                    + pause.length() == waiting.timeout.length()
            },
            PolledView::Settled(result) => result == task && outcome::settled(task.status.state),
            PolledView::Failed(_) => !outcome::settled(task.status.state) && elapsed.length()
                >= waiting.timeout.length(),
        },
{
}

/// Whatever the agent's answers, what is reported as the result of waiting has
/// settled.
pub proof fn results_of_waiting_have_settled(
    waiting: WaitingView,
    answer: Result<TaskView, A2AErrorView>,
    elapsed: Span,
)
    ensures
        polled(waiting, answer, elapsed) matches PolledView::Settled(task) ==> outcome::settled(
            task.status.state,
        ),
{
}

/// Whether a task in `state` still runs without its caller.
pub open spec fn is_running(state: TaskState) -> bool {
    ||| state == TaskState::Unspecified
    ||| state == TaskState::Submitted
    ||| state == TaskState::Working
}

/// A task is polled exactly where waiting was asked for and the task still
/// runs, and it is that task, in that tenant, at that interval and for that
/// time; otherwise it is the result, as it is.
pub proof fn only_running_tasks_are_waited_for(
    task: Task,
    wait: bool,
    tenant: Option<String>,
    poll_interval: Span,
    timeout: Span,
    r: Settling,
)
    requires
        call_ensures(settle_task, (task, wait, tenant, poll_interval, timeout), r),
    ensures
        wait && is_running(task.status.state) ==> (r matches Settling::Poll(waiting) && {
            &&& waiting.task_id@ == task.id@
            &&& waiting.tenant.deep_view() == tenant.deep_view()
            &&& waiting.poll_interval == poll_interval
            &&& waiting.timeout == timeout
        }),
        !(wait && is_running(task.status.state)) ==> (r matches Settling::Done(result)
            && result.deep_view() == task.deep_view()),
{
}

/// A poll asks for the task that is waited for, with its whole history, in the
/// tenant of the wait.
pub proof fn polls_ask_for_the_task(waiting: Waiting, r: GetTaskRequest)
    requires
        call_ensures(Waiting::request, (&waiting,), r),
    ensures
        r.id@ == waiting.task_id@,
        r.history_length is None,
        r.tenant.deep_view() == waiting.tenant.deep_view(),
{
}

/// An error ends the waiting as it is. A task that no longer runs is the
/// result, however late it comes; one that still runs when the time is over
/// fails with the time and the task; otherwise there is a pause.
pub proof fn answers_end_the_waiting(
    waiting: Waiting,
    result: Result<Task, A2AError>,
    elapsed: Span,
    r: Polled,
)
    requires
        call_ensures(Waiting::wait_for_task_settled, (&waiting, result, elapsed), r),
    ensures
        result matches Err(error) ==> (r matches Polled::Failed(CliError::A2A(told))
            && told.deep_view() == error.deep_view()),
        result matches Ok(task) ==> {
            let over = elapsed.length() >= waiting.timeout.length();
            &&& !is_running(task.status.state) ==> (r matches Polled::Settled(settled)
                && settled.deep_view() == task.deep_view())
            &&& is_running(task.status.state) && over ==> (r matches Polled::Failed(
                CliError::Timeout { task_id, timeout },
            ) && task_id@ == waiting.task_id@ && timeout == waiting.timeout)
            &&& is_running(task.status.state) && !over ==> r is Sleep
        },
{
}

/// After a message was sent, a failure and a message are what they are. A task
/// that still runs is waited for unless the caller does not wait; otherwise it
/// is the result.
pub proof fn sent_messages_are_waited_for(
    result: Result<SendMessageResponse, A2AError>,
    tenant: Option<String>,
    async_mode: bool,
    poll_interval: Span,
    timeout: Span,
    r: Sent,
)
    requires
        call_ensures(send_and_maybe_wait, (result, tenant, async_mode, poll_interval, timeout), r),
    ensures
        result matches Err(error) ==> (r matches Sent::Failed(CliError::A2A(told))
            && told.deep_view() == error.deep_view()),
        result matches Ok(SendMessageResponse::Message(message)) ==> (r matches Sent::Done(
            SendMessageResponse::Message(told),
        ) && told.deep_view() == message.deep_view()),
        result matches Ok(SendMessageResponse::Task(task)) ==> {
            &&& !async_mode && is_running(task.status.state) ==> (r matches Sent::Poll(waiting) && {
                &&& waiting.task_id@ == task.id@
                &&& waiting.tenant.deep_view() == tenant.deep_view()
                &&& waiting.poll_interval == poll_interval
                &&& waiting.timeout == timeout
            })
            &&& async_mode || !is_running(task.status.state) ==> (r matches Sent::Done(
                SendMessageResponse::Task(told),
            ) && told.deep_view() == task.deep_view())
        },
{
}

} // verus!
