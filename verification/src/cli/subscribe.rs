//! Following a task across interruptions of its event stream.

use vstd::prelude::*;

use crate::cli::error::{CliError, CliErrorView};
use crate::cli::outcome;
use crate::protocol::{
    A2AError, StreamResponse, StreamResponseView, SubscribeToTaskRequest, SubscribeToTaskRequestView,
    TaskState,
};
use crate::span::Span;
use crate::text;

verus! {

/// What is known while a task is followed.
#[derive(Debug, Clone, Copy, PartialEq, Eq)]
pub struct Resumption {
    /// The last state of the task that was seen.
    pub last_state: Option<TaskState>,
    /// The last state that was seen before the current stream.
    pub state_before: Option<TaskState>,
    /// Whether the next event is the first after reconnecting.
    pub first_event: bool,
    /// How often reconnecting was tried.
    pub attempt: u32,
}

/// A task of which nothing was seen yet.
pub open spec fn fresh() -> Resumption {
    Resumption { last_state: None, state_before: None, first_event: false, attempt: 0 }
}

/// What is known after an event, and whether the event is news. The first
/// event after reconnecting is none where it only repeats the state.
pub open spec fn observed(before: Resumption, state: Option<TaskState>) -> (Resumption, bool) {
    (
        Resumption {
            last_state: if state is Some {
                state
            } else {
                before.last_state
            },
            first_event: false,
            ..before
        },
        !(before.first_event && state is Some && state == before.state_before),
    )
}

/// What is known after the task was subscribed to again.
pub open spec fn resubscribed(before: Resumption) -> Resumption {
    Resumption {
        state_before: before.last_state,
        first_event: before.attempt > 0,
        ..before
    }
}

/// What to do when a stream ended.
#[derive(Debug, Clone, Copy, PartialEq, Eq, Structural)]
pub enum StreamEnd {
    /// The task settled.
    Finished,
    /// The stream was cut.
    Interrupted,
}

/// What to do about a stream that was cut.
#[derive(Debug, PartialEq, Eq)]
pub enum Retry {
    GiveUp(CliError),
    /// Warn, pause, and subscribe again.
    Reconnect { warning: String, pause: Span },
}

/// What a [`Retry`] stands for.
#[verifier::ext_equal]
pub enum RetryView {
    GiveUp(CliErrorView),
    Reconnect { warning: Seq<char>, pause: Span },
}

impl DeepView for Retry {
    type V = RetryView;

    open spec fn deep_view(&self) -> RetryView {
        match self {
            Retry::GiveUp(error) => RetryView::GiveUp(error.deep_view()),
            Retry::Reconnect { warning, pause } => RetryView::Reconnect {
                warning: warning@,
                pause: *pause,
            },
        }
    }
}

/// The warning before attempt number `attempt` to reconnect.
pub open spec fn reconnect_warning(task_id: Seq<char>, attempt: nat) -> Seq<char> {
    "subscription to task "@ + task_id
        + " was interrupted before it settled; reconnecting (attempt "@ + text::decimal(attempt)
        + ")..."@
}

/// What to do about a stream that was cut, or about a failure to subscribe
/// again, when `elapsed` of the time was over and `attempt` attempts were
/// made.
pub open spec fn retried(
    task_id: Seq<char>,
    attempt: u32,
    poll_interval: Span,
    timeout: Span,
    elapsed: Span,
) -> RetryView {
    if elapsed.length() >= timeout.length() {
        RetryView::GiveUp(CliErrorView::Timeout { task_id, timeout })
    } else {
        RetryView::Reconnect {
            warning: reconnect_warning(task_id, attempt as nat + 1),
            pause: poll_interval.shorter(timeout.rest(elapsed)),
        }
    }
}

impl Resumption {
    /// Nothing was seen yet.
    pub fn new() -> (r: Resumption)
        ensures
            r == fresh(),
    {
        Resumption { last_state: None, state_before: None, first_event: false, attempt: 0 }
    }

    /// Takes note of an event and says whether to show it.
    fn on_event(&mut self, value: &StreamResponse) -> (r: bool)
        ensures
            (*final(self), r) == observed(*old(self), outcome::carried_state(value.deep_view())),
    {
        let state = outcome::stream_response_state(value);
        let repeated = match (state, self.state_before) {
            (Some(now), Some(before)) => self.first_event && now == before,
            (Some(_), None) => false,
            (None, _) => false,
        };
        if state.is_some() {
            self.last_state = state;
        }
        self.first_event = false;
        !repeated
    }

    /// Tells a stream that was cut from one that is complete.
    fn on_end(&self) -> (r: StreamEnd)
        ensures
            r == (if has_settled(*self) {
                StreamEnd::Finished
            } else {
                StreamEnd::Interrupted
            }),
    {
        match &self.last_state {
            Some(state) => if outcome::is_settled(state) {
                StreamEnd::Finished
            } else {
                StreamEnd::Interrupted
            },
            None => StreamEnd::Interrupted,
        }
    }

    /// Whether something that happens leads to another attempt to reconnect.
    pub fn reconnects(&self, happening: &Happening, timeout: Span, elapsed: Span) -> (r: bool)
        requires
            timeout.well_formed(),
            elapsed.well_formed(),
        ensures
            r == will_reconnect(*self, *happening, timeout, elapsed),
    {
        let cut = match happening {
            Happening::NotResubscribed => true,
            Happening::Ended => match self.on_end() {
                StreamEnd::Finished => false,
                StreamEnd::Interrupted => true,
            },
            _ => false,
        };
        cut && !elapsed.at_least(timeout)
    }

    /// Decides what to do about a stream that was cut, or about a failure to
    /// subscribe again.
    fn on_interrupted(
        &mut self,
        task_id: &str,
        poll_interval: Span,
        timeout: Span,
        elapsed: Span,
    ) -> (r: Retry)
        requires
            elapsed.length() < timeout.length() ==> old(self).attempt < u32::MAX,
            poll_interval.well_formed(),
            timeout.well_formed(),
            elapsed.well_formed(),
        ensures
            r.deep_view() == retried(
                task_id@,
                old(self).attempt,
                poll_interval,
                timeout,
                elapsed,
            ),
            *final(self) == if r is Reconnect {
                Resumption { attempt: (old(self).attempt + 1) as u32, ..*old(self) }
            } else {
                *old(self)
            },
    {
        if elapsed.at_least(timeout) {
            return Retry::GiveUp(CliError::Timeout { task_id: task_id.to_string(), timeout });
        }
        self.attempt = self.attempt + 1;
        let mut warning = "subscription to task ".to_string();
        warning.append(task_id);
        warning.append(" was interrupted before it settled; reconnecting (attempt ");
        let count = text::to_decimal(self.attempt as u64);
        warning.append(count.as_str());
        warning.append(")...");
        Retry::Reconnect { warning, pause: poll_interval.min(timeout.saturating_sub(elapsed)) }
    }

    /// Takes note of a new stream.
    fn on_resubscribed(&mut self)
        ensures
            *final(self) == (Resumption {
                state_before: old(self).last_state,
                first_event: old(self).attempt > 0,
                ..*old(self)
            }),
            *final(self) == resubscribed(*old(self)),
    {
        self.state_before = self.last_state;
        self.first_event = self.attempt > 0;
    }
}

/// The request that subscribes to a task, the first time and again.
fn subscribe_request(task_id: &str, tenant: &Option<String>) -> (r: SubscribeToTaskRequest)
    ensures
        r.deep_view() == (SubscribeToTaskRequestView {
            id: task_id@,
            tenant: tenant.deep_view(),
        }),
{
    SubscribeToTaskRequest {
        id: task_id.to_string(),
        tenant: match tenant {
            Some(tenant) => Some(tenant.clone()),
            None => None,
        },
    }
}

/// What happened while a task was followed.
#[derive(Debug, PartialEq, Eq)]
pub enum Happening {
    /// An event came.
    Event(StreamResponse),
    /// The stream failed.
    Failed(A2AError),
    /// The stream ended.
    Ended,
    /// The task was subscribed to again.
    Resubscribed,
    /// The task could not be subscribed to again.
    NotResubscribed,
}

/// What to do while a task is followed.
#[derive(Debug, PartialEq, Eq)]
pub enum Following {
    /// Show the event and wait for the next.
    Show(StreamResponse),
    /// Wait for the next event.
    Wait,
    /// The task settled: close the connection.
    Close,
    /// Close the connection and fail.
    Fail(CliError),
    /// Warn, pause, and subscribe again.
    Resubscribe { warning: String, pause: Span, request: SubscribeToTaskRequest },
}

/// Whether something that happens leads to another attempt to reconnect: the
/// stream was cut, or an attempt failed, and there is time left.
pub open spec fn will_reconnect(
    known: Resumption,
    happening: Happening,
    timeout: Span,
    elapsed: Span,
) -> bool {
    &&& happening is NotResubscribed || happening is Ended && !has_settled(known)
    &&& elapsed.length() < timeout.length()
}

/// Decides what to do about something that happened when `elapsed` of the time
/// for reconnecting was over. A stream that failed is not resumed; one that
/// ended before the task settled is.
pub fn subscribe_with_resumption(
    known: &mut Resumption,
    happening: Happening,
    task_id: &str,
    tenant: &Option<String>,
    poll_interval: Span,
    timeout: Span,
    elapsed: Span,
) -> (r: Following)
    requires
        will_reconnect(*old(known), happening, timeout, elapsed) ==> old(known).attempt < u32::MAX,
        poll_interval.well_formed(),
        timeout.well_formed(),
        elapsed.well_formed(),
    ensures
        match happening {
            Happening::Event(event) => {
                let (after, news) = observed(
                    *old(known),
                    outcome::carried_state(event.deep_view()),
                );
                &&& *final(known) == after
                &&& r == if news {
                    Following::Show(event)
                } else {
                    Following::Wait
                }
            },
            Happening::Failed(error) => {
                &&& *final(known) == *old(known)
                &&& r matches Following::Fail(failure) && failure.deep_view() == CliErrorView::A2A(
                    error.deep_view(),
                )
            },
            Happening::Ended => if has_settled(*old(known)) {
                r is Close && *final(known) == *old(known)
            } else {
                interrupted(
                    *old(known),
                    *final(known),
                    r,
                    task_id@,
                    tenant.deep_view(),
                    poll_interval,
                    timeout,
                    elapsed,
                )
            },
            Happening::NotResubscribed => interrupted(
                *old(known),
                *final(known),
                r,
                task_id@,
                tenant.deep_view(),
                poll_interval,
                timeout,
                elapsed,
            ),
            Happening::Resubscribed => {
                &&& r is Wait
                &&& *final(known) == (Resumption {
                    state_before: old(known).last_state,
                    first_event: old(known).attempt > 0,
                    ..*old(known)
                })
                &&& *final(known) == resubscribed(*old(known))
            },
        },
{
    match happening {
        Happening::Event(event) => if known.on_event(&event) {
            Following::Show(event)
        } else {
            Following::Wait
        },
        Happening::Failed(error) => Following::Fail(CliError::A2A(error)),
        Happening::Ended => match known.on_end() {
            StreamEnd::Finished => Following::Close,
            StreamEnd::Interrupted => retry(
                known,
                task_id,
                tenant,
                poll_interval,
                timeout,
                elapsed,
            ),
        },
        Happening::NotResubscribed => retry(
            known,
            task_id,
            tenant,
            poll_interval,
            timeout,
            elapsed,
        ),
        Happening::Resubscribed => {
            known.on_resubscribed();
            Following::Wait
        },
    }
}

fn retry(
    known: &mut Resumption,
    task_id: &str,
    tenant: &Option<String>,
    poll_interval: Span,
    timeout: Span,
    elapsed: Span,
) -> (r: Following)
    requires
        elapsed.length() < timeout.length() ==> old(known).attempt < u32::MAX,
        poll_interval.well_formed(),
        timeout.well_formed(),
        elapsed.well_formed(),
    ensures
        interrupted(
            *old(known),
            *final(known),
            r,
            task_id@,
            tenant.deep_view(),
            poll_interval,
            timeout,
            elapsed,
        ),
{
    match known.on_interrupted(task_id, poll_interval, timeout, elapsed) {
        Retry::GiveUp(error) => Following::Fail(error),
        Retry::Reconnect { warning, pause } => Following::Resubscribe {
            warning,
            pause,
            request: subscribe_request(task_id, tenant),
        },
    }
}

/// Whether the task is known to need no more following.
pub open spec fn has_settled(known: Resumption) -> bool {
    match known.last_state {
        Some(state) => outcome::settled(state),
        None => false,
    }
}

/// What is done about a stream that was cut: another attempt while time is
/// left.
pub open spec fn interrupted(
    before: Resumption,
    after: Resumption,
    r: Following,
    task_id: Seq<char>,
    tenant: Option<Seq<char>>,
    poll_interval: Span,
    timeout: Span,
    elapsed: Span,
) -> bool {
    match retried(task_id, before.attempt, poll_interval, timeout, elapsed) {
        RetryView::GiveUp(error) => {
            &&& r matches Following::Fail(failure) && failure.deep_view() == error
            &&& after == before
        },
        RetryView::Reconnect { warning, pause } => {
            &&& after == Resumption { attempt: (before.attempt + 1) as u32, ..before }
            &&& match r {
                Following::Resubscribe { warning: w, pause: p, request } => {
                    &&& w@ == warning
                    &&& p == pause
                    &&& request.deep_view() == (SubscribeToTaskRequestView { id: task_id, tenant })
                },
                _ => false,
            }
        },
    }
}

/// What is known after the events of a stream.
pub open spec fn after_events(before: Resumption, events: Seq<StreamResponseView>) -> Resumption
    decreases events.len(),
{
    if events.len() == 0 {
        before
    } else {
        observed(
            after_events(before, events.drop_last()),
            outcome::carried_state(events.last()),
        ).0
    }
}

/// The events of a stream that are shown.
pub open spec fn shown_events(before: Resumption, events: Seq<StreamResponseView>) -> Seq<
    StreamResponseView,
>
    decreases events.len(),
{
    if events.len() == 0 {
        events
    } else {
        let known = after_events(before, events.drop_last());
        let shown = shown_events(before, events.drop_last());
        if observed(known, outcome::carried_state(events.last())).1 {
            shown.push(events.last())
        } else {
            shown
        }
    }
}

/// The last state that events carry.
pub open spec fn last_carried(events: Seq<StreamResponseView>) -> Option<TaskState>
    decreases events.len(),
{
    if events.len() == 0 {
        None
    } else if outcome::carried_state(events.last()) is Some {
        outcome::carried_state(events.last())
    } else {
        last_carried(events.drop_last())
    }
}

/// Every event is shown, in order, but for the first after reconnecting where
/// that only repeats the state seen before. What counts as the task's state
/// is the last one that any event carried.
pub proof fn only_repetitions_are_left_out(before: Resumption, events: Seq<StreamResponseView>)
    ensures
        ({
            let repeated = before.first_event && events.len() > 0 && outcome::carried_state(
                events[0],
            ) is Some && outcome::carried_state(events[0]) == before.state_before;
            &&& shown_events(before, events) == if repeated {
                events.drop_first()
            } else {
                events
            }
            &&& after_events(before, events).last_state == match last_carried(events) {
                Some(state) => Some(state),
                None => before.last_state,
            }
            &&& after_events(before, events).first_event == (before.first_event && events.len()
                == 0)
            &&& after_events(before, events).state_before == before.state_before
            &&& after_events(before, events).attempt == before.attempt
        }),
    decreases events.len(),
{
    if events.len() > 0 {
        let rest = events.drop_last();
        only_repetitions_are_left_out(before, rest);
        if rest.len() == 0 {
            assert(events.drop_first() =~= Seq::<StreamResponseView>::empty());
            assert(shown_events(before, rest) =~= Seq::<StreamResponseView>::empty());
            assert(Seq::<StreamResponseView>::empty().push(events.last()) =~= events);
        } else {
            assert(rest[0] == events[0]);
            assert(rest.push(events.last()) =~= events);
            assert(rest.drop_first().push(events.last()) =~= events.drop_first());
        }
    }
}

/// Reconnecting goes on only while time is left, and no pause outlasts it.
pub proof fn reconnecting_ends_with_its_time(
    task_id: Seq<char>,
    attempt: u32,
    poll_interval: Span,
    timeout: Span,
    elapsed: Span,
)
    requires
        poll_interval.well_formed(),
        timeout.well_formed(),
        elapsed.well_formed(),
    ensures
        match retried(task_id, attempt, poll_interval, timeout, elapsed) {
            RetryView::GiveUp(_) => elapsed.length() >= timeout.length(),
            RetryView::Reconnect { pause, .. } => elapsed.length() + pause.length()
                <= timeout.length(),
        },
{
}

/// An event is shown unless it is the first one after reconnecting and carries
/// the very state that was seen before. A state that it carries is the last one
/// from then on, and nothing else of what is known changes.
pub proof fn repeated_states_are_shown_once(before: Resumption, event: StreamResponseView)
    ensures
        ({
            let carried = match event {
                StreamResponseView::Task(task) => Some(task.status.state),
                StreamResponseView::StatusUpdate(update) => Some(update.status.state),
                _ => None,
            };
            let (after, news) = observed(before, outcome::carried_state(event));
            &&& news <==> !(before.first_event && carried is Some && carried
                == before.state_before)
            &&& carried is Some ==> after.last_state == carried
            &&& carried is None ==> after.last_state == before.last_state
            &&& !after.first_event
            &&& after.state_before == before.state_before
            &&& after.attempt == before.attempt
        }),
{
}

/// A task is followed further exactly where no event said that it was
/// completed, failed, canceled or rejected, or that it needs input or
/// authentication.
pub proof fn following_ends_when_the_task_settles(known: Resumption)
    ensures
        has_settled(known) <==> {
            ||| known.last_state == Some(TaskState::Completed)
            ||| known.last_state == Some(TaskState::Failed)
            ||| known.last_state == Some(TaskState::Canceled)
            ||| known.last_state == Some(TaskState::Rejected)
            ||| known.last_state == Some(TaskState::InputRequired)
            ||| known.last_state == Some(TaskState::AuthRequired)
        },
{
}

/// A stream that was cut is resumed for the same task and tenant while there
/// is time left, which counts one more attempt and says so; afterwards it fails
/// with the time and the task. What was seen of the task is not forgotten.
pub proof fn cut_streams_are_resumed_in_time(
    before: Resumption,
    after: Resumption,
    r: Following,
    task_id: Seq<char>,
    tenant: Option<Seq<char>>,
    poll_interval: Span,
    timeout: Span,
    elapsed: Span,
)
    requires
        interrupted(before, after, r, task_id, tenant, poll_interval, timeout, elapsed),
        before.attempt < u32::MAX,
        poll_interval.well_formed(),
        timeout.well_formed(),
        elapsed.well_formed(),
    ensures
        after.last_state == before.last_state,
        after.state_before == before.state_before,
        after.first_event == before.first_event,
        elapsed.length() < timeout.length() ==> {
            &&& after.attempt == before.attempt + 1
            &&& r matches Following::Resubscribe { warning, pause, request } && {
                &&& request.id@ == task_id
                &&& request.tenant.deep_view() == tenant
                &&& pause.length() <= poll_interval.length()
                &&& elapsed.length() + pause.length() <= timeout.length()
                &&& pause == poll_interval || elapsed.length() + pause.length()
                    == timeout.length()
                &&& warning@ == reconnect_warning(task_id, after.attempt as nat)
            }
        },
        elapsed.length() >= timeout.length() ==> {
            &&& after == before
            &&& r matches Following::Fail(CliError::Timeout { task_id: named, timeout: given })
                && named@ == task_id && given == timeout
        },
{
}

/// The first event of a stream that was subscribed to again is left out
/// exactly where it carries the state that was seen last, and not where the
/// task was subscribed to for the first time. Subscribing forgets nothing.
pub proof fn reconnecting_shows_what_changed(before: Resumption, event: StreamResponseView)
    ensures
        ({
            let carried = match event {
                StreamResponseView::Task(task) => Some(task.status.state),
                StreamResponseView::StatusUpdate(update) => Some(update.status.state),
                _ => None,
            };
            let known = resubscribed(before);
            &&& observed(known, outcome::carried_state(event)).1 <==> !(before.attempt > 0
                && carried is Some && carried == before.last_state)
            &&& known.last_state == before.last_state
            &&& known.attempt == before.attempt
        }),
{
}

/// Another attempt is made exactly where subscribing again failed, or where the
/// stream ended and the task has not settled, and there is time left.
pub proof fn attempts_are_made_for_a_reason(
    known: Resumption,
    happening: Happening,
    timeout: Span,
    elapsed: Span,
    r: bool,
)
    requires
        call_ensures(Resumption::reconnects, (&known, &happening, timeout, elapsed), r),
    ensures
        r <==> elapsed.length() < timeout.length() && match happening {
            Happening::NotResubscribed => true,
            Happening::Ended => known.last_state matches Some(state) ==> (state
                == TaskState::Unspecified || state == TaskState::Submitted || state
                == TaskState::Working),
            _ => false,
        },
{
}

/// The warning before another attempt names the task and counts the attempts.
pub proof fn warnings_count_the_attempts(task_id: Seq<char>, attempt: nat)
    ensures
        reconnect_warning(task_id, attempt) == "subscription to task "@ + task_id
            + " was interrupted before it settled; reconnecting (attempt "@ + text::decimal(
            attempt,
        ) + ")..."@,
{
}

} // verus!
