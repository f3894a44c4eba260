//! The course of an execution, from the executor's events to the store, the
//! push notifications and the subscribers.
//!
//! A [`Drive`] says what has to be done next. Whoever runs it does that, and
//! hands the outcome to the function that goes on from there.

use vstd::prelude::*;

use crate::events;
use crate::events::{Applying, ApplyingView, Change, ChangeView, Saved, TaskUpdate, TaskUpdateView};
use crate::execution;
use crate::execution::{Item, ItemView};
use crate::error_code;
use crate::protocol::{
    A2AError, A2AErrorView, StreamResponse, StreamResponseView, Task, TaskState,
    TaskStatusUpdateEvent, TaskView,
};
use crate::task_store;
use crate::task_store::{StoredTaskView, TaskVersion};

verus! {

/// What the executor was asked to do.
#[derive(Debug, Clone, Copy, PartialEq, Eq, Structural)]
pub enum Turn {
    /// Work on a task. Failures are published.
    Execute,
    /// Cancel a task. Failures go to the caller.
    Cancel,
}

/// What to do next.
pub enum Drive {
    /// Wait for the executor's next event; `current` is the task as last seen.
    Await { current: Option<Task> },
    /// Read the task that `update` is about.
    Lookup { current: Option<Task>, event: StreamResponse, update: TaskUpdate },
    /// Overwrite the stored task with `task`.
    Update { event: StreamResponse, task: Task },
    /// Store `task` as a new one.
    Create { event: StreamResponse, task: Task },
    /// Notify the webhooks of `event`; `updated` is the task it left.
    Push { event: StreamResponse, updated: Option<Task> },
    /// Publish `result` with the task it left.
    Publish { result: Item, snapshot: Option<Task> },
    /// The executor is done: end the execution.
    Finish,
    /// Answer the caller with `error`.
    Fail { error: A2AError },
}

/// What a [`Drive`] stands for.
pub enum DriveView {
    Await { current: Option<TaskView> },
    Lookup { current: Option<TaskView>, event: StreamResponseView, update: TaskUpdateView },
    Update { event: StreamResponseView, task: TaskView },
    Create { event: StreamResponseView, task: TaskView },
    Push { event: StreamResponseView, updated: Option<TaskView> },
    Publish { result: ItemView, snapshot: Option<TaskView> },
    Finish,
    Fail { error: A2AErrorView },
}

impl DeepView for Drive {
    type V = DriveView;

    open spec fn deep_view(&self) -> DriveView {
        match self {
            Drive::Await { current } => DriveView::Await { current: current.deep_view() },
            Drive::Lookup { current, event, update } => DriveView::Lookup {
                current: current.deep_view(),
                event: event.deep_view(),
                update: update.deep_view(),
            },
            Drive::Update { event, task } => DriveView::Update {
                event: event.deep_view(),
                task: task.deep_view(),
            },
            Drive::Create { event, task } => DriveView::Create {
                event: event.deep_view(),
                task: task.deep_view(),
            },
            Drive::Push { event, updated } => DriveView::Push {
                event: event.deep_view(),
                updated: updated.deep_view(),
            },
            Drive::Publish { result, snapshot } => DriveView::Publish {
                result: execution::item_view(*result),
                snapshot: snapshot.deep_view(),
            },
            Drive::Finish => DriveView::Finish,
            Drive::Fail { error } => DriveView::Fail { error: error.deep_view() },
        }
    }
}

/// What follows a failure to apply or announce an event: subscribers of an
/// execution learn of it, and so does the caller of a cancel.
pub open spec fn failed(turn: Turn, error: A2AErrorView) -> DriveView {
    match turn {
        Turn::Execute => DriveView::Publish { result: Err(error), snapshot: None },
        Turn::Cancel => DriveView::Fail { error },
    }
}

fn fail(turn: Turn, error: A2AError) -> (r: Drive)
    ensures
        r.deep_view() == failed(turn, error.deep_view()),
{
    match turn {
        Turn::Execute => Drive::Publish { result: Err(error), snapshot: None },
        Turn::Cancel => Drive::Fail { error },
    }
}

/// What follows once it is known what `event` asks of the store.
pub open spec fn changed(turn: Turn, event: StreamResponseView, change: ChangeView) -> DriveView {
    match change {
        ChangeView::Save { task } => DriveView::Update { event, task },
        ChangeView::Keep { last } => DriveView::Push { event, updated: last },
        ChangeView::Refuse { error } => failed(turn, error),
    }
}

fn carry_out(turn: Turn, event: StreamResponse, change: Change) -> (r: Drive)
    ensures
        r.deep_view() == changed(turn, event.deep_view(), change.deep_view()),
{
    match change {
        Change::Save { task } => Drive::Update { event, task },
        Change::Keep { last } => Drive::Push { event, updated: last },
        Change::Refuse { error } => fail(turn, error),
    }
}

/// What follows an event of the executor, an error of it, or its end. An
/// execution whose task has ended meanwhile stops before it looks at the
/// event.
pub open spec fn after_event(
    turn: Turn,
    current: Option<TaskView>,
    item: Option<ItemView>,
    ended: bool,
) -> DriveView {
    match item {
        None => DriveView::Finish,
        Some(result) => if turn == Turn::Execute && ended {
            DriveView::Finish
        } else {
            match result {
                Err(error) => DriveView::Publish { result: Err(error), snapshot: None },
                Ok(event) => match events::apply_start(current, event) {
                    ApplyingView::Lookup { update } => DriveView::Lookup { current, event, update },
                    ApplyingView::Ready { change } => changed(turn, event, change),
                },
            }
        },
    }
}

/// What an optional item stands for.
pub open spec fn next_view(item: Option<Item>) -> Option<ItemView> {
    match item {
        Some(result) => Some(execution::item_view(result)),
        None => None,
    }
}

/// Goes on from [`Drive::Await`]. `ended` says whether the task of the
/// execution has ended meanwhile.
pub fn on_event(turn: Turn, current: Option<Task>, item: Option<Item>, ended: bool) -> (r: Drive)
    ensures
        r.deep_view() == after_event(turn, current.deep_view(), next_view(item), ended),
{
    let result = match item {
        None => {
            return Drive::Finish;
        },
        Some(result) => result,
    };
    if turn == Turn::Execute && ended {
        return Drive::Finish;
    }
    match result {
        Err(error) => Drive::Publish { result: Err(error), snapshot: None },
        Ok(event) => match events::start_applying(&current, &event) {
            Applying::Lookup { update } => Drive::Lookup { current, event, update },
            Applying::Ready { change: ready } => carry_out(turn, event, ready),
        },
    }
}

/// Goes on from [`Drive::Lookup`] with what the store gave back.
pub fn on_found(
    turn: Turn,
    current: Option<Task>,
    event: StreamResponse,
    update: &TaskUpdate,
    found: Result<Option<Task>, A2AError>,
) -> (r: Drive)
    ensures
        r.deep_view() == changed(
            turn,
            event.deep_view(),
            events::apply_found(
                current.deep_view(),
                update.deep_view(),
                events::read_view(found),
            ),
        ),
{
    let next = events::resume_applying(current, update, found);
    carry_out(turn, event, next)
}

/// What a write stands for: its error, if it failed.
pub open spec fn write_error(written: Result<TaskVersion, A2AError>) -> Option<A2AErrorView> {
    match written {
        Ok(_) => None,
        Err(error) => Some(error.deep_view()),
    }
}

/// What follows an attempt to overwrite the stored task.
pub open spec fn after_overwrite(
    turn: Turn,
    event: StreamResponseView,
    task: TaskView,
    error: Option<A2AErrorView>,
) -> DriveView {
    match error {
        None => DriveView::Push { event, updated: Some(task) },
        Some(error) => if error.code == error_code::TASK_NOT_FOUND {
            DriveView::Create { event, task }
        } else {
            failed(turn, error)
        },
    }
}

/// Goes on from [`Drive::Update`] with what came of the write.
pub fn on_updated(
    turn: Turn,
    event: StreamResponse,
    task: Task,
    written: Result<TaskVersion, A2AError>,
) -> (r: Drive)
    ensures
        r.deep_view() == after_overwrite(
            turn,
            event.deep_view(),
            task.deep_view(),
            write_error(written),
        ),
{
    match events::after_save(written) {
        Saved::Done => Drive::Push { event, updated: Some(task) },
        Saved::Create => Drive::Create { event, task },
        Saved::Failed { error } => fail(turn, error),
    }
}

/// Goes on from [`Drive::Create`] with what came of the write.
pub fn on_created(
    turn: Turn,
    event: StreamResponse,
    task: Task,
    written: Result<TaskVersion, A2AError>,
) -> (r: Drive)
    ensures
        r.deep_view() == match write_error(written) {
            None => DriveView::Push { event: event.deep_view(), updated: Some(task.deep_view()) },
            Some(error) => failed(turn, error),
        },
{
    match written {
        Ok(_) => Drive::Push { event, updated: Some(task) },
        Err(error) => fail(turn, error),
    }
}

/// What to do while the webhooks of a task are notified of an event.
#[derive(Debug, PartialEq, Eq)]
pub enum PushRound {
    /// Notify the webhook at this place.
    Send { index: usize },
    /// Go on with what came of the notifications.
    Done { sent: Result<(), A2AError> },
}

/// Decides how to go on when `notified` of `total` webhooks were notified, the
/// last with `last`: one after the other, until one does not take the event.
pub fn send_push_notifications(total: usize, notified: usize, last: Result<(), A2AError>) -> (r:
    PushRound)
    ensures
        match last {
            Err(error) => r matches PushRound::Done { sent: Err(failure) } && failure == error,
            Ok(_) => if notified < total {
                r matches PushRound::Send { index } && index == notified
            } else {
                r matches PushRound::Done { sent: Ok(_) }
            },
        },
{
    match last {
        Err(error) => PushRound::Done { sent: Err(error) },
        Ok(_) => if notified < total {
            PushRound::Send { index: notified }
        } else {
            PushRound::Done { sent: Ok(()) }
        },
    }
}

/// Goes on from [`Drive::Push`] with what came of the notifications: an event
/// is published once every webhook took it.
pub fn on_pushed(
    turn: Turn,
    event: StreamResponse,
    updated: Option<Task>,
    sent: Result<(), A2AError>,
) -> (r: Drive)
    ensures
        r.deep_view() == match sent {
            Ok(_) => DriveView::Publish {
                result: Ok(event.deep_view()),
                snapshot: updated.deep_view(),
            },
            Err(error) => failed(turn, error.deep_view()),
        },
{
    match sent {
        Ok(_) => Drive::Publish { result: Ok(event), snapshot: updated },
        Err(error) => fail(turn, error),
    }
}

/// What follows a publication: a terminal event and an error end the turn.
pub open spec fn after_publish(
    turn: Turn,
    result: ItemView,
    snapshot: Option<TaskView>,
) -> DriveView {
    match result {
        Ok(event) => if events::is_final(event) {
            DriveView::Finish
        } else {
            DriveView::Await { current: snapshot }
        },
        Err(error) => match turn {
            Turn::Execute => DriveView::Finish,
            Turn::Cancel => DriveView::Fail { error },
        },
    }
}

/// Goes on from [`Drive::Publish`].
pub fn on_published(turn: Turn, result: Item, snapshot: Option<Task>) -> (r: Drive)
    ensures
        r.deep_view() == after_publish(
            turn,
            execution::item_view(result),
            snapshot.deep_view(),
        ),
{
    match result {
        Ok(event) => if events::is_terminal_event(&event) {
            Drive::Finish
        } else {
            Drive::Await { current: snapshot }
        },
        Err(error) => match turn {
            Turn::Execute => Drive::Finish,
            Turn::Cancel => Drive::Fail { error },
        },
    }
}

/// The store after `drive` was carried out on it, and what follows, while
/// there is something to read, to write or to announce and every webhook
/// takes the event.
pub open spec fn carried_out(
    turn: Turn,
    stored: Map<Seq<char>, StoredTaskView>,
    drive: DriveView,
    passes: nat,
) -> (Map<Seq<char>, StoredTaskView>, DriveView)
    decreases passes,
{
    if passes == 0 {
        (stored, drive)
    } else {
        match drive {
            DriveView::Lookup { current, event, update } => carried_out(
                turn,
                stored,
                changed(
                    turn,
                    event,
                    events::apply_found(
                        current,
                        update,
                        Ok(events::stored_task(stored, update.task_id())),
                    ),
                ),
                (passes - 1) as nat,
            ),
            DriveView::Update { event, task } => carried_out(
                turn,
                task_store::after_update(stored, task),
                after_overwrite(turn, event, task, update_error(stored, task)),
                (passes - 1) as nat,
            ),
            DriveView::Create { event, task } => carried_out(
                turn,
                task_store::after_create(stored, task),
                DriveView::Push { event, updated: Some(task) },
                (passes - 1) as nat,
            ),
            DriveView::Push { event, updated } => carried_out(
                turn,
                stored,
                DriveView::Publish { result: Ok(event), snapshot: updated },
                (passes - 1) as nat,
            ),
            _ => (stored, drive),
        }
    }
}

/// The error of an attempt to overwrite the stored task with `task`.
pub open spec fn update_error(
    stored: Map<Seq<char>, StoredTaskView>,
    task: TaskView,
) -> Option<A2AErrorView> {
    if !stored.contains_key(task.id) {
        Some(error_code::not_found(task.id))
    } else if task_store::update_granted(stored, task) {
        None
    } else {
        Some(task_store::frozen_error(stored[task.id].task, task))
    }
}

/// The most steps that an event of the executor takes.
pub open spec fn steps() -> nat {
    5
}

/// Carrying out what an event asks for applies exactly that event to the
/// store, and leads to its publication, with the task it left; if it cannot
/// be applied, the store is as it was and the error follows.
pub proof fn driving_applies_the_event(
    turn: Turn,
    stored: Map<Seq<char>, StoredTaskView>,
    current: Option<TaskView>,
    event: StreamResponseView,
)
    ensures
        carried_out(turn, stored, after_event(turn, current, Some(Ok(event)), false), steps())
            == match events::event_outcome(stored, current, event) {
            (after, Ok(updated)) => (
                after,
                DriveView::Publish { result: Ok(event), snapshot: updated },
            ),
            (after, Err(error)) => (after, failed(turn, error)),
        },
        events::event_outcome(stored, current, event).1 is Err ==> events::event_outcome(
            stored,
            current,
            event,
        ).0 == stored,
{
    reveal_with_fuel(carried_out, 6);
}

/// Whether an execution that stands at `current` has ended.
pub open spec fn has_ended(current: Option<TaskView>) -> bool {
    current matches Some(task) && task.status.state.terminal()
}

/// What an execution that stands at `current` comes to when its executor
/// gives `item`: the store after it, and what follows.
pub open spec fn turned(
    stored: Map<Seq<char>, StoredTaskView>,
    current: Option<TaskView>,
    item: ItemView,
) -> (Map<Seq<char>, StoredTaskView>, DriveView) {
    carried_out(
        Turn::Execute,
        stored,
        after_event(Turn::Execute, current, Some(item), has_ended(current)),
        steps(),
    )
}

/// Everything an execution publishes for the events `items` of its executor,
/// and the store that it leaves, while nobody else writes to the task.
pub open spec fn executed(
    stored: Map<Seq<char>, StoredTaskView>,
    current: Option<TaskView>,
    items: Seq<ItemView>,
) -> (Map<Seq<char>, StoredTaskView>, Seq<ItemView>)
    decreases items.len(),
{
    if items.len() == 0 {
        (stored, Seq::empty())
    } else {
        match turned(stored, current, items[0]) {
            (after, DriveView::Publish { result, snapshot }) => match after_publish(
                Turn::Execute,
                result,
                snapshot,
            ) {
                DriveView::Await { current: next } => {
                    let (left, rest) = executed(after, next, items.drop_first());
                    (left, seq![result] + rest)
                },
                _ => (after, seq![result]),
            },
            (after, _) => (after, Seq::empty()),
        }
    }
}

/// Everything an execution publishes for the events `items` of its executor.
pub open spec fn published(
    stored: Map<Seq<char>, StoredTaskView>,
    current: Option<TaskView>,
    items: Seq<ItemView>,
) -> Seq<ItemView> {
    executed(stored, current, items).1
}

/// The store that an execution leaves behind after the events `items` of its
/// executor.
pub open spec fn left_behind(
    stored: Map<Seq<char>, StoredTaskView>,
    current: Option<TaskView>,
    items: Seq<ItemView>,
) -> Map<Seq<char>, StoredTaskView> {
    executed(stored, current, items).0
}

/// Subscribers get the executor's events unchanged and in order. At most one
/// error is published, as the last thing, and so is a terminal event. An
/// execution whose task has ended publishes nothing.
pub proof fn events_are_published_unchanged(
    stored: Map<Seq<char>, StoredTaskView>,
    current: Option<TaskView>,
    items: Seq<ItemView>,
)
    ensures
        published(stored, current, items).len() <= items.len(),
        forall|i: int|
            0 <= i < published(stored, current, items).len() ==> {
                let item = #[trigger] published(stored, current, items)[i];
                &&& item is Ok ==> item == items[i]
                &&& i < published(stored, current, items).len() - 1
                    ==> !execution::ends_execution(item)
            },
        published(stored, current, items).len() > 0 <==> items.len() > 0 && !has_ended(current),
    decreases items.len(),
{
    if has_ended(current) {
        reveal_with_fuel(carried_out, 2);
    } else if items.len() > 0 {
        let all = published(stored, current, items);
        match items[0] {
            Ok(event) => {
                driving_applies_the_event(Turn::Execute, stored, current, event);
            },
            Err(error) => {
                reveal_with_fuel(carried_out, 2);
            },
        }
        match turned(stored, current, items[0]) {
            (after, DriveView::Publish { result, snapshot }) => match after_publish(
                Turn::Execute,
                result,
                snapshot,
            ) {
                DriveView::Await { current: next } => {
                    let rest = published(after, next, items.drop_first());
                    events_are_published_unchanged(after, next, items.drop_first());
                    assert(all =~= seq![result] + rest);
                    assert forall|i: int| 0 <= i < all.len() implies {
                        let item = #[trigger] all[i];
                        &&& item is Ok ==> item == items[i]
                        &&& i < all.len() - 1 ==> !execution::ends_execution(item)
                    } by {
                        if i > 0 {
                            assert(all[i] == rest[i - 1]);
                            assert(items.drop_first()[i - 1] == items[i]);
                        }
                    }
                },
                _ => {
                    assert(all =~= seq![result]);
                },
            },
            _ => {},
        }
    }
}

/// Whether `drive` is what a failure leads to: subscribers of an execution are
/// told the error, and so is the caller of a cancel.
pub open spec fn reports(turn: Turn, drive: Drive, error: A2AErrorView) -> bool {
    match turn {
        Turn::Execute => drive matches Drive::Publish { result: Err(told), snapshot: None }
            && told.deep_view() == error,
        Turn::Cancel => drive matches Drive::Fail { error: told } && told.deep_view() == error,
    }
}

/// The executor's end ends the turn, and so does, in an execution, the end of
/// its task, whatever comes. An error of the executor is published. A task is
/// written as it came, an update first reads its task, and a message is
/// announced at once; the event stays as it came.
pub proof fn events_take_their_course(
    turn: Turn,
    current: Option<Task>,
    item: Option<Item>,
    ended: bool,
    r: Drive,
)
    requires
        call_ensures(on_event, (turn, current, item, ended), r),
    ensures
        item is None ==> r is Finish,
        turn == Turn::Execute && ended ==> r is Finish,
        item is Some && !(turn == Turn::Execute && ended) ==> r !is Finish,
        item is Some && !(turn == Turn::Execute && ended) ==> match item->0 {
            Err(error) => r matches Drive::Publish { result: Err(told), snapshot: None }
                && told.deep_view() == error.deep_view(),
            Ok(event) => match event {
                StreamResponse::Task(task) => r matches Drive::Update { event: kept, task: saved }
                    && kept.deep_view() == event.deep_view() && saved.deep_view()
                    == task.deep_view(),
                StreamResponse::StatusUpdate(update) => r matches Drive::Lookup {
                    current: seen,
                    event: kept,
                    update: TaskUpdate::Status(named),
                } && seen.deep_view() == current.deep_view() && kept.deep_view()
                    == event.deep_view() && named.deep_view() == update.deep_view(),
                StreamResponse::ArtifactUpdate(update) => r matches Drive::Lookup {
                    current: seen,
                    event: kept,
                    update: TaskUpdate::Artifact(named),
                } && seen.deep_view() == current.deep_view() && kept.deep_view()
                    == event.deep_view() && named.deep_view() == update.deep_view(),
                StreamResponse::Message(_) => r matches Drive::Push { event: kept, updated }
                    && kept.deep_view() == event.deep_view() && updated.deep_view()
                    == current.deep_view(),
            },
        },
{
}

/// A status update that found its task has the task written with the new
/// status and everything else as it was; the task as last seen counts before
/// the stored one. A failed read, and a task that is nowhere, are reported.
pub proof fn found_tasks_are_updated(
    turn: Turn,
    current: Option<Task>,
    event: StreamResponse,
    update: TaskStatusUpdateEvent,
    found: Result<Option<Task>, A2AError>,
    r: Drive,
)
    requires
        call_ensures(on_found, (turn, current, event, &TaskUpdate::Status(update), found), r),
    ensures
        found matches Err(error) ==> reports(turn, r, error.deep_view()),
        current is None && (found matches Ok(None)) ==> reports(
            turn,
            r,
            error_code::not_found(update.task_id@),
        ),
        found matches Ok(stored) ==> {
            let base = if current is Some {
                current
            } else {
                stored
            };
            base matches Some(before) ==> (r matches Drive::Update { event: kept, task } && {
                &&& kept.deep_view() == event.deep_view()
                &&& task.id@ == before.id@
                &&& task.context_id@ == before.context_id@
                &&& task.status.deep_view() == update.status.deep_view()
                &&& task.artifacts.deep_view() == before.artifacts.deep_view()
                &&& task.history.deep_view() == before.history.deep_view()
                &&& task.metadata.deep_view() == before.metadata.deep_view()
            })
        },
{
}

/// A task that was overwritten is announced with its event; one that was not
/// stored is created first, and any other failure to write is reported.
pub proof fn written_tasks_are_announced(
    turn: Turn,
    event: StreamResponse,
    task: Task,
    written: Result<TaskVersion, A2AError>,
    updated: Drive,
    created: Drive,
)
    requires
        call_ensures(on_updated, (turn, event, task, written), updated),
        call_ensures(on_created, (turn, event, task, written), created),
    ensures
        written is Ok ==> {
            &&& updated matches Drive::Push { event: kept, updated: Some(left) }
                && kept.deep_view() == event.deep_view() && left.deep_view() == task.deep_view()
            &&& created matches Drive::Push { event: kept, updated: Some(left) }
                && kept.deep_view() == event.deep_view() && left.deep_view() == task.deep_view()
        },
        written matches Err(error) ==> {
            &&& error.code == error_code::TASK_NOT_FOUND ==> (updated matches Drive::Create {
                event: kept,
                task: left,
            } && kept.deep_view() == event.deep_view() && left.deep_view() == task.deep_view())
            &&& error.code != error_code::TASK_NOT_FOUND ==> reports(
                turn,
                updated,
                error.deep_view(),
            )
            &&& reports(turn, created, error.deep_view())
        },
{
}

/// An event is published as it came, with the task that it left, once every
/// webhook took it; otherwise the failure is reported.
pub proof fn announced_events_are_published(
    turn: Turn,
    event: StreamResponse,
    updated: Option<Task>,
    sent: Result<(), A2AError>,
    r: Drive,
)
    requires
        call_ensures(on_pushed, (turn, event, updated, sent), r),
    ensures
        sent is Ok ==> (r matches Drive::Publish { result: Ok(told), snapshot }
            && told.deep_view() == event.deep_view() && snapshot.deep_view()
            == updated.deep_view()),
        sent matches Err(error) ==> reports(turn, r, error.deep_view()),
{
}

/// After a publication the next event is awaited, with the task that was
/// published, unless the event reported an end or an error was published: an
/// execution is over then, and a cancel is answered with the error.
pub proof fn turns_end_with_the_task(
    turn: Turn,
    result: Item,
    snapshot: Option<Task>,
    r: Drive,
)
    requires
        call_ensures(on_published, (turn, result, snapshot), r),
    ensures
        result matches Err(error) ==> {
            &&& turn == Turn::Execute ==> r is Finish
            &&& turn == Turn::Cancel ==> (r matches Drive::Fail { error: told }
                && told.deep_view() == error.deep_view())
        },
        result matches Ok(event) ==> {
            let state = match event {
                StreamResponse::Task(task) => Some(task.status.state),
                StreamResponse::StatusUpdate(update) => Some(update.status.state),
                _ => None,
            };
            let over = state == Some(TaskState::Completed) || state == Some(TaskState::Failed)
                || state == Some(TaskState::Canceled) || state == Some(TaskState::Rejected);
            &&& over ==> r is Finish
            &&& !over ==> (r matches Drive::Await { current } && current.deep_view()
                == snapshot.deep_view())
        },
{
}

/// Webhooks are notified one after the other, each once, until all have taken
/// the event or one has not; its error is what comes of it.
pub proof fn webhooks_are_notified_in_turn(
    total: usize,
    notified: usize,
    last: Result<(), A2AError>,
    r: PushRound,
)
    requires
        call_ensures(send_push_notifications, (total, notified, last), r),
    ensures
        r is Send <==> last is Ok && notified < total,
        r matches PushRound::Send { index } ==> index == notified,
        last matches Err(error) ==> (r matches PushRound::Done { sent: Err(told) }
            && told.deep_view() == error.deep_view()),
        last is Ok && notified >= total ==> (r matches PushRound::Done { sent: Ok(_) }),
{
}

} // verus!
