//! Running executions: who runs, what is published, and what subscribers see.

use vstd::prelude::*;

use crate::error_code;
use crate::events;
use crate::protocol::{
    A2AError, A2AErrorView, StreamResponse, StreamResponseView, Task, TaskState, TaskView,
};
use crate::replica::Replica;
use crate::table::Table;

verus! {

/// How many events a slow subscriber may fall behind.
pub const EXECUTION_BUFFER_CAPACITY: usize = 32;

/// An event, or the error that ended an execution.
pub type Item = Result<StreamResponse, A2AError>;

/// What an [`Item`] stands for.
pub type ItemView = Result<StreamResponseView, A2AErrorView>;

/// What `item` stands for.
pub open spec fn item_view(item: Item) -> ItemView {
    match item {
        Ok(event) => Ok(event.deep_view()),
        Err(error) => Err(error.deep_view()),
    }
}

fn copy_item(item: &Item) -> (r: Item)
    ensures
        item_view(r) == item_view(*item),
{
    match item {
        Ok(event) => Ok(event.clone()),
        Err(error) => Err(error.clone()),
    }
}

/// Whether nothing follows `item` in its execution.
pub open spec fn ends_execution(item: ItemView) -> bool {
    match item {
        Ok(event) => events::is_final(event),
        Err(_) => true,
    }
}

/// A published event with its place in the execution.
pub struct ExecutionEvent {
    pub sequence: u64,
    pub result: Item,
}

/// What an [`ExecutionEvent`] stands for.
pub struct ExecutionEventView {
    pub sequence: u64,
    pub result: ItemView,
}

impl DeepView for ExecutionEvent {
    type V = ExecutionEventView;

    open spec fn deep_view(&self) -> ExecutionEventView {
        ExecutionEventView { sequence: self.sequence, result: item_view(self.result) }
    }
}

/// The state of a running execution: how many events it published, and the
/// task as of the last one.
pub struct ActiveExecution {
    pub sequence: u64,
    pub snapshot_task: Option<Task>,
}

/// What an [`ActiveExecution`] stands for.
pub struct ActiveExecutionView {
    pub sequence: u64,
    pub snapshot_task: Option<TaskView>,
}

impl DeepView for ActiveExecution {
    type V = ActiveExecutionView;

    open spec fn deep_view(&self) -> ActiveExecutionView {
        ActiveExecutionView {
            sequence: self.sequence,
            snapshot_task: self.snapshot_task.deep_view(),
        }
    }
}

/// An execution after it published one more event, which left `snapshot`.
pub open spec fn after_publication(
    before: ActiveExecutionView,
    snapshot: Option<TaskView>,
) -> ActiveExecutionView {
    ActiveExecutionView {
        sequence: (before.sequence + 1) as u64,
        snapshot_task: match snapshot {
            Some(task) => Some(task),
            None => before.snapshot_task,
        },
    }
}

impl ActiveExecution {
    /// An execution of `task` that published nothing yet.
    pub fn new(task: Task) -> (r: ActiveExecution)
        ensures
            r.deep_view() == (ActiveExecutionView {
                sequence: 0,
                snapshot_task: Some(task.deep_view()),
            }),
    {
        ActiveExecution { sequence: 0, snapshot_task: Some(task) }
    }

    /// Counts an event and takes over the task it left, if it left one. The
    /// event itself is only made when somebody listens.
    pub fn publish(&mut self, result: &Item, snapshot_task: Option<Task>, listeners: usize) -> (r:
        Option<ExecutionEvent>)
        requires
            old(self).sequence < u64::MAX,
        ensures
            final(self).sequence == old(self).sequence + 1,
            final(self).snapshot_task.deep_view() == (if snapshot_task is Some {
                snapshot_task.deep_view()
            } else {
                old(self).snapshot_task.deep_view()
            }),
            final(self).deep_view() == after_publication(
                old(self).deep_view(),
                snapshot_task.deep_view(),
            ),
            r is None <==> listeners == 0,
            r matches Some(event) ==> event.deep_view() == (ExecutionEventView {
                sequence: final(self).sequence,
                result: item_view(*result),
            }),
    {
        if let Some(task) = snapshot_task {
            self.snapshot_task = Some(task);
        }
        self.sequence = self.sequence + 1;
        if listeners == 0 {
            None
        } else {
            Some(ExecutionEvent { sequence: self.sequence, result: copy_item(result) })
        }
    }

    /// A subscription to everything that is published from now on, led by the
    /// task as it stands.
    pub fn resubscribe(&self) -> (r: Subscription)
        ensures
            r.deep_view() == (SubscriptionView {
                snapshot_task: self.snapshot_task.deep_view(),
                min_sequence: self.sequence,
                done: false,
            }),
    {
        Subscription {
            snapshot_task: self.snapshot_task.replica(),
            min_sequence: self.sequence,
            done: false,
        }
    }

    /// Whether the task has ended.
    pub fn snapshot_is_terminal(&self) -> (r: bool)
        ensures
            r == (self.snapshot_task matches Some(task) && task.status.state.terminal()),
    {
        match &self.snapshot_task {
            Some(task) => task.status.state.is_terminal(),
            None => false,
        }
    }
}

/// The running executions by task: at most one for each. Every execution has
/// a handle of its own, so that ending one cannot end a later one.
pub struct ExecutionManager {
    executions: Table<u64>,
    started: u64,
}

impl View for ExecutionManager {
    type V = Map<Seq<char>, u64>;

    closed spec fn view(&self) -> Map<Seq<char>, u64> {
        self.executions@
    }
}

/// The error that `task_id` is already running.
pub open spec fn already_running(task_id: Seq<char>) -> A2AErrorView {
    A2AErrorView {
        code: error_code::INVALID_REQUEST,
        message: "task execution is already in progress: "@ + task_id,
    }
}

/// What runs after an execution of `task_id` was started under `handle`.
pub open spec fn after_start(running: Map<Seq<char>, u64>, task_id: Seq<char>, handle: u64) -> Map<
    Seq<char>,
    u64,
> {
    running.insert(task_id, handle)
}

/// What runs after the execution `handle` of `task_id` ended.
pub open spec fn after_finish(
    running: Map<Seq<char>, u64>,
    task_id: Seq<char>,
    handle: u64,
) -> Map<Seq<char>, u64> {
    if running.contains_key(task_id) && running[task_id] == handle {
        running.remove(task_id)
    } else {
        running
    }
}

impl ExecutionManager {
    #[verifier::type_invariant]
    spec fn well_formed(self) -> bool {
        forall|id: Seq<char>| #[trigger]
            self.executions@.contains_key(id) ==> self.executions@[id] < self.started
    }

    /// How many executions were started so far.
    pub closed spec fn count(self) -> u64 {
        self.started
    }

    /// No execution is running.
    pub fn new() -> (r: Self)
        ensures
            r@ == Map::<Seq<char>, u64>::empty(),
            r.count() == 0,
    {
        ExecutionManager { executions: Table::new(), started: 0 }
    }

    /// How many executions were started so far.
    pub fn started(&self) -> (r: u64)
        ensures
            r == self.count(),
    {
        self.started
    }

    /// Starts an execution of `task_id`, unless one is running, and gives its
    /// handle, which no execution had before.
    pub fn start(&mut self, task_id: &str) -> (r: Result<u64, A2AError>)
        requires
            !old(self)@.contains_key(task_id@) ==> old(self).count() < u64::MAX,
        ensures
            match r {
                Ok(handle) => {
                    &&& !old(self)@.contains_key(task_id@)
                    &&& handle == old(self).count()
                    &&& forall|id: Seq<char>| #[trigger]
                        old(self)@.contains_key(id) ==> old(self)@[id] != handle
                    &&& final(self)@ == old(self)@.insert(task_id@, handle)
                    &&& final(self)@ == after_start(old(self)@, task_id@, handle)
                    &&& final(self).count() == old(self).count() + 1
                },
                Err(error) => {
                    &&& old(self)@.contains_key(task_id@)
                    &&& error.deep_view() == already_running(task_id@)
                    &&& final(self)@ == old(self)@
                    &&& final(self).count() == old(self).count()
                },
            },
    {
        proof {
            use_type_invariant(&*self);
        }
        if self.executions.contains_key(task_id) {
            let mut message = "task execution is already in progress: ".to_string();
            message.append(task_id);
            return Err(A2AError::invalid_request(message.as_str()));
        }
        let handle: u64 = self.started;
        let mut executions: Table<u64> = Table::new();
        std::mem::swap(&mut executions, &mut self.executions);
        executions.insert(task_id.to_string(), handle);
        self.started = handle + 1;
        self.executions = executions;
        Ok(handle)
    }

    /// The handle of the execution of `task_id` that is running.
    pub fn get(&self, task_id: &str) -> (r: Option<u64>)
        ensures
            r == (if self@.contains_key(task_id@) {
                Some(self@[task_id@])
            } else {
                None
            }),
    {
        match self.executions.get(task_id) {
            Some(handle) => Some(*handle),
            None => None,
        }
    }

    /// Ends the execution `handle` of `task_id`. An execution that was started
    /// since then goes on.
    pub fn finish(&mut self, task_id: &str, handle: u64)
        ensures
            final(self)@ == (if old(self)@.contains_key(task_id@) && old(self)@[task_id@]
                == handle {
                old(self)@.remove(task_id@)
            } else {
                old(self)@
            }),
            final(self)@ == after_finish(old(self)@, task_id@, handle),
            final(self).count() == old(self).count(),
    {
        proof {
            use_type_invariant(&*self);
        }
        let current = self.get(task_id);
        if let Some(running) = current {
            if running == handle {
                let mut executions: Table<u64> = Table::new();
                std::mem::swap(&mut executions, &mut self.executions);
                executions.remove(task_id);
                self.executions = executions;
            }
        }
    }
}

/// What a subscriber still has to see.
pub struct Subscription {
    /// The task to show first.
    pub snapshot_task: Option<Task>,
    /// Events up to here are known already.
    pub min_sequence: u64,
    /// Nothing follows.
    pub done: bool,
}

/// What a [`Subscription`] stands for.
#[verifier::ext_equal]
pub struct SubscriptionView {
    pub snapshot_task: Option<TaskView>,
    pub min_sequence: u64,
    pub done: bool,
}

impl DeepView for Subscription {
    type V = SubscriptionView;

    open spec fn deep_view(&self) -> SubscriptionView {
        SubscriptionView {
            snapshot_task: self.snapshot_task.deep_view(),
            min_sequence: self.min_sequence,
            done: self.done,
        }
    }
}

/// What came in from the execution.
pub enum Received {
    Event(ExecutionEvent),
    /// Events were dropped because the subscriber was too slow.
    Lagged,
    /// The execution is gone.
    Closed,
}

/// What a [`Received`] stands for.
pub enum ReceivedView {
    Event(ExecutionEventView),
    Lagged,
    Closed,
}

impl DeepView for Received {
    type V = ReceivedView;

    open spec fn deep_view(&self) -> ReceivedView {
        match self {
            Received::Event(event) => ReceivedView::Event(event.deep_view()),
            Received::Lagged => ReceivedView::Lagged,
            Received::Closed => ReceivedView::Closed,
        }
    }
}

/// What a subscription does next.
pub enum Delivery {
    /// Show this to the subscriber.
    Emit(Item),
    /// Wait for what comes in.
    Receive,
    /// The subscription is over.
    End,
}

/// What a [`Delivery`] stands for.
pub enum DeliveryView {
    Emit(ItemView),
    Receive,
    End,
}

impl DeepView for Delivery {
    type V = DeliveryView;

    open spec fn deep_view(&self) -> DeliveryView {
        match self {
            Delivery::Emit(item) => DeliveryView::Emit(item_view(*item)),
            Delivery::Receive => DeliveryView::Receive,
            Delivery::End => DeliveryView::End,
        }
    }
}

/// The error of a subscriber that was too slow.
pub open spec fn fell_behind() -> A2AErrorView {
    A2AErrorView {
        code: error_code::INTERNAL_ERROR,
        message: "subscription fell behind active execution"@,
    }
}

/// What a subscription does when it is asked for its next event: the snapshot
/// comes first, and nothing comes once it is done.
pub open spec fn polled(s: SubscriptionView) -> (SubscriptionView, DeliveryView) {
    if s.done {
        (s, DeliveryView::End)
    } else {
        match s.snapshot_task {
            Some(task) => (
                SubscriptionView {
                    snapshot_task: None,
                    done: task.status.state.terminal(),
                    ..s
                },
                DeliveryView::Emit(Ok(StreamResponseView::Task(task))),
            ),
            None => (s, DeliveryView::Receive),
        }
    }
}

/// What a subscription does with what came in: events it knows are skipped,
/// and a terminal event or an error is the last one.
pub open spec fn took(s: SubscriptionView, received: ReceivedView) -> (
    SubscriptionView,
    DeliveryView,
) {
    match received {
        ReceivedView::Event(event) => if event.sequence <= s.min_sequence {
            (s, DeliveryView::Receive)
        } else {
            (
                SubscriptionView {
                    min_sequence: event.sequence,
                    done: s.done || ends_execution(event.result),
                    ..s
                },
                DeliveryView::Emit(event.result),
            )
        },
        ReceivedView::Lagged => (
            SubscriptionView { done: true, ..s },
            DeliveryView::Emit(Err(fell_behind())),
        ),
        ReceivedView::Closed => (s, DeliveryView::End),
    }
}

impl Subscription {
    /// A subscription to every event of an execution.
    pub fn from_start() -> (r: Subscription)
        ensures
            r.deep_view() == (SubscriptionView {
                snapshot_task: None,
                min_sequence: 0,
                done: false,
            }),
    {
        Subscription { snapshot_task: None, min_sequence: 0, done: false }
    }

    /// What to do for the subscriber's next event.
    pub fn poll(&mut self) -> (r: Delivery)
        ensures
            (final(self).deep_view(), r.deep_view()) == polled(old(self).deep_view()),
    {
        if self.done {
            return Delivery::End;
        }
        match self.snapshot_task.take() {
            Some(task) => {
                self.done = task.status.state.is_terminal();
                Delivery::Emit(Ok(StreamResponse::Task(task)))
            },
            None => {
                self.snapshot_task = None;
                Delivery::Receive
            },
        }
    }

    /// What to do with what came in.
    pub fn receive(&mut self, received: Received) -> (r: Delivery)
        ensures
            (final(self).deep_view(), r.deep_view()) == took(
                old(self).deep_view(),
                received.deep_view(),
            ),
    {
        match received {
            Received::Event(event) => {
                if event.sequence <= self.min_sequence {
                    return Delivery::Receive;
                }
                self.min_sequence = event.sequence;
                match &event.result {
                    Ok(item) => {
                        if events::is_terminal_event(item) {
                            self.done = true;
                        }
                    },
                    Err(_) => {
                        self.done = true;
                    },
                }
                Delivery::Emit(event.result)
            },
            Received::Lagged => {
                self.done = true;
                Delivery::Emit(Err(A2AError::internal("subscription fell behind active execution")))
            },
            Received::Closed => Delivery::End,
        }
    }
}

/// Everything a subscriber sees when `inbox` comes in.
pub open spec fn seen(s: SubscriptionView, inbox: Seq<ReceivedView>) -> Seq<ItemView>
    decreases inbox.len(), (if s.snapshot_task is Some { 1int } else { 0int }),
{
    match polled(s) {
        (next, DeliveryView::Emit(item)) => seq![item] + seen(next, inbox),
        (next, DeliveryView::End) => Seq::empty(),
        (next, DeliveryView::Receive) => if inbox.len() == 0 {
            Seq::empty()
        } else {
            match took(next, inbox[0]) {
                (after, DeliveryView::Emit(item)) => seq![item] + seen(after, inbox.drop_first()),
                (after, DeliveryView::Receive) => seen(after, inbox.drop_first()),
                (after, DeliveryView::End) => Seq::empty(),
            }
        },
    }
}

/// The results of the events in `published` that come after `sequence`, up to
/// and with the first that ends the execution.
pub open spec fn due(published: Seq<ExecutionEventView>, sequence: u64) -> Seq<ItemView>
    decreases published.len(),
{
    if published.len() == 0 {
        Seq::empty()
    } else if published[0].sequence <= sequence {
        due(published.drop_first(), sequence)
    } else if ends_execution(published[0].result) {
        seq![published[0].result]
    } else {
        seq![published[0].result] + due(published.drop_first(), sequence)
    }
}

/// `published` as it comes in.
pub open spec fn inbox_of(published: Seq<ExecutionEventView>) -> Seq<ReceivedView> {
    published.map_values(|event: ExecutionEventView| ReceivedView::Event(event))
}

/// A subscriber that is never dropped misses no event and sees none twice: of
/// events published in sequence it sees each one that is newer than what it
/// knew, in order and unchanged, and nothing behind the end of the execution.
pub proof fn subscribers_miss_nothing_and_see_nothing_twice(
    s: SubscriptionView,
    published: Seq<ExecutionEventView>,
)
    requires
        !s.done,
        s.snapshot_task is None,
        forall|i: int, j: int|
            0 <= i < j < published.len() ==> (#[trigger] published[i]).sequence < (
            #[trigger] published[j]).sequence,
    ensures
        seen(s, inbox_of(published)) == due(published, s.min_sequence),
    decreases published.len(),
{
    let inbox = inbox_of(published);
    if published.len() > 0 {
        let rest = published.drop_first();
        assert(inbox.drop_first() =~= inbox_of(rest));
        assert(inbox[0] == ReceivedView::Event(published[0]));
        assert forall|i: int, j: int| 0 <= i < j < rest.len() implies (#[trigger] rest[i]).sequence
            < (#[trigger] rest[j]).sequence by {
            assert(rest[i] == published[i + 1] && rest[j] == published[j + 1]);
        }
        let (next, _) = polled(s);
        let (after, delivery) = took(next, inbox[0]);
        if published[0].sequence <= s.min_sequence {
            subscribers_miss_nothing_and_see_nothing_twice(s, rest);
        } else if ends_execution(published[0].result) {
            assert(seen(after, inbox.drop_first()) =~= Seq::<ItemView>::empty());
            assert(seq![published[0].result] + Seq::<ItemView>::empty() =~= seq![
                published[0].result,
            ]);
        } else {
            subscribers_miss_nothing_and_see_nothing_twice(after, rest);
            assert forall|i: int| 0 <= i < rest.len() implies (#[trigger] rest[i]).sequence
                > published[0].sequence by {
                assert(rest[i] == published[i + 1]);
            }
            lemma_due_from_earlier(rest, s.min_sequence, published[0].sequence);
        }
    }
}

proof fn lemma_due_from_earlier(published: Seq<ExecutionEventView>, low: u64, high: u64)
    requires
        low <= high,
        forall|i: int| 0 <= i < published.len() ==> (#[trigger] published[i]).sequence > high,
    ensures
        due(published, low) == due(published, high),
    decreases published.len(),
{
    if published.len() > 0 {
        let rest = published.drop_first();
        assert(published[0].sequence > high);
        assert forall|i: int| 0 <= i < rest.len() implies (#[trigger] rest[i]).sequence > high by {
            assert(rest[i] == published[i + 1]);
        }
        lemma_due_from_earlier(rest, low, high);
    }
}

/// A subscriber that joins late first sees the task as it stands, then what
/// comes after it; when the task has ended, it sees nothing else.
pub proof fn late_subscribers_start_from_the_snapshot(
    s: SubscriptionView,
    inbox: Seq<ReceivedView>,
    task: TaskView,
)
    requires
        !s.done,
        s.snapshot_task == Some(task),
    ensures
        seen(s, inbox) == seq![Ok::<StreamResponseView, A2AErrorView>(StreamResponseView::Task(task))]
            + (if task.status.state.terminal() {
            Seq::empty()
        } else {
            seen(SubscriptionView { snapshot_task: None, ..s }, inbox)
        }),
{
    let (next, _) = polled(s);
    if task.status.state.terminal() {
        assert(seen(next, inbox) =~= Seq::<ItemView>::empty());
    } else {
        assert(next =~= SubscriptionView { snapshot_task: None, ..s });
    }
}

/// An execution ends with an error, and with an event that reports that the
/// task was completed, failed, canceled or rejected; with nothing else.
pub proof fn executions_end_with_their_task(item: ItemView)
    ensures
        item is Err ==> ends_execution(item),
        item matches Ok(event) ==> (ends_execution(item) <==> {
            let state = match event {
                StreamResponseView::Task(task) => Some(task.status.state),
                StreamResponseView::StatusUpdate(update) => Some(update.status.state),
                _ => None,
            };
            ||| state == Some(TaskState::Completed)
            ||| state == Some(TaskState::Failed)
            ||| state == Some(TaskState::Canceled)
            ||| state == Some(TaskState::Rejected)
        }),
{
}

/// A subscriber is shown the task it starts from first and once, and waits for
/// what comes in after it; where that task has ended, nothing follows. What is
/// known of the execution does not change by asking.
pub proof fn snapshots_are_shown_once(s: SubscriptionView)
    ensures
        ({
            let (after, delivery) = polled(s);
            &&& after.min_sequence == s.min_sequence
            &&& s.done ==> after == s && delivery is End
            &&& !s.done ==> {
                &&& after.snapshot_task is None
                &&& s.snapshot_task is None ==> delivery is Receive && !after.done
                &&& s.snapshot_task matches Some(task) ==> {
                    &&& delivery matches DeliveryView::Emit(Ok(StreamResponseView::Task(shown)))
                        && shown == task
                    &&& after.done <==> {
                        let state = task.status.state;
                        ||| state == TaskState::Completed
                        ||| state == TaskState::Failed
                        ||| state == TaskState::Canceled
                        ||| state == TaskState::Rejected
                    }
                }
            }
        }),
{
}

/// Of what comes in, an event that is known already changes nothing and is not
/// shown; a newer one is shown as it is, is known from then on, and is the last
/// one exactly where it ends the execution. A subscriber that fell behind is
/// told so, and nothing follows; nothing is shown once the execution is gone.
pub proof fn newer_events_are_shown_as_they_are(s: SubscriptionView, received: ReceivedView)
    requires
        !s.done,
    ensures
        ({
            let (after, delivery) = took(s, received);
            &&& after.snapshot_task == s.snapshot_task
            &&& match received {
                ReceivedView::Event(event) => {
                    &&& event.sequence <= s.min_sequence ==> after == s && delivery is Receive
                    &&& event.sequence > s.min_sequence ==> {
                        &&& after.min_sequence == event.sequence
                        &&& after.done <==> ends_execution(event.result)
                        &&& delivery matches DeliveryView::Emit(shown) && shown == event.result
                    }
                },
                ReceivedView::Lagged => {
                    &&& after.done
                    &&& after.min_sequence == s.min_sequence
                    &&& delivery matches DeliveryView::Emit(Err(error)) && error.code
                        == error_code::INTERNAL_ERROR
                },
                ReceivedView::Closed => after == s && delivery is End,
            }
        }),
{
}

/// A subscriber that joins a running execution starts from the task as it
/// stands and knows everything that was published so far.
pub proof fn joining_starts_from_the_present(execution: ActiveExecution, r: Subscription)
    requires
        call_ensures(ActiveExecution::resubscribe, (&execution,), r),
    ensures
        r.snapshot_task.deep_view() == execution.snapshot_task.deep_view(),
        r.min_sequence == execution.sequence,
        !r.done,
{
}

/// Every publication counts one event and takes over the task that the event
/// left; an event that left none leaves the task as it stands.
pub proof fn publications_keep_the_latest_task(
    before: ActiveExecutionView,
    snapshot: Option<TaskView>,
)
    requires
        before.sequence < u64::MAX,
    ensures
        ({
            let after = after_publication(before, snapshot);
            &&& after.sequence == before.sequence + 1
            &&& snapshot is Some ==> after.snapshot_task == snapshot
            &&& snapshot is None ==> after.snapshot_task == before.snapshot_task
        }),
{
}

/// An execution that was started runs under its handle until that very
/// execution is ended: ending another one, or another task's, ends neither
/// it nor anything else.
pub proof fn executions_end_by_their_own_handle(
    running: Map<Seq<char>, u64>,
    task_id: Seq<char>,
    handle: u64,
    other: Seq<char>,
    stale: u64,
)
    ensures
        ({
            let started = after_start(running, task_id, handle);
            &&& started.contains_key(task_id) && started[task_id] == handle
            &&& !after_finish(started, task_id, handle).contains_key(task_id)
            &&& stale != handle ==> after_finish(started, task_id, stale) == started
            &&& other != task_id ==> {
                &&& started.contains_key(other) <==> running.contains_key(other)
                &&& running.contains_key(other) ==> started[other] == running[other]
                &&& after_finish(started, task_id, handle).contains_key(other)
                    <==> running.contains_key(other)
                &&& running.contains_key(other) ==> after_finish(started, task_id, handle)[other]
                    == running[other]
            }
        }),
        !running.contains_key(task_id) ==> after_finish(running, task_id, handle) == running,
{
}

} // verus!
