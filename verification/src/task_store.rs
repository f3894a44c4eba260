//! Task storage: versions, terminal states and paged listings.

use vstd::prelude::*;

use crate::error_code;
use crate::pagination;
use crate::protocol::{
    A2AError, A2AErrorView, ListTasksRequest, ListTasksRequestView, ListTasksResponse, ListTasksResponseView,
    Message, MessageView, Task, TaskState, TaskView, Timestamp,
};
use crate::replica::Replica;
use crate::table;
use crate::table::Table;
use crate::text;

verus! {

/// Counts the writes of a task, from 1.
pub type TaskVersion = u64;

/// A task with its version.
#[derive(Debug, PartialEq, Eq)]
pub struct StoredTask {
    pub task: Task,
    pub version: TaskVersion,
}

/// What a [`StoredTask`] stands for.
#[verifier::ext_equal]
pub struct StoredTaskView {
    pub task: TaskView,
    pub version: nat,
}

impl DeepView for StoredTask {
    type V = StoredTaskView;

    open spec fn deep_view(&self) -> StoredTaskView {
        StoredTaskView { task: self.task.deep_view(), version: self.version as nat }
    }
}

/// The last `keep` messages of `history`; none when `keep` is not positive.
pub open spec fn recent(history: Seq<MessageView>, keep: int) -> Seq<MessageView> {
    if keep <= 0 {
        Seq::empty()
    } else if history.len() > keep {
        history.skip(history.len() - keep)
    } else {
        history
    }
}

/// `task` with its history cut to what the caller asked for.
pub open spec fn with_history_length(task: TaskView, history_length: Option<i32>) -> TaskView {
    match (history_length, task.history) {
        (Some(keep), Some(history)) => TaskView {
            history: Some(recent(history, keep as int)),
            ..task
        },
        _ => task,
    }
}

/// Cuts the history of `task` to its last `history_length` messages. An
/// absent length leaves it alone, and one that is not positive empties it.
pub fn apply_history_length(task: &mut Task, history_length: Option<i32>)
    ensures
        final(task).deep_view() == with_history_length(old(task).deep_view(), history_length),
{
    let ghost before = task.deep_view();
    if let Some(requested) = history_length {
        match task.history.take() {
            Some(history) => {
                let ghost all = history.deep_view();
                let mut history = history;
                let kept: Vec<Message> = if requested <= 0 {
                    Vec::new()
                } else {
                    let keep: usize = requested as usize;
                    if history.len() > keep {
                        let at: usize = history.len() - keep;
                        history.split_off(at)
                    } else {
                        history
                    }
                };
                assert(kept.deep_view() =~= recent(all, requested as int));
                task.history = Some(kept);
            },
            None => {
                task.history = None;
            },
        }
    }
    assert(task.deep_view() == with_history_length(before, history_length));
}

/// The name of a state, as diagnostics spell it.
pub open spec fn state_name(state: TaskState) -> Seq<char> {
    match state {
        TaskState::Unspecified => "Unspecified"@,
        TaskState::Submitted => "Submitted"@,
        TaskState::Working => "Working"@,
        TaskState::Completed => "Completed"@,
        TaskState::Failed => "Failed"@,
        TaskState::Canceled => "Canceled"@,
        TaskState::InputRequired => "InputRequired"@,
        TaskState::Rejected => "Rejected"@,
        TaskState::AuthRequired => "AuthRequired"@,
    }
}

fn name_of_state(state: TaskState) -> (r: &'static str)
    ensures
        r@ == state_name(state),
{
    match state {
        TaskState::Unspecified => "Unspecified",
        TaskState::Submitted => "Submitted",
        TaskState::Working => "Working",
        TaskState::Completed => "Completed",
        TaskState::Failed => "Failed",
        TaskState::Canceled => "Canceled",
        TaskState::InputRequired => "InputRequired",
        TaskState::Rejected => "Rejected",
        TaskState::AuthRequired => "AuthRequired",
    }
}

/// Whether a stored task may be overwritten by one in state `next`: a
/// terminal state stays as it is.
pub open spec fn may_become(current: TaskState, next: TaskState) -> bool {
    !current.terminal() || current == next
}

/// `chrono::Utc::now` reads the system clock. Nothing is claimed of the
/// moment it gives.
#[verifier::external_body]
pub(crate) fn utc_now() -> Timestamp {
    let now = chrono::Utc::now();
    Timestamp { seconds: now.timestamp(), nanoseconds: now.timestamp_subsec_nanos() }
}

/// Tasks kept in memory. They do not survive a restart.
pub struct InMemoryTaskStore {
    tasks: Table<StoredTask>,
}

impl View for InMemoryTaskStore {
    type V = Map<Seq<char>, StoredTaskView>;

    closed spec fn view(&self) -> Map<Seq<char>, StoredTaskView> {
        self.tasks@
    }
}

/// `task` canceled at `now`.
pub open spec fn canceled(task: TaskView, now: Timestamp) -> TaskView {
    TaskView {
        status: crate::protocol::TaskStatusView {
            state: TaskState::Canceled,
            timestamp: Some(now),
            ..task.status
        },
        ..task
    }
}

/// The store after a request to create `task`.
pub open spec fn after_create(
    stored: Map<Seq<char>, StoredTaskView>,
    task: TaskView,
) -> Map<Seq<char>, StoredTaskView> {
    if stored.contains_key(task.id) {
        stored
    } else {
        stored.insert(task.id, StoredTaskView { task, version: 1 })
    }
}

/// Whether a request to update to `task` is granted.
pub open spec fn update_granted(
    stored: Map<Seq<char>, StoredTaskView>,
    task: TaskView,
) -> bool {
    stored.contains_key(task.id) && may_become(
        stored[task.id].task.status.state,
        task.status.state,
    )
}

/// The error that the terminal task `current` cannot become `next`.
pub open spec fn frozen_error(current: TaskView, next: TaskView) -> A2AErrorView {
    A2AErrorView {
        code: error_code::INVALID_REQUEST,
        message: "task "@ + next.id + " is in terminal state "@ + state_name(current.status.state)
            + " and cannot transition to "@ + state_name(next.status.state),
    }
}

/// The store after a request to update to `task`.
pub open spec fn after_update(
    stored: Map<Seq<char>, StoredTaskView>,
    task: TaskView,
) -> Map<Seq<char>, StoredTaskView> {
    if update_granted(stored, task) {
        stored.insert(
            task.id,
            StoredTaskView { task, version: stored[task.id].version + 1 },
        )
    } else {
        stored
    }
}

/// Whether a request to cancel `id` is granted.
pub open spec fn cancel_granted(stored: Map<Seq<char>, StoredTaskView>, id: Seq<char>) -> bool {
    stored.contains_key(id) && !stored[id].task.status.state.terminal()
}

/// The store after a request at `now` to cancel `id`.
pub open spec fn after_cancel(
    stored: Map<Seq<char>, StoredTaskView>,
    id: Seq<char>,
    now: Timestamp,
) -> Map<Seq<char>, StoredTaskView> {
    if cancel_granted(stored, id) {
        stored.insert(
            id,
            StoredTaskView {
                task: canceled(stored[id].task, now),
                version: stored[id].version + 1,
            },
        )
    } else {
        stored
    }
}

/// Whether `task` is among those that `req` asks for.
pub open spec fn wanted(task: TaskView, req: ListTasksRequestView) -> bool {
    &&& req.context_id matches Some(context_id) ==> task.context_id == context_id
    &&& req.status matches Some(state) ==> task.status.state == state
}

/// Whether `all` lists exactly the stored tasks that `req` asks for, each
/// once, by ascending identifier.
pub open spec fn is_listing(
    stored: Map<Seq<char>, StoredTaskView>,
    req: ListTasksRequestView,
    all: Seq<TaskView>,
) -> bool {
    &&& forall|i: int, j: int|
        0 <= i < j < all.len() ==> table::key_lt(#[trigger] all[i].id, #[trigger] all[j].id)
    &&& forall|task: TaskView| #[trigger]
        all.contains(task) <==> stored.contains_key(task.id) && stored[task.id].task == task
            && wanted(task, req)
}

/// The offset that a page token names; a token that is no number names none.
pub open spec fn token_offset(token: Option<Seq<char>>) -> Option<nat> {
    match token {
        Some(t) => text::parsed(t, usize::MAX as nat),
        None => Some(0),
    }
}

/// The page of `all` that answers `req`, from offset `start` on.
pub open spec fn listing_page(
    all: Seq<TaskView>,
    req: ListTasksRequestView,
    start: nat,
) -> ListTasksResponseView {
    let size = pagination::page_size(req.page_size);
    let end = pagination::page_end(start as int, size, all.len() as int);
    ListTasksResponseView {
        tasks: pagination::page(all, start as int, size).map_values(
            |task: TaskView| with_history_length(task, req.history_length),
        ),
        next_page_token: if end < all.len() {
            text::decimal(end as nat)
        } else {
            Seq::empty()
        },
        page_size: size as i32,
        total_size: all.len() as i32,
    }
}

/// Whether `response` answers `req`: it is the page, from the offset that the
/// request's token names, of what the store holds for the request.
pub open spec fn answers(
    stored: Map<Seq<char>, StoredTaskView>,
    req: ListTasksRequestView,
    response: ListTasksResponseView,
) -> bool {
    token_offset(req.page_token) matches Some(start) && exists|all: Seq<TaskView>| #[trigger]
        is_listing(stored, req, all) && all.len() <= usize::MAX && response == listing_page(
            all,
            req,
            start,
        )
}

impl InMemoryTaskStore {
    #[verifier::type_invariant]
    spec fn well_formed(self) -> bool {
        forall|id: Seq<char>| #[trigger]
            self.tasks@.contains_key(id) ==> self.tasks@[id].task.id == id
    }

    /// A store without tasks.
    pub fn new() -> (r: Self)
        ensures
            r@ == Map::<Seq<char>, StoredTaskView>::empty(),
    {
        InMemoryTaskStore { tasks: Table::new() }
    }

    /// The version of the task `task_id`.
    pub fn version_of(&self, task_id: &str) -> (r: Option<TaskVersion>)
        ensures
            match r {
                Some(version) => self@.contains_key(task_id@) && version
                    == self@[task_id@].version,
                None => !self@.contains_key(task_id@),
            },
    {
        match self.tasks.get(task_id) {
            Some(stored) => Some(stored.version),
            None => None,
        }
    }

    /// Whether `task` may be written over the stored one.
    pub fn grants_update(&self, task: &Task) -> (r: bool)
        ensures
            r == update_granted(self@, task.deep_view()),
    {
        match self.tasks.get(task.id.as_str()) {
            Some(stored) => {
                let current = stored.task.status.state;
                !current.is_terminal() || current == task.status.state
            },
            None => false,
        }
    }

    /// Whether the task `task_id` may be canceled.
    pub fn grants_cancel(&self, task_id: &str) -> (r: bool)
        ensures
            r == cancel_granted(self@, task_id@),
    {
        match self.tasks.get(task_id) {
            Some(stored) => !stored.task.status.state.is_terminal(),
            None => false,
        }
    }

    fn put(&mut self, id: String, stored: StoredTask)
        requires
            stored.task.id@ == id@,
        ensures
            final(self)@ == old(self)@.insert(id@, stored.deep_view()),
    {
        proof {
            use_type_invariant(&*self);
        }
        let mut tasks: Table<StoredTask> = Table::new();
        std::mem::swap(&mut tasks, &mut self.tasks);
        tasks.insert(id, stored);
        self.tasks = tasks;
    }

    /// Stores a new task, at version 1.
    pub fn create(&mut self, task: Task) -> (r: Result<TaskVersion, A2AError>)
        ensures
            final(self)@ == after_create(old(self)@, task.deep_view()),
            match r {
                Ok(version) => !old(self)@.contains_key(task.id@) && version == 1,
                Err(error) => {
                    &&& old(self)@.contains_key(task.id@)
                    &&& error.code == error_code::INTERNAL_ERROR
                    &&& error.message@ == "task already exists"@
                },
            },
    {
        if self.tasks.contains_key(task.id.as_str()) {
            return Err(A2AError::internal("task already exists"));
        }
        let id = task.id.clone();
        self.put(id, StoredTask { task, version: 1 });
        Ok(1)
    }

    /// Overwrites a stored task and counts the write. A terminal task keeps
    /// its state: it may be written again in that state, never in another.
    pub fn update(&mut self, task: Task) -> (r: Result<TaskVersion, A2AError>)
        requires
            update_granted(old(self)@, task.deep_view()) ==> old(self)@[task.id@].version
                < u64::MAX,
        ensures
            final(self)@ == after_update(old(self)@, task.deep_view()),
            match r {
                Ok(version) => {
                    &&& update_granted(old(self)@, task.deep_view())
                    &&& version == old(self)@[task.id@].version + 1
                },
                Err(error) => {
                    &&& !update_granted(old(self)@, task.deep_view())
                    &&& error.deep_view() == if old(self)@.contains_key(task.id@) {
                        frozen_error(old(self)@[task.id@].task, task.deep_view())
                    } else {
                        error_code::not_found(task.id@)
                    }
                },
            },
    {
        let (current, version): (TaskState, u64) = match self.tasks.get(task.id.as_str()) {
            Some(stored) => (stored.task.status.state, stored.version),
            None => {
                return Err(A2AError::task_not_found(task.id.as_str()));
            },
        };
        if current.is_terminal() && current != task.status.state {
            let mut message = "task ".to_string();
            message.append(task.id.as_str());
            message.append(" is in terminal state ");
            message.append(name_of_state(current));
            message.append(" and cannot transition to ");
            message.append(name_of_state(task.status.state));
            return Err(A2AError::invalid_request(message.as_str()));
        }
        let version: u64 = version + 1;
        let id = task.id.clone();
        self.put(id, StoredTask { task, version });
        Ok(version)
    }

    /// Cancels a task at the moment `now`, unless it has ended.
    pub fn begin_cancel_at(&mut self, task_id: &str, now: Timestamp) -> (r: Result<Task, A2AError>)
        requires
            cancel_granted(old(self)@, task_id@) ==> old(self)@[task_id@].version < u64::MAX,
        ensures
            final(self)@ == after_cancel(old(self)@, task_id@, now),
            match r {
                Ok(task) => {
                    &&& cancel_granted(old(self)@, task_id@)
                    &&& task.deep_view() == canceled(old(self)@[task_id@].task, now)
                    &&& final(self)@[task_id@].task == task.deep_view()
                },
                Err(error) => {
                    &&& !cancel_granted(old(self)@, task_id@)
                    &&& error.deep_view() == if old(self)@.contains_key(task_id@) {
                        error_code::not_cancelable(task_id@)
                    } else {
                        error_code::not_found(task_id@)
                    }
                },
            },
    {
        proof {
            use_type_invariant(&*self);
        }
        let (task, version): (Task, u64) = match self.tasks.get(task_id) {
            Some(stored) => (stored.task.clone(), stored.version),
            None => {
                return Err(A2AError::task_not_found(task_id));
            },
        };
        if task.status.state.is_terminal() {
            return Err(A2AError::task_not_cancelable(task_id));
        }
        let mut task = task;
        task.status.state = TaskState::Canceled;
        task.status.timestamp = Some(now);
        let copy = task.clone();
        self.put(task_id.to_string(), StoredTask { task: copy, version: version + 1 });
        Ok(task)
    }

    /// Cancels a task now, unless it has ended.
    pub fn begin_cancel(&mut self, task_id: &str) -> (r: Result<Task, A2AError>)
        requires
            cancel_granted(old(self)@, task_id@) ==> old(self)@[task_id@].version < u64::MAX,
        ensures
            match r {
                Ok(task) => {
                    &&& cancel_granted(old(self)@, task_id@)
                    &&& exists|now: Timestamp|
                        {
                            &&& final(self)@ == #[trigger] after_cancel(old(self)@, task_id@, now)
                            &&& task.deep_view() == canceled(old(self)@[task_id@].task, now)
                        }
                    &&& final(self)@[task_id@].task == task.deep_view()
                },
                Err(error) => {
                    &&& final(self)@ == old(self)@
                    &&& !cancel_granted(old(self)@, task_id@)
                    &&& error.deep_view() == if old(self)@.contains_key(task_id@) {
                        error_code::not_cancelable(task_id@)
                    } else {
                        error_code::not_found(task_id@)
                    }
                },
            },
    {
        let now = utc_now();
        self.begin_cancel_at(task_id, now)
    }

    /// The task `task_id`, if it is stored.
    pub fn get(&self, task_id: &str) -> (r: Result<Option<Task>, A2AError>)
        ensures
            r matches Ok(found) && found.deep_view() == (if self@.contains_key(task_id@) {
                Some(self@[task_id@].task)
            } else {
                None
            }),
    {
        match self.tasks.get(task_id) {
            Some(stored) => Ok(Some(stored.task.clone())),
            None => Ok(None),
        }
    }
}

fn is_wanted(task: &Task, req: &ListTasksRequest) -> (r: bool)
    ensures
        r == wanted(task.deep_view(), req.deep_view()),
{
    if let Some(context_id) = &req.context_id {
        if task.context_id != *context_id {
            return false;
        }
    }
    if let Some(state) = &req.status {
        if task.status.state != *state {
            return false;
        }
    }
    true
}

impl InMemoryTaskStore {
    /// Every stored task that `req` asks for, by ascending identifier.
    fn matching(&self, req: &ListTasksRequest) -> (r: Vec<Task>)
        ensures
            is_listing(self@, req.deep_view(), r.deep_view()),
    {
        proof {
            use_type_invariant(self);
        }
        let mut out: Vec<Task> = Vec::new();
        let total: usize = self.tasks.len();
        let mut i: usize = 0;
        while i < total
            invariant
                i <= total == self.tasks.keys().len(),
                self.well_formed(),
                forall|a: int, b: int|
                    0 <= a < b < self.tasks.keys().len() ==> table::key_lt(
                        #[trigger] self.tasks.keys()[a],
                        #[trigger] self.tasks.keys()[b],
                    ),
                forall|k: Seq<char>| #[trigger]
                    self.tasks@.contains_key(k) <==> self.tasks.keys().contains(k),
                forall|a: int, b: int|
                    0 <= a < b < out.deep_view().len() ==> table::key_lt(
                        #[trigger] out.deep_view()[a].id,
                        #[trigger] out.deep_view()[b].id,
                    ),
                forall|a: int|
                    0 <= a < out.deep_view().len() ==> {
                        &&& self@.contains_key((#[trigger] out.deep_view()[a]).id)
                        &&& self@[out.deep_view()[a].id].task == out.deep_view()[a]
                        &&& wanted(out.deep_view()[a], req.deep_view())
                        &&& exists|b: int|
                            0 <= b < i && #[trigger] self.tasks.keys()[b] == out.deep_view()[a].id
                    },
                forall|b: int|
                    0 <= b < i && wanted(
                        self@[#[trigger] self.tasks.keys()[b]].task,
                        req.deep_view(),
                    ) ==> out.deep_view().contains(self@[self.tasks.keys()[b]].task),
            decreases total - i,
        {
            let ghost before = out.deep_view();
            let (id, stored) = self.tasks.entry(i);
            assert(self.tasks.keys()[i as int] == id@);
            if is_wanted(&stored.task, req) {
                let task = stored.task.clone();
                let ghost view = task.deep_view();
                out.push(task);
                proof {
                    assert(out.deep_view() =~= before.push(view));
                    assert(view == self@[id@].task && view.id == id@);
                    assert(out.deep_view()[before.len() as int] == view);
                    assert forall|b: int|
                        0 <= b < i + 1 && wanted(
                            self@[#[trigger] self.tasks.keys()[b]].task,
                            req.deep_view(),
                        ) implies out.deep_view().contains(
                        self@[self.tasks.keys()[b]].task,
                    ) by {
                        if b < i {
                            let t = self@[self.tasks.keys()[b]].task;
                            let a = choose|a: int| 0 <= a < before.len() && before[a] == t;
                            assert(out.deep_view()[a] == t);
                        }
                    }
                    assert forall|a: int, b: int|
                        0 <= a < b < out.deep_view().len() implies table::key_lt(
                        #[trigger] out.deep_view()[a].id,
                        #[trigger] out.deep_view()[b].id,
                    ) by {
                        assert(out.deep_view()[a] == before[a]);
                        if b < before.len() {
                            assert(out.deep_view()[b] == before[b]);
                        }
                    }
                    assert forall|a: int| 0 <= a < out.deep_view().len() implies {
                        &&& self@.contains_key((#[trigger] out.deep_view()[a]).id)
                        &&& self@[out.deep_view()[a].id].task == out.deep_view()[a]
                        &&& wanted(out.deep_view()[a], req.deep_view())
                        &&& exists|b: int|
                            0 <= b < i + 1 && #[trigger] self.tasks.keys()[b]
                                == out.deep_view()[a].id
                    } by {
                        if a < before.len() {
                            assert(out.deep_view()[a] == before[a]);
                        }
                    }
                }
            }
            i += 1;
        }
        proof {
            let all = out.deep_view();
            assert forall|task: TaskView| #[trigger] all.contains(task) <==> self@.contains_key(
                task.id,
            ) && self@[task.id].task == task && wanted(task, req.deep_view()) by {
                if all.contains(task) {
                    let a = choose|a: int| 0 <= a < all.len() && all[a] == task;
                    assert(all[a] == task);
                }
                if self@.contains_key(task.id) && self@[task.id].task == task && wanted(
                    task,
                    req.deep_view(),
                ) {
                    assert(self.tasks.keys().contains(task.id));
                    let b = choose|b: int|
                        0 <= b < self.tasks.keys().len() && self.tasks.keys()[b] == task.id;
                    assert(self.tasks.keys()[b] == task.id);
                }
            }
        }
        out
    }

    /// Lists the tasks that `req` asks for, one page at a time, by ascending
    /// identifier.
    pub fn list(&self, req: &ListTasksRequest) -> (r: Result<ListTasksResponse, A2AError>)
        ensures
            is_keyed(self@),
            match token_offset(req.page_token.deep_view()) {
                Some(_) => r matches Ok(response) && answers(
                    self@,
                    req.deep_view(),
                    response.deep_view(),
                ),
                None => r matches Err(error) && error.code == error_code::INVALID_PARAMS
                    && error.message@ == "invalid page token"@,
            },
    {
        proof {
            use_type_invariant(self);
        }
        let tasks = self.matching(req);
        let size: usize = pagination::resolve_page_size(req.page_size);
        let start: usize = match &req.page_token {
            Some(token) => match text::parse_usize(token.as_str()) {
                Some(offset) => offset,
                None => {
                    return Err(A2AError::invalid_params("invalid page token"));
                },
            },
            None => 0,
        };
        let ghost all = tasks.deep_view();
        let ghost offset = start as nat;
        let total: usize = tasks.len();
        let start: usize = if start < total {
            start
        } else {
            total
        };
        let end: usize = if size < total - start {
            start + size
        } else {
            total
        };
        let ghost full = pagination::page(all, offset as int, size as int);
        let ghost goal = listing_page(all, req.deep_view(), offset).tasks;
        let mut page: Vec<Task> = Vec::new();
        let mut i: usize = start;
        while i < end
            invariant
                start <= i <= end <= tasks@.len(),
                tasks.deep_view() == all,
                full == all.subrange(start as int, end as int),
                goal == full.map_values(
                    |task: TaskView| with_history_length(task, req.deep_view().history_length),
                ),
                page.deep_view() == goal.take(i - start),
            decreases end - i,
        {
            let mut task = tasks[i].clone();
            assert(full[i - start] == all[i as int]);
            apply_history_length(&mut task, req.history_length);
            let ghost before = page.deep_view();
            page.push(task);
            assert(page.deep_view() =~= before.push(task.deep_view()));
            assert(goal.take(i + 1 - start) =~= goal.take(i - start).push(goal[i - start]));
            i += 1;
        }
        assert(goal.take(end - start) =~= goal);
        let next_page_token = if end < total {
            text::to_decimal(end as u64)
        } else {
            String::new()
        };
        let response = ListTasksResponse {
            tasks: page,
            next_page_token,
            page_size: size as i32,
            total_size: #[verifier::truncate]
            (total as i32),
        };
        assert(response.deep_view() == listing_page(all, req.deep_view(), offset));
        Ok(response)
    }
}

impl Default for InMemoryTaskStore {
    fn default() -> (r: Self)
        ensures
            r@ == Map::<Seq<char>, StoredTaskView>::empty(),
    {
        InMemoryTaskStore::new()
    }
}

/// A request that writes to the store.
pub enum Write {
    Create(TaskView),
    Update(TaskView),
    Cancel(Seq<char>, Timestamp),
}

/// The store after one request.
pub open spec fn after_write(
    stored: Map<Seq<char>, StoredTaskView>,
    write: Write,
) -> Map<Seq<char>, StoredTaskView> {
    match write {
        Write::Create(task) => after_create(stored, task),
        Write::Update(task) => after_update(stored, task),
        Write::Cancel(id, now) => after_cancel(stored, id, now),
    }
}

/// The store after a series of requests.
pub open spec fn after_writes(
    stored: Map<Seq<char>, StoredTaskView>,
    writes: Seq<Write>,
) -> Map<Seq<char>, StoredTaskView>
    decreases writes.len(),
{
    if writes.len() == 0 {
        stored
    } else {
        after_write(after_writes(stored, writes.drop_last()), writes.last())
    }
}

/// A task that is stored stays stored, and once it is in a terminal state no
/// series of requests moves it to another.
pub proof fn terminal_states_are_final(
    stored: Map<Seq<char>, StoredTaskView>,
    writes: Seq<Write>,
    id: Seq<char>,
)
    requires
        stored.contains_key(id),
    ensures
        after_writes(stored, writes).contains_key(id),
        stored[id].task.status.state.terminal() ==> after_writes(
            stored,
            writes,
        )[id].task.status.state == stored[id].task.status.state,
    decreases writes.len(),
{
    if writes.len() > 0 {
        terminal_states_are_final(stored, writes.drop_last(), id);
    }
}

/// Versions never go down, and a task that changed has a greater version: a
/// version names one value of a task.
pub proof fn versions_tell_changes_apart(
    stored: Map<Seq<char>, StoredTaskView>,
    writes: Seq<Write>,
    id: Seq<char>,
)
    requires
        stored.contains_key(id),
    ensures
        after_writes(stored, writes).contains_key(id),
        after_writes(stored, writes)[id].version >= stored[id].version,
        after_writes(stored, writes)[id].task != stored[id].task ==> after_writes(
            stored,
            writes,
        )[id].version > stored[id].version,
    decreases writes.len(),
{
    if writes.len() > 0 {
        versions_tell_changes_apart(stored, writes.drop_last(), id);
    }
}

/// A created task is what a read then gives back, at version 1, and no other
/// task is touched.
pub proof fn created_tasks_are_read_back(stored: Map<Seq<char>, StoredTaskView>, task: TaskView)
    requires
        !stored.contains_key(task.id),
    ensures
        after_create(stored, task).contains_key(task.id),
        after_create(stored, task)[task.id] == (StoredTaskView { task, version: 1 }),
        after_create(stored, task).remove(task.id) == stored,
{
    assert(after_create(stored, task).remove(task.id) =~= stored);
}

/// A canceled task is terminal, so a second cancel is refused and changes
/// nothing.
pub proof fn a_second_cancel_is_refused(
    stored: Map<Seq<char>, StoredTaskView>,
    id: Seq<char>,
    now: Timestamp,
    later: Timestamp,
)
    requires
        cancel_granted(stored, id),
    ensures
        after_cancel(stored, id, now)[id].task.status.state == TaskState::Canceled,
        !cancel_granted(after_cancel(stored, id, now), id),
        after_cancel(after_cancel(stored, id, now), id, later) == after_cancel(stored, id, now),
{
}

proof fn lemma_writes_compose(
    stored: Map<Seq<char>, StoredTaskView>,
    first: Seq<Write>,
    then_these: Seq<Write>,
)
    ensures
        after_writes(stored, first + then_these) == after_writes(
            after_writes(stored, first),
            then_these,
        ),
    decreases then_these.len(),
{
    let both = first + then_these;
    if then_these.len() == 0 {
        assert(both =~= first);
    } else {
        assert(both.drop_last() =~= first + then_these.drop_last());
        lemma_writes_compose(stored, first, then_these.drop_last());
    }
}

/// Of any requests to cancel one task, whatever is written between them, at
/// most one is granted: once one was, every later one finds the task ended
/// and leaves the store as it is.
pub proof fn at_most_one_cancel_is_granted(
    stored: Map<Seq<char>, StoredTaskView>,
    writes: Seq<Write>,
    id: Seq<char>,
    granted: int,
    later: int,
    now: Timestamp,
)
    requires
        0 <= granted < later <= writes.len(),
        writes[granted] matches Write::Cancel(canceled_id, _) && canceled_id == id,
        cancel_granted(after_writes(stored, writes.take(granted)), id),
    ensures
        ({
            let reached = after_writes(stored, writes.take(later));
            &&& reached.contains_key(id)
            &&& reached[id].task.status.state == TaskState::Canceled
            &&& !cancel_granted(reached, id)
            &&& after_cancel(reached, id, now) == reached
        }),
{
    let before = after_writes(stored, writes.take(granted));
    let upto = writes.take(granted + 1);
    let rest = writes.subrange(granted + 1, later);
    assert(upto.drop_last() =~= writes.take(granted));
    assert(writes.take(later) =~= upto + rest);
    lemma_writes_compose(stored, upto, rest);
    let canceled_now = after_writes(stored, upto);
    assert(canceled_now == after_write(before, writes[granted]));
    assert(canceled_now[id].task.status.state == TaskState::Canceled);
    terminal_states_are_final(canceled_now, rest, id);
}

/// Whether every task is stored under its own identifier.
pub open spec fn is_keyed(stored: Map<Seq<char>, StoredTaskView>) -> bool {
    forall|id: Seq<char>| #[trigger] stored.contains_key(id) ==> stored[id].task.id == id
}

/// Whatever is written, every task stays stored under its own identifier.
pub proof fn tasks_are_stored_under_their_own_ids(
    stored: Map<Seq<char>, StoredTaskView>,
    writes: Seq<Write>,
)
    requires
        is_keyed(stored),
    ensures
        is_keyed(after_writes(stored, writes)),
    decreases writes.len(),
{
    if writes.len() > 0 {
        tasks_are_stored_under_their_own_ids(stored, writes.drop_last());
    }
}

/// There is one listing: the stored tasks and the request determine it.
pub proof fn listings_are_unique(
    stored: Map<Seq<char>, StoredTaskView>,
    req: ListTasksRequestView,
    a: Seq<TaskView>,
    b: Seq<TaskView>,
)
    requires
        is_listing(stored, req, a),
        is_listing(stored, req, b),
    ensures
        a == b,
    decreases a.len(),
{
    lemma_ascending_sequences_agree(a, b);
}

proof fn lemma_ascending_sequences_agree(a: Seq<TaskView>, b: Seq<TaskView>)
    requires
        forall|i: int, j: int|
            0 <= i < j < a.len() ==> table::key_lt(#[trigger] a[i].id, #[trigger] a[j].id),
        forall|i: int, j: int|
            0 <= i < j < b.len() ==> table::key_lt(#[trigger] b[i].id, #[trigger] b[j].id),
        forall|t: TaskView| a.contains(t) <==> #[trigger] b.contains(t),
    ensures
        a == b,
    decreases a.len(),
{
    if a.len() == 0 {
        if b.len() > 0 {
            assert(b.contains(b[0]));
        }
        assert(a =~= b);
    } else {
        assert(a.contains(a[0]));
        assert(b.contains(a[0]));
        assert(b.len() > 0);
        assert(b.contains(b[0]));
        assert(a.contains(b[0]));
        let i = choose|i: int| 0 <= i < b.len() && b[i] == a[0];
        let j = choose|j: int| 0 <= j < a.len() && a[j] == b[0];
        if i > 0 && j > 0 {
            assert(table::key_lt(b[0].id, b[i].id));
            assert(table::key_lt(a[0].id, a[j].id));
            text::text_le_antisymmetric(a[0].id, b[0].id);
        }
        assert(a[0] == b[0]);
        let x = a.drop_first();
        let y = b.drop_first();
        assert forall|t: TaskView| x.contains(t) <==> #[trigger] y.contains(t) by {
            if x.contains(t) {
                let k = choose|k: int| 0 <= k < x.len() && x[k] == t;
                assert(a[k + 1] == t);
                assert(a.contains(t));
                assert(b.contains(t));
                let m = choose|m: int| 0 <= m < b.len() && b[m] == t;
                assert(table::key_lt(a[0].id, a[k + 1].id));
                assert(m > 0);
                assert(y[m - 1] == t);
            }
            if y.contains(t) {
                let k = choose|k: int| 0 <= k < y.len() && y[k] == t;
                assert(b[k + 1] == t);
                assert(b.contains(t));
                assert(a.contains(t));
                let m = choose|m: int| 0 <= m < a.len() && a[m] == t;
                assert(table::key_lt(b[0].id, b[k + 1].id));
                assert(m > 0);
                assert(x[m - 1] == t);
            }
        }
        assert forall|p: int, q: int| 0 <= p < q < x.len() implies table::key_lt(
            #[trigger] x[p].id,
            #[trigger] x[q].id,
        ) by {
            assert(x[p] == a[p + 1] && x[q] == a[q + 1]);
        }
        assert forall|p: int, q: int| 0 <= p < q < y.len() implies table::key_lt(
            #[trigger] y[p].id,
            #[trigger] y[q].id,
        ) by {
            assert(y[p] == b[p + 1] && y[q] == b[q + 1]);
        }
        lemma_ascending_sequences_agree(x, y);
        assert(a =~= seq![a[0]] + x);
        assert(b =~= seq![b[0]] + y);
    }
}

/// A page never holds more than the maximum. Its token, if it has one, names
/// the offset right behind its last task; without one the page reaches the
/// end of the listing.
pub proof fn page_tokens_continue_the_listing(
    all: Seq<TaskView>,
    req: ListTasksRequestView,
    start: nat,
)
    requires
        start <= all.len() <= usize::MAX,
    ensures
        ({
            let response = listing_page(all, req, start);
            let next = start + response.tasks.len();
            &&& response.tasks.len() <= pagination::MAX_PAGE_SIZE
            &&& if response.next_page_token.len() > 0 {
                &&& token_offset(Some(response.next_page_token)) == Some(next)
                &&& start < next < all.len()
            } else {
                next == all.len()
            }
        }),
{
    let size = pagination::page_size(req.page_size);
    let end = pagination::page_end(start as int, size, all.len() as int);
    text::decimal_round_trip(end as nat, usize::MAX as nat);
}

/// Whether the page at `i` is the one that the token of the page before it
/// names.
pub open spec fn follows(
    stored: Map<Seq<char>, StoredTaskView>,
    req: ListTasksRequestView,
    pages: Seq<ListTasksResponseView>,
    i: int,
) -> bool {
    let token = pages[i - 1].next_page_token;
    &&& token.len() > 0
    &&& answers(stored, ListTasksRequestView { page_token: Some(token), ..req }, pages[i])
}

/// Whether `pages` is what a caller gets that asks for the first page of what
/// `req` asks for, and then for the page that each token names.
pub open spec fn is_walk(
    stored: Map<Seq<char>, StoredTaskView>,
    req: ListTasksRequestView,
    pages: Seq<ListTasksResponseView>,
) -> bool {
    &&& pages.len() > 0
    &&& answers(stored, ListTasksRequestView { page_token: None, ..req }, pages[0])
    &&& forall|i: int| 0 < i < pages.len() ==> #[trigger] follows(stored, req, pages, i)
}

/// The tasks of `pages`, in order.
pub open spec fn walked(pages: Seq<ListTasksResponseView>) -> Seq<TaskView>
    decreases pages.len(),
{
    if pages.len() == 0 {
        Seq::empty()
    } else {
        walked(pages.drop_last()) + pages.last().tasks
    }
}

/// What a caller is shown of the tasks in `all`.
pub open spec fn shown(all: Seq<TaskView>, req: ListTasksRequestView) -> Seq<TaskView> {
    all.map_values(|task: TaskView| with_history_length(task, req.history_length))
}

proof fn lemma_page_of_walk(
    stored: Map<Seq<char>, StoredTaskView>,
    req: ListTasksRequestView,
    all: Seq<TaskView>,
    token: Option<Seq<char>>,
    start: nat,
    response: ListTasksResponseView,
)
    requires
        is_listing(stored, req, all),
        token_offset(token) == Some(start),
        answers(stored, ListTasksRequestView { page_token: token, ..req }, response),
    ensures
        all.len() <= usize::MAX,
        response == listing_page(all, req, start),
{
    let asked = ListTasksRequestView { page_token: token, ..req };
    let other = choose|other: Seq<TaskView>| #[trigger]
        is_listing(stored, asked, other) && other.len() <= usize::MAX && response == listing_page(
            other,
            asked,
            start,
        );
    assert(is_listing(stored, asked, all));
    listings_are_unique(stored, asked, all, other);
}

proof fn lemma_next_page(
    all: Seq<TaskView>,
    req: ListTasksRequestView,
    before: Seq<TaskView>,
    page: ListTasksResponseView,
)
    requires
        before.len() <= all.len() <= usize::MAX,
        before == shown(all, req).take(before.len() as int),
        page == listing_page(all, req, before.len()),
    ensures
        ({
            let got = before + page.tasks;
            &&& got.len() <= all.len()
            &&& got == shown(all, req).take(got.len() as int)
            &&& if page.next_page_token.len() > 0 {
                &&& token_offset(Some(page.next_page_token)) == Some(got.len())
                &&& before.len() < got.len() < all.len()
                &&& page.tasks.len() == pagination::page_size(req.page_size)
            } else {
                got.len() == all.len()
            }
        }),
{
    let start = before.len() as int;
    let size = pagination::page_size(req.page_size);
    let end = pagination::page_end(start, size, all.len() as int);
    page_tokens_continue_the_listing(all, req, before.len());
    assert(page.tasks =~= shown(all, req).subrange(start, end));
    assert(before + page.tasks =~= shown(all, req).take(end));
    text::lemma_decimal_digits(end as nat);
}

/// Whether `walked(pages)` is how far a walk over `all` came.
spec fn walk_reached(
    all: Seq<TaskView>,
    req: ListTasksRequestView,
    pages: Seq<ListTasksResponseView>,
) -> bool {
    let got = walked(pages);
    &&& got.len() <= all.len()
    &&& got == shown(all, req).take(got.len() as int)
    &&& pages.len() <= got.len() + 1
    &&& if pages.last().next_page_token.len() > 0 {
        &&& token_offset(Some(pages.last().next_page_token)) == Some(got.len())
        &&& pages.len() <= got.len() < all.len()
    } else {
        got.len() == all.len()
    }
}

spec fn page_is_regular(
    all: Seq<TaskView>,
    req: ListTasksRequestView,
    page: ListTasksResponseView,
) -> bool {
    &&& page.total_size == all.len() as i32
    &&& page.next_page_token.len() > 0 ==> page.tasks.len() == pagination::page_size(req.page_size)
}

proof fn lemma_walk(
    stored: Map<Seq<char>, StoredTaskView>,
    req: ListTasksRequestView,
    all: Seq<TaskView>,
    pages: Seq<ListTasksResponseView>,
)
    requires
        is_listing(stored, req, all),
        is_walk(stored, req, pages),
    ensures
        walk_reached(all, req, pages),
        forall|i: int| 0 <= i < pages.len() ==> page_is_regular(all, req, #[trigger] pages[i]),
    decreases pages.len(),
{
    let init = pages.drop_last();
    let before = walked(init);
    let page = pages.last();
    if init.len() == 0 {
        lemma_page_of_walk(stored, req, all, None, 0, pages[0]);
        assert(before =~= shown(all, req).take(0));
    } else {
        assert(is_walk(stored, req, init)) by {
            assert forall|i: int| 0 < i < init.len() implies #[trigger] follows(
                stored,
                req,
                init,
                i,
            ) by {
                assert(follows(stored, req, pages, i));
            }
        }
        lemma_walk(stored, req, all, init);
        let k = pages.len() - 1;
        assert(follows(stored, req, pages, k));
        assert(init.last() == pages[k - 1]);
        lemma_page_of_walk(
            stored,
            req,
            all,
            Some(pages[k - 1].next_page_token),
            before.len(),
            page,
        );
    }
    lemma_next_page(all, req, before, page);
    assert forall|i: int| 0 <= i < pages.len() implies page_is_regular(
        all,
        req,
        #[trigger] pages[i],
    ) by {
        if i < init.len() {
            assert(pages[i] == init[i]);
        }
    }
}

/// A caller that follows the page tokens of a store that does not change gets
/// every task that it asks for exactly once, by ascending identifier, and
/// comes to the end: there is a next page as long as there is a token, and no
/// more pages than tasks, but one. All pages but the last are full, and each
/// tells the same total.
pub proof fn walks_give_every_task_once(
    stored: Map<Seq<char>, StoredTaskView>,
    req: ListTasksRequestView,
    all: Seq<TaskView>,
    pages: Seq<ListTasksResponseView>,
)
    requires
        is_keyed(stored),
        is_listing(stored, req, all),
        is_walk(stored, req, pages),
    ensures
        pages.len() <= all.len() + 1,
        forall|i: int|
            0 <= i < pages.len() ==> {
                &&& (#[trigger] pages[i]).total_size == pages[0].total_size
                &&& i < pages.len() - 1 ==> pages[i].tasks.len() == pagination::page_size(
                    req.page_size,
                )
            },
        pages.last().next_page_token.len() > 0 ==> token_offset(
            Some(pages.last().next_page_token),
        ) is Some,
        pages.last().next_page_token.len() == 0 ==> {
            &&& forall|i: int, j: int|
                0 <= i < j < walked(pages).len() ==> table::key_lt(
                    #[trigger] walked(pages)[i].id,
                    #[trigger] walked(pages)[j].id,
                )
            &&& forall|i: int|
                0 <= i < walked(pages).len() ==> {
                    let task = #[trigger] walked(pages)[i];
                    &&& stored.contains_key(task.id)
                    &&& wanted(stored[task.id].task, req)
                    &&& task == with_history_length(stored[task.id].task, req.history_length)
                }
            &&& forall|id: Seq<char>| #[trigger]
                stored.contains_key(id) && wanted(stored[id].task, req) ==> exists|i: int|
                    0 <= i < walked(pages).len() && #[trigger] walked(pages)[i].id == id
        },
{
    lemma_walk(stored, req, all, pages);
    let got = walked(pages);
    assert(page_is_regular(all, req, pages[0]));
    assert forall|i: int| 0 <= i < pages.len() - 1 implies (#[trigger] pages[i]).tasks.len()
        == pagination::page_size(req.page_size) by {
        assert(follows(stored, req, pages, i + 1));
    }
    if pages.last().next_page_token.len() == 0 {
        assert(got =~= shown(all, req));
        assert forall|i: int| 0 <= i < got.len() implies {
            let task = #[trigger] got[i];
            &&& task.id == all[i].id
            &&& stored.contains_key(task.id)
            &&& wanted(stored[task.id].task, req)
            &&& task == with_history_length(stored[task.id].task, req.history_length)
        } by {
            assert(all.contains(all[i]));
        }
        assert forall|i: int, j: int| 0 <= i < j < got.len() implies table::key_lt(
            #[trigger] got[i].id,
            #[trigger] got[j].id,
        ) by {
            assert(got[i].id == all[i].id && got[j].id == all[j].id);
        }
        assert forall|id: Seq<char>| #[trigger]
            stored.contains_key(id) && wanted(stored[id].task, req) implies exists|i: int|
            0 <= i < got.len() && #[trigger] got[i].id == id by {
            assert(all.contains(stored[id].task));
            let i = choose|i: int| 0 <= i < all.len() && all[i] == stored[id].task;
            assert(got[i].id == id);
        }
    }
}

/// Histories only ever lose their oldest messages.
pub proof fn shortened_histories_keep_the_newest(history: Seq<MessageView>, keep: int)
    ensures
        recent(history, keep).is_suffix_of(history),
        keep > 0 ==> recent(history, keep).len() == (if history.len() > keep {
            keep
        } else {
            history.len() as int
        }),
        keep <= 0 ==> recent(history, keep).len() == 0,
{
}

/// Whether `task` is in the context that `req` names, if it names one, and in
/// the state that it names, if it names one.
pub open spec fn passes_both_filters(task: TaskView, req: ListTasksRequestView) -> bool {
    match (req.context_id, req.status) {
        (Some(context_id), Some(state)) => task.context_id == context_id && task.status.state
            == state,
        (Some(context_id), None) => task.context_id == context_id,
        (None, Some(state)) => task.status.state == state,
        (None, None) => true,
    }
}

/// Every task that a list request is answered with is stored, is in the
/// context that the request names and in the state that it names, as far as it
/// names them, and is shown as it is stored but for the length of its history.
pub proof fn listed_tasks_pass_both_filters(
    store: InMemoryTaskStore,
    req: ListTasksRequest,
    r: Result<ListTasksResponse, A2AError>,
    i: int,
)
    requires
        call_ensures(InMemoryTaskStore::list, (&store, &req), r),
        r is Ok,
        0 <= i < r->Ok_0.tasks@.len(),
    ensures
        ({
            let task = r->Ok_0.tasks@[i];
            let held = store@[task.id@].task;
            &&& store@.contains_key(task.id@)
            &&& req.context_id matches Some(context_id) ==> held.context_id == context_id@
            &&& req.status matches Some(state) ==> held.status.state == state
            &&& req.context_id matches Some(context_id) ==> task.context_id@ == context_id@
            &&& req.status matches Some(state) ==> task.status.state == state
            &&& task.deep_view().context_id == held.context_id
            &&& task.deep_view().status == held.status
            &&& task.deep_view().artifacts == held.artifacts
            &&& task.deep_view().metadata == held.metadata
            &&& req.history_length is None ==> task.deep_view().history == held.history
        }),
{
    let response = r->Ok_0.deep_view();
    let view = req.deep_view();
    let start = token_offset(view.page_token)->0;
    assert(view.page_token == req.page_token.deep_view());
    assert(token_offset(req.page_token.deep_view()) is Some);
    assert(answers(store@, view, response));
    assert(response.tasks.len() == r->Ok_0.tasks@.len());
    let all = choose|all: Seq<TaskView>| #[trigger]
        is_listing(store@, view, all) && all.len() <= usize::MAX && response == listing_page(
            all,
            view,
            start,
        );
    let size = pagination::page_size(view.page_size);
    let full = pagination::page(all, start as int, size);
    assert(response.tasks[i] == with_history_length(full[i], view.history_length));
    assert(all.contains(full[i])) by {
        let from = pagination::page_start(start as int, all.len() as int);
        assert(full[i] == all[from + i]);
    }
}

/// A caller that follows the page tokens to the end has got every stored task
/// that is in the context that the request names and in the state that it
/// names, as far as it names them, on some page.
pub proof fn matching_tasks_are_on_some_page(
    stored: Map<Seq<char>, StoredTaskView>,
    req: ListTasksRequestView,
    all: Seq<TaskView>,
    pages: Seq<ListTasksResponseView>,
    id: Seq<char>,
)
    requires
        is_keyed(stored),
        is_listing(stored, req, all),
        is_walk(stored, req, pages),
        pages.last().next_page_token.len() == 0,
        stored.contains_key(id),
        passes_both_filters(stored[id].task, req),
    ensures
        exists|p: int, i: int|
            0 <= p < pages.len() && 0 <= i < pages[p].tasks.len()
                && #[trigger] pages[p].tasks[i].id == id,
{
    walks_give_every_task_once(stored, req, all, pages);
    let i = choose|i: int| 0 <= i < walked(pages).len() && #[trigger] walked(pages)[i].id == id;
    lemma_walked_is_on_a_page(pages, i);
}

proof fn lemma_walked_is_on_a_page(pages: Seq<ListTasksResponseView>, i: int)
    requires
        0 <= i < walked(pages).len(),
    ensures
        exists|p: int, k: int|
            0 <= p < pages.len() && 0 <= k < pages[p].tasks.len()
                && #[trigger] pages[p].tasks[k].id == walked(pages)[i].id,
    decreases pages.len(),
{
    let init = pages.drop_last();
    let n = walked(init).len();
    if i < n {
        lemma_walked_is_on_a_page(init, i);
        let (p, k) = choose|p: int, k: int|
            0 <= p < init.len() && 0 <= k < init[p].tasks.len()
                && #[trigger] init[p].tasks[k].id == walked(init)[i].id;
        assert(pages[p].tasks[k].id == walked(pages)[i].id);
    } else {
        let p = pages.len() - 1;
        assert(pages[p].tasks[i - n].id == walked(pages)[i].id);
    }
}

/// The listing that a list request pages through holds exactly the stored
/// tasks that pass both filters, and a page tells how many they are and how
/// many it may hold.
pub proof fn listings_hold_what_passes_both_filters(
    stored: Map<Seq<char>, StoredTaskView>,
    req: ListTasksRequestView,
    response: ListTasksResponseView,
)
    requires
        answers(stored, req, response),
    ensures
        exists|all: Seq<TaskView>|
            {
                &&& forall|task: TaskView| #[trigger]
                    all.contains(task) <==> stored.contains_key(task.id) && stored[task.id].task
                        == task && passes_both_filters(task, req)
                &&& all.no_duplicates()
                &&& response.total_size == #[trigger] all.len() as i32
                &&& response.tasks.len() <= all.len()
            },
        req.page_size matches Some(size) ==> (0 < size <= 100 ==> response.page_size == size),
        req.page_size matches Some(size) && 100 < size ==> response.page_size == 100,
        req.page_size matches Some(size) && size <= 0 ==> response.page_size == 50,
        req.page_size is None ==> response.page_size == 50,
        response.tasks.len() <= response.page_size,
{
    let start = token_offset(req.page_token)->0;
    let all = choose|all: Seq<TaskView>| #[trigger]
        is_listing(stored, req, all) && all.len() <= usize::MAX && response == listing_page(
            all,
            req,
            start,
        );
    assert(all.no_duplicates()) by {
        assert forall|i: int, j: int| 0 <= i < all.len() && 0 <= j < all.len() && i
            != j implies all[i] != all[j] by {
            if i < j {
                assert(table::key_lt(all[i].id, all[j].id));
            } else {
                assert(table::key_lt(all[j].id, all[i].id));
            }
        }
    }
}

/// A task that is cut to its newest messages keeps everything else: the
/// identifier, the context, the status, the artifacts and the metadata. Of the
/// history there are as many messages as were asked for, or all where there
/// are no more, and they are the last ones; without a number it is complete.
pub proof fn shown_tasks_differ_in_their_history_alone(
    task: TaskView,
    history_length: Option<i32>,
)
    ensures
        ({
            let shown = with_history_length(task, history_length);
            &&& shown.id == task.id
            &&& shown.context_id == task.context_id
            &&& shown.status == task.status
            &&& shown.artifacts == task.artifacts
            &&& shown.metadata == task.metadata
            &&& shown.history is Some <==> task.history is Some
            &&& history_length is None ==> shown.history == task.history
            &&& history_length matches Some(keep) ==> (task.history matches Some(history) ==> (
            shown.history matches Some(kept) && {
                &&& keep <= 0 ==> kept.len() == 0
                &&& 0 < keep <= history.len() ==> kept.len() == keep
                &&& keep > history.len() ==> kept.len() == history.len()
                &&& forall|i: int|
                    0 <= i < kept.len() ==> #[trigger] kept[i] == history[history.len()
                        - kept.len() + i]
            }))
        }),
{
}

/// A canceled task has the state and the time of the cancel, and everything
/// else as it was: its message, identifier, context, artifacts, history and
/// metadata. It is the only stored task that changes.
pub proof fn cancels_change_only_the_state(
    stored: Map<Seq<char>, StoredTaskView>,
    id: Seq<char>,
    now: Timestamp,
)
    requires
        stored.contains_key(id),
    ensures
        ({
            let before = stored[id];
            let after = after_cancel(stored, id, now)[id];
            let ended = before.task.status.state.terminal();
            &&& ended ==> after == before
            &&& !ended ==> {
                &&& after.task.status.state == TaskState::Canceled
                &&& after.task.status.timestamp == Some(now)
                &&& after.task.status.message == before.task.status.message
                &&& after.task.id == before.task.id
                &&& after.task.context_id == before.task.context_id
                &&& after.task.artifacts == before.task.artifacts
                &&& after.task.history == before.task.history
                &&& after.task.metadata == before.task.metadata
                &&& after.version == before.version + 1
            }
        }),
        forall|other: Seq<char>|
            other != id ==> {
                &&& #[trigger] after_cancel(stored, id, now).contains_key(other)
                    <==> stored.contains_key(other)
                &&& stored.contains_key(other) ==> after_cancel(stored, id, now)[other]
                    == stored[other]
            },
        after_cancel(stored, id, now).contains_key(id),
{
}

/// An update stores the task exactly as it was given and counts one write,
/// unless nothing is stored under its identifier or the stored task has ended
/// in another state. It is the only stored task that changes.
pub proof fn updates_store_the_task_as_given(
    stored: Map<Seq<char>, StoredTaskView>,
    task: TaskView,
)
    ensures
        ({
            let after = after_update(stored, task);
            let current = stored[task.id].task.status.state;
            let refused = !stored.contains_key(task.id) || (current != task.status.state && (current
                == TaskState::Completed || current == TaskState::Failed || current
                == TaskState::Canceled || current == TaskState::Rejected));
            &&& refused <==> !update_granted(stored, task)
            &&& refused ==> after == stored
            &&& !refused ==> {
                &&& after.contains_key(task.id)
                &&& after[task.id].task == task
                &&& after[task.id].version == stored[task.id].version + 1
                &&& forall|other: Seq<char>|
                    other != task.id ==> {
                        &&& #[trigger] after.contains_key(other) <==> stored.contains_key(other)
                        &&& stored.contains_key(other) ==> after[other] == stored[other]
                    }
            }
        }),
{
}

/// A task that is created is stored exactly as it was given, as its first
/// version; one that is stored already is not touched, and neither is any
/// other.
pub proof fn creating_touches_nothing_else(
    stored: Map<Seq<char>, StoredTaskView>,
    task: TaskView,
)
    ensures
        ({
            let after = after_create(stored, task);
            &&& stored.contains_key(task.id) ==> after == stored
            &&& !stored.contains_key(task.id) ==> {
                &&& after.contains_key(task.id)
                &&& after[task.id].task == task
                &&& after[task.id].version == 1
                &&& forall|other: Seq<char>|
                    other != task.id ==> {
                        &&& #[trigger] after.contains_key(other) <==> stored.contains_key(other)
                        &&& stored.contains_key(other) ==> after[other] == stored[other]
                    }
            }
        }),
{
}

/// A cancel is granted exactly to a stored task that was neither completed,
/// failed, canceled nor rejected.
pub proof fn only_running_tasks_are_canceled(
    stored: Map<Seq<char>, StoredTaskView>,
    id: Seq<char>,
)
    ensures
        cancel_granted(stored, id) <==> {
            let state = stored[id].task.status.state;
            &&& stored.contains_key(id)
            &&& state != TaskState::Completed
            &&& state != TaskState::Failed
            &&& state != TaskState::Canceled
            &&& state != TaskState::Rejected
        },
{
}

/// A task that has ended says so when it is to change: the refusal names the
/// task, the state it is in and the state it was to be in, and different
/// states have different names.
pub proof fn refusals_name_both_states(current: TaskView, next: TaskView, other: TaskState)
    ensures
        frozen_error(current, next).code == error_code::INVALID_REQUEST,
        frozen_error(current, next).message == "task "@ + next.id + " is in terminal state "@
            + state_name(current.status.state) + " and cannot transition to "@ + state_name(
            next.status.state,
        ),
        state_name(next.status.state) == state_name(other) ==> next.status.state == other,
{
    reveal_strlit("Unspecified");
    reveal_strlit("Submitted");
    reveal_strlit("Working");
    reveal_strlit("Completed");
    reveal_strlit("Failed");
    reveal_strlit("Canceled");
    reveal_strlit("InputRequired");
    reveal_strlit("Rejected");
    reveal_strlit("AuthRequired");
    assert("Unspecified"@.len() == 11 && "Submitted"@.len() == 9 && "Working"@.len() == 7);
    assert("Completed"@.len() == 9 && "Failed"@.len() == 6 && "Canceled"@.len() == 8);
    assert("InputRequired"@.len() == 13 && "Rejected"@.len() == 8 && "AuthRequired"@.len() == 12);
    assert("Submitted"@[0] == 'S' && "Completed"@[0] == 'C');
    assert("Canceled"@[0] == 'C' && "Rejected"@[0] == 'R');
}

/// A list request is refused exactly where it has a page token that is no
/// number, as a mistake in its parameters.
pub proof fn only_bad_tokens_are_refused(
    store: InMemoryTaskStore,
    req: ListTasksRequest,
    r: Result<ListTasksResponse, A2AError>,
)
    requires
        call_ensures(InMemoryTaskStore::list, (&store, &req), r),
    ensures
        r is Err <==> req.page_token is Some && text::parsed(
            req.page_token->0@,
            usize::MAX as nat,
        ) is None,
        r matches Err(error) ==> error.code == error_code::INVALID_PARAMS,
{
}

} // verus!
