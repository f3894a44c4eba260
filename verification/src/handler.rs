//! How requests are answered, whatever the transport.

use vstd::prelude::*;

use crate::drive;
use crate::error_code;
use crate::events;
use crate::execution;
use crate::execution::{ActiveExecution, Item, Subscription, SubscriptionView};
use crate::order;
use crate::order::Ranked;
use crate::pagination;
use crate::protocol::{
    A2AError, A2AErrorView, AgentCapabilities, AgentCapabilitiesView, AgentCard, CancelTaskRequest,
    GetTaskRequest, ListTaskPushNotificationConfigsRequest,
    ListTaskPushNotificationConfigsRequestView, ListTaskPushNotificationConfigsResponse,
    ListTaskPushNotificationConfigsResponseView, ListTasksRequest, ListTasksRequestView,
    ListTasksResponse, ListTasksResponseView, Members, MembersView, Message, MessageView,
    SendMessageRequest, SendMessageRequestView, SendMessageResponse, SendMessageResponseView,
    StreamResponse, StreamResponseView, Task, TaskPushNotificationConfig,
    TaskPushNotificationConfigView, TaskState, TaskStatus, TaskStatusView, TaskView, Timestamp,
};
use crate::replica::Replica;
use crate::table::Table;
use crate::task_store;
use crate::task_store::StoredTaskView;
use crate::text;

verus! {

/// The parameters that travel beside a request: names with their values.
pub type ServiceParams = Table<Vec<String>>;

/// What [`ServiceParams`] stand for.
pub type ServiceParamsView = Map<Seq<char>, Seq<Seq<char>>>;

impl Default for AgentCapabilities {
    fn default() -> (r: Self)
        ensures
            r.deep_view() == no_capabilities(),
    {
        AgentCapabilities {
            streaming: None,
            push_notifications: None,
            extensions: None,
            extended_agent_card: None,
        }
    }
}

/// Capabilities that declare nothing.
pub open spec fn no_capabilities() -> AgentCapabilitiesView {
    AgentCapabilitiesView {
        streaming: None,
        push_notifications: None,
        extensions: None,
        extended_agent_card: None,
    }
}

/// Whether the caller presented credentials: an `authorization` parameter
/// with a value that is not blank.
pub open spec fn has_credentials(params: ServiceParamsView) -> bool {
    params.contains_key("authorization"@) && exists|i: int|
        0 <= i < params["authorization"@].len() && text::trimmed(
            #[trigger] params["authorization"@][i],
        ).len() > 0
}

/// The error of a caller without credentials.
pub open spec fn authentication_required() -> A2AErrorView {
    A2AErrorView {
        code: error_code::INVALID_REQUEST,
        message: "authentication required"@,
    }
}

fn any_visible(values: &Vec<String>) -> (r: bool)
    ensures
        r == exists|i: int|
            0 <= i < values.deep_view().len() && text::trimmed(
                #[trigger] values.deep_view()[i],
            ).len() > 0,
{
    let mut i: usize = 0;
    while i < values.len()
        invariant
            i <= values@.len(),
            forall|k: int|
                0 <= k < i ==> text::trimmed(#[trigger] values.deep_view()[k]).len() == 0,
        decreases values@.len() - i,
    {
        let visible = text::trim(values[i].as_str());
        assert(values.deep_view()[i as int] == values@[i as int]@);
        if visible.as_str().unicode_len() > 0 {
            return true;
        }
        i += 1;
    }
    false
}

/// What the executor is told about a turn.
pub struct ExecutorContext {
    pub message: Option<Message>,
    pub task_id: String,
    pub stored_task: Option<Task>,
    pub context_id: String,
    pub metadata: Option<Members>,
    pub service_params: ServiceParams,
    pub tenant: Option<String>,
}

/// What an [`ExecutorContext`] stands for.
pub struct ExecutorContextView {
    pub message: Option<MessageView>,
    pub task_id: Seq<char>,
    pub stored_task: Option<TaskView>,
    pub context_id: Seq<char>,
    pub metadata: Option<MembersView>,
    pub service_params: ServiceParamsView,
    pub tenant: Option<Seq<char>>,
}

impl DeepView for ExecutorContext {
    type V = ExecutorContextView;

    open spec fn deep_view(&self) -> ExecutorContextView {
        ExecutorContextView {
            message: self.message.deep_view(),
            task_id: self.task_id@,
            stored_task: self.stored_task.deep_view(),
            context_id: self.context_id@,
            metadata: self.metadata.deep_view(),
            service_params: self.service_params@,
            tenant: self.tenant.deep_view(),
        }
    }
}

/// A task that is ready to be worked on.
pub struct PreparedTask {
    pub task: Task,
    /// The task as it was stored; absent for a new task.
    pub stored: Option<Task>,
    pub context_id: String,
}

/// The task that a message is for: the one it names, or a new one.
pub fn task_id_for_message(req: &SendMessageRequest, fresh_task_id: String) -> (r: String)
    ensures
        r@ == (match req.message.task_id {
            Some(id) => id@,
            None => fresh_task_id@,
        }),
{
    match &req.message.task_id {
        Some(id) => id.clone(),
        None => fresh_task_id,
    }
}

/// The context of a turn: the stored task's, else the message's, else a new
/// one.
pub open spec fn turn_context(
    stored: Option<TaskView>,
    message: MessageView,
    fresh_context_id: Seq<char>,
) -> Seq<char> {
    match (stored, message.context_id) {
        (Some(task), _) => task.context_id,
        (None, Some(context_id)) => context_id,
        (None, None) => fresh_context_id,
    }
}

/// The task that a message starts.
pub open spec fn new_task(
    task_id: Seq<char>,
    context_id: Seq<char>,
    message: MessageView,
    now: Timestamp,
) -> TaskView {
    TaskView {
        id: task_id,
        context_id,
        status: TaskStatusView {
            state: TaskState::Submitted,
            message: None,
            timestamp: Some(now),
        },
        artifacts: None,
        history: Some(seq![message]),
        metadata: None,
    }
}

/// Prepares the task `task_id` for a turn: the stored one is continued, and
/// where there is none the message starts one, which has to be created.
pub fn prepare_task_for_execution(
    req: &SendMessageRequest,
    task_id: String,
    stored: Option<Task>,
    fresh_context_id: String,
    now: Timestamp,
) -> (r: PreparedTask)
    ensures
        r.stored.deep_view() == stored.deep_view(),
        r.context_id@ == turn_context(
            stored.deep_view(),
            req.message.deep_view(),
            fresh_context_id@,
        ),
        r.task.deep_view() == match stored.deep_view() {
            Some(task) => task,
            None => new_task(task_id@, r.context_id@, req.message.deep_view(), now),
        },
{
    let context_id = match &stored {
        Some(task) => task.context_id.clone(),
        None => match &req.message.context_id {
            Some(context_id) => context_id.clone(),
            None => fresh_context_id,
        },
    };
    let task = match &stored {
        Some(task) => task.clone(),
        None => {
            let mut history: Vec<Message> = Vec::new();
            history.push(req.message.clone());
            assert(history.deep_view() =~= seq![req.message.deep_view()]);
            Task {
                id: task_id,
                context_id: context_id.clone(),
                status: TaskStatus {
                    state: TaskState::Submitted,
                    message: None,
                    timestamp: Some(now),
                },
                artifacts: None,
                history: Some(history),
                metadata: None,
            }
        },
    };
    PreparedTask { task, stored, context_id }
}

/// What the executor is told when a message starts a turn. A blocking caller's
/// executor sees the task as it was prepared, a streaming one's as it was
/// stored.
pub fn execution_context(
    params: &ServiceParams,
    req: SendMessageRequest,
    prepared: &PreparedTask,
    include_task_snapshot: bool,
) -> (r: ExecutorContext)
    ensures
        r.deep_view() == (ExecutorContextView {
            message: Some(req.message.deep_view()),
            task_id: prepared.task.id@,
            stored_task: if include_task_snapshot {
                Some(prepared.task.deep_view())
            } else {
                prepared.stored.deep_view()
            },
            context_id: prepared.context_id@,
            metadata: req.metadata.deep_view(),
            service_params: params@,
            tenant: req.tenant.deep_view(),
        }),
{
    let stored_task = if include_task_snapshot {
        Some(prepared.task.clone())
    } else {
        prepared.stored.replica()
    };
    ExecutorContext {
        message: Some(req.message),
        task_id: prepared.task.id.clone(),
        stored_task,
        context_id: prepared.context_id.clone(),
        metadata: req.metadata,
        service_params: params.replica(),
        tenant: req.tenant,
    }
}

/// What the executor is told when `task` is to be canceled.
pub fn cancel_context(params: &ServiceParams, req: CancelTaskRequest, task: &Task) -> (r:
    ExecutorContext)
    ensures
        r.deep_view() == (ExecutorContextView {
            message: None,
            task_id: req.id@,
            stored_task: Some(task.deep_view()),
            context_id: task.context_id@,
            metadata: req.metadata.deep_view(),
            service_params: params@,
            tenant: req.tenant.deep_view(),
        }),
{
    ExecutorContext {
        message: None,
        task_id: req.id,
        stored_task: Some(task.clone()),
        context_id: task.context_id.clone(),
        metadata: req.metadata,
        service_params: params.replica(),
        tenant: req.tenant,
    }
}

/// A read that must find the task.
pub open spec fn required_task(
    task_id: Seq<char>,
    found: Result<Option<TaskView>, A2AErrorView>,
) -> Result<TaskView, A2AErrorView> {
    match found {
        Ok(Some(task)) => Ok(task),
        Ok(None) => Err(error_code::not_found(task_id)),
        Err(error) => Err(error),
    }
}

/// What a fallible task stands for.
pub open spec fn task_view(task: Result<Task, A2AError>) -> Result<TaskView, A2AErrorView> {
    match task {
        Ok(task) => Ok(task.deep_view()),
        Err(error) => Err(error.deep_view()),
    }
}

/// The task that a read of `task_id` gave back; it is an error that there is
/// none.
pub fn load_task(task_id: &str, found: Result<Option<Task>, A2AError>) -> (r: Result<
    Task,
    A2AError,
>)
    ensures
        task_view(r) == required_task(task_id@, events::read_view(found)),
{
    match found {
        Ok(Some(task)) => Ok(task),
        Ok(None) => Err(A2AError::task_not_found(task_id)),
        Err(error) => Err(error),
    }
}

/// What a caller that asks for the task `task_id` is shown of what the store
/// gave back.
pub open spec fn shown_task(
    task_id: Seq<char>,
    history_length: Option<i32>,
    found: Result<Option<TaskView>, A2AErrorView>,
) -> Result<TaskView, A2AErrorView> {
    match required_task(task_id, found) {
        Ok(task) => Ok(task_store::with_history_length(task, history_length)),
        Err(error) => Err(error),
    }
}

/// The answer to a request for a task, given what the store has of it: the
/// history is cut to what the caller asked for.
pub fn get_task(req: &GetTaskRequest, found: Result<Option<Task>, A2AError>) -> (r: Result<
    Task,
    A2AError,
>)
    ensures
        task_view(r) == shown_task(req.id@, req.history_length, events::read_view(found)),
{
    let mut task = match load_task(req.id.as_str(), found) {
        Ok(task) => task,
        Err(error) => {
            return Err(error);
        },
    };
    task_store::apply_history_length(&mut task, req.history_length);
    Ok(task)
}

/// A list request with the page size that will be served.
pub open spec fn bounded_request(req: ListTasksRequestView) -> ListTasksRequestView {
    ListTasksRequestView { page_size: Some(pagination::page_size(req.page_size) as i32), ..req }
}

/// Bounds the page size of a list request before a store sees it.
pub fn bound_list_request(req: ListTasksRequest) -> (r: ListTasksRequest)
    ensures
        r.deep_view() == bounded_request(req.deep_view()),
        r.page_size matches Some(size) && 1 <= size <= pagination::MAX_PAGE_SIZE,
        pagination::page_size(r.page_size) == pagination::page_size(req.page_size),
{
    let size: usize = pagination::resolve_page_size(req.page_size);
    let mut req = req;
    req.page_size = Some(size as i32);
    req
}

/// A page that holds no more than the maximum, whatever the store gave back.
pub fn bound_list_response(response: ListTasksResponse) -> (r: ListTasksResponse)
    ensures
        r.deep_view() == (ListTasksResponseView {
            tasks: if response.tasks.deep_view().len() > pagination::MAX_PAGE_SIZE {
                response.tasks.deep_view().take(pagination::MAX_PAGE_SIZE as int)
            } else {
                response.tasks.deep_view()
            },
            ..response.deep_view()
        }),
        r.tasks@.len() <= pagination::MAX_PAGE_SIZE,
{
    let ghost all = response.tasks.deep_view();
    let mut response = response;
    if response.tasks.len() > pagination::MAX_PAGE_SIZE {
        response.tasks.truncate(pagination::MAX_PAGE_SIZE);
        assert(response.tasks.deep_view() =~= all.take(pagination::MAX_PAGE_SIZE as int));
    }
    response
}

/// How a cancel starts.
pub enum CancelStart {
    /// The answer is known: the task has ended, or there is none.
    Answer { answer: Result<Task, A2AError> },
    /// Ask the executor to cancel `task`.
    Run { task: Task },
}

/// Starts a cancel of `task_id`, given what the store has of it. Canceling a
/// task that has ended changes nothing and gives the task back.
pub fn cancel_task(task_id: &str, found: Result<Option<Task>, A2AError>) -> (r: CancelStart)
    ensures
        match required_task(task_id@, events::read_view(found)) {
            Ok(task) => if task.status.state.terminal() {
                r matches CancelStart::Answer { answer } && task_view(answer) == Ok::<
                    TaskView,
                    A2AErrorView,
                >(task)
            } else {
                r matches CancelStart::Run { task: running } && running.deep_view() == task
            },
            Err(error) => r matches CancelStart::Answer { answer } && task_view(answer) == Err::<
                TaskView,
                A2AErrorView,
            >(error),
        },
{
    match load_task(task_id, found) {
        Ok(task) => if task.status.state.is_terminal() {
            CancelStart::Answer { answer: Ok(task) }
        } else {
            CancelStart::Run { task }
        },
        Err(error) => CancelStart::Answer { answer: Err(error) },
    }
}

/// A subscription to the running execution of `task_id`, if one runs.
pub fn subscribe_to_task(task_id: &str, active: Option<&ActiveExecution>) -> (r: Result<
    Subscription,
    A2AError,
>)
    ensures
        match active {
            Some(execution) => r matches Ok(subscription) && subscription.deep_view() == (
            SubscriptionView {
                snapshot_task: execution.snapshot_task.deep_view(),
                min_sequence: execution.sequence,
                done: false,
            }),
            None => r matches Err(error) && error.deep_view() == error_code::not_found(task_id@),
        },
{
    match active {
        Some(execution) => Ok(execution.resubscribe()),
        None => Err(A2AError::task_not_found(task_id)),
    }
}

/// What a blocking send does next.
pub enum Reply {
    /// Wait for the execution's next event.
    Wait { last: Option<StreamResponse> },
    /// Answer with the task `task_id`, as it is stored.
    Load { task_id: String },
    /// Answer with this.
    Answer { response: SendMessageResponse },
    /// Answer with this error.
    Fail { error: A2AError },
}

/// What a [`Reply`] stands for.
pub enum ReplyView {
    Wait { last: Option<StreamResponseView> },
    Load { task_id: Seq<char> },
    Answer { response: SendMessageResponseView },
    Fail { error: A2AErrorView },
}

impl DeepView for Reply {
    type V = ReplyView;

    open spec fn deep_view(&self) -> ReplyView {
        match self {
            Reply::Wait { last } => ReplyView::Wait { last: last.deep_view() },
            Reply::Load { task_id } => ReplyView::Load { task_id: task_id@ },
            Reply::Answer { response } => ReplyView::Answer { response: response.deep_view() },
            Reply::Fail { error } => ReplyView::Fail { error: error.deep_view() },
        }
    }
}

/// The answer once the execution is over: a task that came last is the
/// answer, after an update the stored task is.
pub open spec fn final_reply(task_id: Seq<char>, last: Option<StreamResponseView>) -> ReplyView {
    match last {
        Some(StreamResponseView::Task(task)) => ReplyView::Answer {
            response: SendMessageResponseView::Task(task),
        },
        Some(StreamResponseView::StatusUpdate(update)) => ReplyView::Load {
            task_id: update.task_id,
        },
        Some(StreamResponseView::ArtifactUpdate(update)) => ReplyView::Load {
            task_id: update.task_id,
        },
        Some(StreamResponseView::Message(message)) => ReplyView::Answer {
            response: SendMessageResponseView::Message(message),
        },
        None => ReplyView::Load { task_id },
    }
}

/// What a blocking send does with the execution's next event.
pub open spec fn reply_after(
    req: SendMessageRequestView,
    task_id: Seq<char>,
    last: Option<StreamResponseView>,
    item: Option<execution::ItemView>,
) -> ReplyView {
    match item {
        None => final_reply(task_id, last),
        Some(Err(error)) => ReplyView::Fail { error },
        Some(Ok(event)) => match events::interruption(req, event) {
            Some(interrupted) => ReplyView::Load { task_id: interrupted },
            None => match event {
                StreamResponseView::Message(message) => ReplyView::Answer {
                    response: SendMessageResponseView::Message(message),
                },
                other => ReplyView::Wait { last: Some(other) },
            },
        },
    }
}

/// Goes on with a blocking send of `req` when the execution of `task_id` gave
/// `item`, or ended; `last` is the event before it.
pub fn on_reply(
    req: &SendMessageRequest,
    task_id: &str,
    last: Option<StreamResponse>,
    item: Option<Item>,
) -> (r: Reply)
    ensures
        r.deep_view() == reply_after(
            req.deep_view(),
            task_id@,
            last.deep_view(),
            drive::next_view(item),
        ),
{
    let event = match item {
        None => {
            return match last {
                Some(StreamResponse::Task(task)) => Reply::Answer {
                    response: SendMessageResponse::Task(task),
                },
                Some(StreamResponse::StatusUpdate(update)) => Reply::Load {
                    task_id: update.task_id,
                },
                Some(StreamResponse::ArtifactUpdate(update)) => Reply::Load {
                    task_id: update.task_id,
                },
                Some(StreamResponse::Message(message)) => Reply::Answer {
                    response: SendMessageResponse::Message(message),
                },
                None => Reply::Load { task_id: task_id.to_string() },
            };
        },
        Some(Err(error)) => {
            return Reply::Fail { error };
        },
        Some(Ok(event)) => event,
    };
    if let Some(interrupted) = events::should_interrupt_non_streaming(req, &event) {
        return Reply::Load { task_id: interrupted };
    }
    match event {
        StreamResponse::Message(message) => Reply::Answer {
            response: SendMessageResponse::Message(message),
        },
        other => Reply::Wait { last: Some(other) },
    }
}

/// What a blocking request comes to when the execution publishes `items` and
/// ends.
pub open spec fn replied(
    req: SendMessageRequestView,
    task_id: Seq<char>,
    last: Option<StreamResponseView>,
    items: Seq<execution::ItemView>,
) -> ReplyView
    decreases items.len(),
{
    if items.len() == 0 {
        reply_after(req, task_id, last, None)
    } else {
        match reply_after(req, task_id, last, Some(items[0])) {
            ReplyView::Wait { last: seen } => replied(req, task_id, seen, items.drop_first()),
            reply => reply,
        }
    }
}

/// The answer that a reply comes to while the store holds `stored`.
pub open spec fn reply_answer(
    stored: Map<Seq<char>, StoredTaskView>,
    reply: ReplyView,
) -> Option<Result<SendMessageResponseView, A2AErrorView>> {
    match reply {
        ReplyView::Wait { .. } => None,
        ReplyView::Load { task_id } => Some(
            match required_task(task_id, Ok(events::stored_task(stored, task_id))) {
                Ok(task) => Ok(SendMessageResponseView::Task(task)),
                Err(error) => Err(error),
            },
        ),
        ReplyView::Answer { response } => Some(Ok(response)),
        ReplyView::Fail { error } => Some(Err(error)),
    }
}

/// The answer to a blocking request about `task`, whose executor gives
/// `items` while nobody else writes to the task.
pub open spec fn blocking_answer(
    stored: Map<Seq<char>, StoredTaskView>,
    req: SendMessageRequestView,
    task: TaskView,
    items: Seq<execution::ItemView>,
) -> Option<Result<SendMessageResponseView, A2AErrorView>> {
    reply_answer(
        drive::left_behind(stored, Some(task), items),
        replied(req, task.id, None, drive::published(stored, Some(task), items)),
    )
}

/// Whether an item of the executor is about the task `task_id`, if it is about
/// any, and does not ask for authentication.
pub open spec fn is_uninterrupted(item: execution::ItemView, task_id: Seq<char>) -> bool {
    item matches Ok(event) ==> {
        &&& event is Message || events::event_task(event) == Some(task_id)
        &&& match event {
            StreamResponseView::Task(task) => task.status.state != TaskState::AuthRequired,
            StreamResponseView::StatusUpdate(update) => update.status.state
                != TaskState::AuthRequired,
            _ => true,
        }
    }
}

/// Whether `last` is the event that left the task as `task`.
spec fn last_left(last: Option<StreamResponseView>, task: TaskView) -> bool {
    last matches Some(event) ==> {
        &&& events::event_task(event) == Some(task.id)
        &&& event matches StreamResponseView::Task(told) ==> told == task
    }
}

proof fn lemma_replies_agree(
    stored: Map<Seq<char>, StoredTaskView>,
    req: SendMessageRequestView,
    task: TaskView,
    last: Option<StreamResponseView>,
    items: Seq<execution::ItemView>,
)
    requires
        !events::wants_no_wait(req),
        events::stored_task(stored, task.id) == Some(task),
        last_left(last, task),
        forall|i: int| 0 <= i < items.len() ==> is_uninterrupted(#[trigger] items[i], task.id),
    ensures
        ({
            let left = drive::left_behind(stored, Some(task), items);
            let reply = replied(
                req,
                task.id,
                last,
                drive::published(stored, Some(task), items),
            );
            reply_answer(left, reply) matches Some(Ok(SendMessageResponseView::Task(answer)))
                ==> {
                &&& answer.id == task.id
                &&& events::stored_task(left, task.id) == Some(answer)
                &&& drive::has_ended(Some(task)) ==> answer.status.state.terminal()
                &&& items.len() > 0 && execution::ends_execution(items.last())
                    ==> answer.status.state.terminal()
            }
        }),
    decreases items.len(),
{
    let published = drive::published(stored, Some(task), items);
    if items.len() == 0 {
    } else if drive::has_ended(Some(task)) {
        drive::events_are_published_unchanged(stored, Some(task), items);
        reveal_with_fuel(drive::carried_out, 2);
    } else {
        assert(is_uninterrupted(items[0], task.id));
        match items[0] {
            Err(error) => {
                reveal_with_fuel(drive::carried_out, 2);
                assert(published =~= seq![Err::<StreamResponseView, A2AErrorView>(error)]);
            },
            Ok(event) => {
                drive::driving_applies_the_event(drive::Turn::Execute, stored, Some(task), event);
                match events::event_outcome(stored, Some(task), event) {
                    (after, Err(error)) => {
                        assert(published =~= seq![Err::<StreamResponseView, A2AErrorView>(error)]);
                    },
                    (after, Ok(updated)) => {
                        let result: execution::ItemView = Ok(event);
                        if events::is_final(event) {
                            assert(published =~= seq![result]);
                            assert(published.drop_first() =~= Seq::<execution::ItemView>::empty());
                        } else {
                            let next = updated->0;
                            let rest = items.drop_first();
                            let later = drive::published(after, updated, rest);
                            assert(published =~= seq![result] + later);
                            assert(published.drop_first() =~= later);
                            if event !is Message {
                                assert forall|i: int| 0 <= i < rest.len() implies is_uninterrupted(
                                    #[trigger] rest[i],
                                    next.id,
                                ) by {
                                    assert(rest[i] == items[i + 1]);
                                }
                                lemma_replies_agree(after, req, next, Some(event), rest);
                                if rest.len() > 0 {
                                    assert(rest.last() == items.last());
                                }
                            }
                        }
                    },
                }
            },
        }
    }
}

/// The answer to a blocking request and the stored task agree: a task that is
/// answered has ended, and a caller that asks for it right afterwards, with
/// its whole history, is shown that very task. The executor's events are about
/// the task, end with a terminal one and do not ask for authentication, which
/// is answered before the task ends.
pub proof fn blocking_answers_agree_with_the_store(
    stored: Map<Seq<char>, StoredTaskView>,
    req: SendMessageRequestView,
    task: TaskView,
    items: Seq<execution::ItemView>,
)
    requires
        !events::wants_no_wait(req),
        events::stored_task(stored, task.id) == Some(task),
        items.len() > 0,
        items.last() matches Ok(event) && events::is_final(event),
        forall|i: int| 0 <= i < items.len() ==> is_uninterrupted(#[trigger] items[i], task.id),
    ensures
        ({
            let left = drive::left_behind(stored, Some(task), items);
            blocking_answer(stored, req, task, items) matches Some(
                Ok(SendMessageResponseView::Task(answer)),
            ) ==> {
                &&& answer.status.state.terminal()
                &&& shown_task(answer.id, None, Ok(events::stored_task(left, answer.id))) == Ok::<
                    TaskView,
                    A2AErrorView,
                >(answer)
            }
        }),
{
    lemma_replies_agree(stored, req, task, None, items);
}

impl Ranked for TaskPushNotificationConfig {
    open spec fn ranks(
        a: TaskPushNotificationConfigView,
        b: TaskPushNotificationConfigView,
    ) -> bool {
        match (a.id, b.id) {
            (None, _) => true,
            (Some(_), None) => false,
            (Some(x), Some(y)) => text::text_le(x, y),
        }
    }

    proof fn ranks_total(a: TaskPushNotificationConfigView, b: TaskPushNotificationConfigView) {
        if a.id is Some && b.id is Some {
            text::text_le_total(a.id->0, b.id->0);
        }
    }

    proof fn ranks_transitive(
        a: TaskPushNotificationConfigView,
        b: TaskPushNotificationConfigView,
        c: TaskPushNotificationConfigView,
    ) {
        if a.id is Some && b.id is Some && c.id is Some {
            text::text_le_transitive(a.id->0, b.id->0, c.id->0);
        }
    }

    fn may_precede(&self, other: &Self) -> (r: bool) {
        match (&self.id, &other.id) {
            (None, _) => true,
            (Some(_), None) => false,
            (Some(x), Some(y)) => text::at_most(x.as_str(), y.as_str()),
        }
    }
}

/// The offset that a page token names; one that is no number names the start.
pub open spec fn lenient_offset(token: Option<Seq<char>>) -> nat {
    match task_store::token_offset(token) {
        Some(offset) => offset,
        None => 0,
    }
}

/// The page of `configs`, by ascending identifier, that answers `req`.
pub open spec fn push_config_page(
    configs: Seq<TaskPushNotificationConfigView>,
    req: ListTaskPushNotificationConfigsRequestView,
) -> ListTaskPushNotificationConfigsResponseView {
    let all = order::sorted::<TaskPushNotificationConfig>(configs);
    let start = lenient_offset(req.page_token) as int;
    let size = pagination::page_size(req.page_size);
    let end = pagination::page_end(start, size, all.len() as int);
    ListTaskPushNotificationConfigsResponseView {
        configs: pagination::page(all, start, size),
        next_page_token: if end < all.len() {
            Some(text::decimal(end as nat))
        } else {
            None
        },
    }
}

/// Answers a request for the push configurations of a task, given all of
/// them.
pub fn list_push_configs(
    configs: Vec<TaskPushNotificationConfig>,
    req: &ListTaskPushNotificationConfigsRequest,
) -> (r: ListTaskPushNotificationConfigsResponse)
    ensures
        r.deep_view() == push_config_page(configs.deep_view(), req.deep_view()),
        r.configs@.len() <= pagination::MAX_PAGE_SIZE,
{
    let size: usize = pagination::resolve_page_size(req.page_size);
    let offset: usize = match &req.page_token {
        Some(token) => match text::parse_usize(token.as_str()) {
            Some(offset) => offset,
            None => 0,
        },
        None => 0,
    };
    let mut sorted = order::sort(configs);
    let ghost all = sorted.deep_view();
    let total: usize = sorted.len();
    let start: usize = if offset < total {
        offset
    } else {
        total
    };
    let end: usize = if size < total - start {
        start + size
    } else {
        total
    };
    sorted.truncate(end);
    let page = sorted.split_off(start);
    assert(page.deep_view() =~= all.subrange(start as int, end as int));
    assert(page@.len() == page.deep_view().len());
    ListTaskPushNotificationConfigsResponse {
        configs: page,
        next_page_token: if end < total {
            Some(text::to_decimal(end as u64))
        } else {
            None
        },
    }
}

/// The rules that requests are held to.
pub struct DefaultRequestHandler {
    capabilities: AgentCapabilities,
    authenticated_only: bool,
    push_configs: bool,
}

/// What a [`DefaultRequestHandler`] stands for.
#[verifier::ext_equal]
pub struct DefaultRequestHandlerView {
    pub capabilities: AgentCapabilitiesView,
    pub authenticated_only: bool,
    pub push_configs: bool,
}

impl View for DefaultRequestHandler {
    type V = DefaultRequestHandlerView;

    closed spec fn view(&self) -> DefaultRequestHandlerView {
        DefaultRequestHandlerView {
            capabilities: self.capabilities.deep_view(),
            authenticated_only: self.authenticated_only,
            push_configs: self.push_configs,
        }
    }
}

impl DefaultRequestHandler {
    /// Everybody is served, and no push configurations are kept.
    pub fn new() -> (r: Self)
        ensures
            r@ == (DefaultRequestHandlerView {
                capabilities: no_capabilities(),
                authenticated_only: false,
                push_configs: false,
            }),
    {
        DefaultRequestHandler {
            capabilities: AgentCapabilities::default(),
            authenticated_only: false,
            push_configs: false,
        }
    }

    /// Push configurations are kept, and declared.
    pub fn with_push_notifications(self) -> (r: Self)
        ensures
            r@ == (DefaultRequestHandlerView {
                capabilities: AgentCapabilitiesView {
                    push_notifications: Some(true),
                    ..self@.capabilities
                },
                push_configs: true,
                ..self@
            }),
    {
        let mut handler = self;
        handler.capabilities.push_notifications = Some(true);
        handler.push_configs = true;
        handler
    }

    /// Push configurations are kept, and declared; the webhooks are called
    /// with the default limits.
    pub fn with_push_config_store(self) -> (r: Self)
        ensures
            r@ == (DefaultRequestHandlerView {
                capabilities: AgentCapabilitiesView {
                    push_notifications: Some(true),
                    ..self@.capabilities
                },
                push_configs: true,
                ..self@
            }),
    {
        self.with_push_notifications()
    }

    /// Declares `capabilities`.
    pub fn with_capabilities(self, capabilities: AgentCapabilities) -> (r: Self)
        ensures
            r@ == (DefaultRequestHandlerView {
                capabilities: capabilities.deep_view(),
                ..self@
            }),
    {
        let mut handler = self;
        handler.capabilities = capabilities;
        handler
    }

    /// Only callers with credentials are served.
    pub fn require_authentication(self) -> (r: Self)
        ensures
            r@ == (DefaultRequestHandlerView { authenticated_only: true, ..self@ }),
    {
        let mut handler = self;
        handler.authenticated_only = true;
        handler
    }

    /// What the handler declares.
    pub fn capabilities(&self) -> (r: &AgentCapabilities)
        ensures
            r.deep_view() == self@.capabilities,
    {
        &self.capabilities
    }

    /// Admits a request, unless credentials are required and missing.
    pub fn authorize(&self, params: &ServiceParams) -> (r: Result<(), A2AError>)
        ensures
            match r {
                Ok(_) => !self@.authenticated_only || has_credentials(params@),
                Err(error) => {
                    &&& self@.authenticated_only && !has_credentials(params@)
                    &&& error.deep_view() == authentication_required()
                },
            },
    {
        if !self.authenticated_only {
            return Ok(());
        }
        let admitted = match params.get("authorization") {
            Some(values) => any_visible(values),
            None => false,
        };
        if admitted {
            Ok(())
        } else {
            Err(A2AError::invalid_request("authentication required"))
        }
    }

    /// Admits a request about push configurations, if they are kept.
    pub fn push_config_store(&self) -> (r: Result<(), A2AError>)
        ensures
            match r {
                Ok(_) => self@.push_configs,
                Err(error) => !self@.push_configs && error.deep_view()
                    == error_code::no_push_notifications(),
            },
    {
        if self.push_configs {
            Ok(())
        } else {
            Err(A2AError::push_notification_not_supported())
        }
    }

    /// The push configuration to save before a turn on `task_id` starts: the
    /// one that came with the message, made about that task and, where it
    /// names no tenant, about the request's.
    pub fn save_request_push_config(&self, task_id: &str, req: &SendMessageRequest) -> (r: Result<
        Option<TaskPushNotificationConfig>,
        A2AError,
    >)
        ensures
            match sent_push_config(req.deep_view()) {
                None => r matches Ok(None),
                Some(config) => match r {
                    Ok(saved) => self@.push_configs && saved.deep_view() == Some(
                        push_config_for(config, task_id@, req.tenant.deep_view()),
                    ),
                    Err(error) => !self@.push_configs && error.deep_view()
                        == error_code::no_push_notifications(),
                },
            },
    {
        let sent = match &req.configuration {
            Some(configuration) => configuration.task_push_notification_config.replica(),
            None => None,
        };
        match sent {
            None => Ok(None),
            Some(config) => {
                let mut config = config;
                config.task_id = task_id.to_string();
                if config.tenant.is_none() {
                    config.tenant = req.tenant.replica();
                }
                match self.push_config_store() {
                    Ok(_) => Ok(Some(config)),
                    Err(error) => Err(error),
                }
            },
        }
    }

    /// There is no extended agent card.
    pub fn get_extended_agent_card(&self) -> (r: Result<AgentCard, A2AError>)
        ensures
            r matches Err(error) && error.code == error_code::UNSUPPORTED_OPERATION
                && error.message@ == "extended agent card not configured"@,
    {
        Err(A2AError::unsupported_operation("extended agent card not configured"))
    }
}

/// The push configuration that came with a message.
pub open spec fn sent_push_config(req: SendMessageRequestView) -> Option<
    TaskPushNotificationConfigView,
> {
    match req.configuration {
        Some(configuration) => configuration.task_push_notification_config,
        None => None,
    }
}

/// `config` made about `task_id`, in `tenant` where it names none.
pub open spec fn push_config_for(
    config: TaskPushNotificationConfigView,
    task_id: Seq<char>,
    tenant: Option<Seq<char>>,
) -> TaskPushNotificationConfigView {
    TaskPushNotificationConfigView {
        task_id,
        tenant: if config.tenant is Some {
            config.tenant
        } else {
            tenant
        },
        ..config
    }
}

impl Default for DefaultRequestHandler {
    fn default() -> (r: Self)
        ensures
            r@ == (DefaultRequestHandlerView {
                capabilities: no_capabilities(),
                authenticated_only: false,
                push_configs: false,
            }),
    {
        DefaultRequestHandler::new()
    }
}

/// A message is for the task that it names, whatever the fresh identifier is;
/// only a message that names none is for a new task.
pub proof fn named_tasks_are_continued(
    req: SendMessageRequest,
    fresh_task_id: String,
    r: String,
)
    requires
        call_ensures(task_id_for_message, (&req, fresh_task_id), r),
    ensures
        req.message.task_id matches Some(id) ==> r@ == id@,
        req.message.task_id is None ==> r@ == fresh_task_id@,
{
}

/// A turn on a stored task is in the context of that task. Without one it is
/// in the context that the message names, whatever the fresh identifier is,
/// and in a fresh one only where the message names none. The prepared task and
/// what the executor is told agree on it.
pub proof fn turns_stay_in_their_context(
    params: ServiceParams,
    req: SendMessageRequest,
    task_id: String,
    stored: Option<Task>,
    fresh_context_id: String,
    now: Timestamp,
    include_task_snapshot: bool,
    prepared: PreparedTask,
    told: ExecutorContext,
)
    requires
        call_ensures(
            prepare_task_for_execution,
            (&req, task_id, stored, fresh_context_id, now),
            prepared,
        ),
        call_ensures(execution_context, (&params, req, &prepared, include_task_snapshot), told),
    ensures
        prepared.task.context_id@ == prepared.context_id@,
        told.context_id@ == prepared.context_id@,
        stored matches Some(task) ==> {
            &&& prepared.task.context_id@ == task.context_id@
            &&& told.context_id@ == task.context_id@
        },
        stored is None ==> (req.message.context_id matches Some(context_id) ==> {
            &&& prepared.task.context_id@ == context_id@
            &&& prepared.context_id@ == context_id@
            &&& told.context_id@ == context_id@
        }),
        stored is None && req.message.context_id is None ==> {
            &&& prepared.task.context_id@ == fresh_context_id@
            &&& prepared.context_id@ == fresh_context_id@
            &&& told.context_id@ == fresh_context_id@
        },
{
}

/// A message that is for no stored task starts one: it has the identifier that
/// was given, is submitted at that moment, and its history is that message
/// alone. A stored task is continued as it is.
pub proof fn messages_start_or_continue_a_task(
    req: SendMessageRequest,
    task_id: String,
    stored: Option<Task>,
    fresh_context_id: String,
    now: Timestamp,
    prepared: PreparedTask,
)
    requires
        call_ensures(
            prepare_task_for_execution,
            (&req, task_id, stored, fresh_context_id, now),
            prepared,
        ),
    ensures
        prepared.stored is Some <==> stored is Some,
        stored matches Some(task) ==> {
            &&& prepared.task.deep_view() == task.deep_view()
            &&& prepared.stored matches Some(kept) && kept.deep_view() == task.deep_view()
        },
        stored is None ==> {
            &&& prepared.task.id@ == task_id@
            &&& prepared.task.status.state == TaskState::Submitted
            &&& prepared.task.status.message is None
            &&& prepared.task.status.timestamp == Some(now)
            &&& prepared.task.artifacts is None
            &&& prepared.task.metadata is None
            &&& prepared.task.history matches Some(history) && history.deep_view().len() == 1
                && history.deep_view()[0] == req.message.deep_view()
        },
{
}

/// The executor is told the message, the metadata and the tenant of the
/// request, the parameters beside it, and the task: the prepared one for a
/// blocking caller, and for a streaming one what was stored.
pub proof fn executors_are_told_the_request(
    params: ServiceParams,
    req: SendMessageRequest,
    prepared: PreparedTask,
    include_task_snapshot: bool,
    told: ExecutorContext,
)
    requires
        call_ensures(execution_context, (&params, req, &prepared, include_task_snapshot), told),
    ensures
        told.message matches Some(message) && message.deep_view() == req.message.deep_view(),
        told.task_id@ == prepared.task.id@,
        told.metadata.deep_view() == req.metadata.deep_view(),
        told.tenant.deep_view() == req.tenant.deep_view(),
        told.service_params@ == params@,
        include_task_snapshot ==> (told.stored_task matches Some(task) && task.deep_view()
            == prepared.task.deep_view()),
        !include_task_snapshot ==> told.stored_task.deep_view() == prepared.stored.deep_view(),
{
}

/// An executor that is to cancel a task is told the task as it is stored, its
/// context, and the identifier, the metadata and the tenant of the request;
/// there is no message.
pub proof fn cancels_are_told_the_stored_task(
    params: ServiceParams,
    req: CancelTaskRequest,
    task: Task,
    told: ExecutorContext,
)
    requires
        call_ensures(cancel_context, (&params, req, &task), told),
    ensures
        told.message is None,
        told.task_id@ == req.id@,
        told.stored_task matches Some(kept) && kept.deep_view() == task.deep_view(),
        told.context_id@ == task.context_id@,
        told.metadata.deep_view() == req.metadata.deep_view(),
        told.tenant.deep_view() == req.tenant.deep_view(),
        told.service_params@ == params@,
{
}

/// A request for a task is answered with the stored task; only its history may
/// be shorter. A task that is not stored is an error that names it, and a
/// failed read is reported as it is.
pub proof fn requested_tasks_are_shown_as_stored(
    req: GetTaskRequest,
    found: Result<Option<Task>, A2AError>,
    r: Result<Task, A2AError>,
)
    requires
        call_ensures(get_task, (&req, found), r),
    ensures
        found matches Err(error) ==> (r matches Err(told) && told.deep_view()
            == error.deep_view()),
        found matches Ok(None) ==> (r matches Err(told) && told.code == error_code::TASK_NOT_FOUND
            && told.message@ == "task not found: "@ + req.id@),
        found matches Ok(Some(task)) ==> (r matches Ok(shown) && {
            let before = task.deep_view();
            let after = shown.deep_view();
            &&& after.id == before.id
            &&& after.context_id == before.context_id
            &&& after.status == before.status
            &&& after.artifacts == before.artifacts
            &&& after.metadata == before.metadata
            &&& req.history_length is None ==> after.history == before.history
            &&& before.history is None ==> after.history is None
            &&& req.history_length matches Some(keep) ==> (before.history matches Some(history)
                ==> (after.history matches Some(kept) && {
                &&& keep <= 0 ==> kept.len() == 0
                &&& 0 < keep <= history.len() ==> kept.len() == keep
                &&& keep > history.len() ==> kept.len() == history.len()
                &&& forall|i: int|
                    0 <= i < kept.len() ==> #[trigger] kept[i] == history[history.len()
                        - kept.len() + i]
            }))
        }),
{
}

/// A cancel of a task that has ended is answered with the task as it is; any
/// other stored task goes to the executor, unchanged. A task that is not
/// stored is an error that names it.
pub proof fn cancels_of_ended_tasks_change_nothing(
    task_id: &str,
    found: Result<Option<Task>, A2AError>,
    r: CancelStart,
)
    requires
        call_ensures(cancel_task, (task_id, found), r),
    ensures
        found matches Ok(Some(task)) ==> {
            let state = task.status.state;
            let ended = state == TaskState::Completed || state == TaskState::Failed || state
                == TaskState::Canceled || state == TaskState::Rejected;
            &&& ended ==> (r matches CancelStart::Answer { answer: Ok(told) } && told.deep_view()
                == task.deep_view())
            &&& !ended ==> (r matches CancelStart::Run { task: running } && running.deep_view()
                == task.deep_view())
        },
        found matches Ok(None) ==> (r matches CancelStart::Answer { answer: Err(error) }
            && error.code == error_code::TASK_NOT_FOUND && error.message@ == "task not found: "@
            + task_id@),
        found matches Err(error) ==> (r matches CancelStart::Answer { answer: Err(told) }
            && told.deep_view() == error.deep_view()),
{
}

/// Bounding the page size of a list request changes nothing else of what it
/// asks for: neither the context and the state nor the token, the length of
/// the histories, the time, the artifacts and the tenant.
pub proof fn bounding_changes_only_the_page_size(req: ListTasksRequest, r: ListTasksRequest)
    requires
        call_ensures(bound_list_request, (req,), r),
    ensures
        r.context_id.deep_view() == req.context_id.deep_view(),
        r.status == req.status,
        r.page_token.deep_view() == req.page_token.deep_view(),
        r.history_length == req.history_length,
        r.status_timestamp_after == req.status_timestamp_after,
        r.include_artifacts == req.include_artifacts,
        r.tenant.deep_view() == req.tenant.deep_view(),
        req.page_size matches Some(size) ==> (0 < size <= 100 ==> r.page_size == Some(size)),
        req.page_size matches Some(size) ==> (size > 100 ==> r.page_size == Some(100i32)),
        req.page_size matches Some(size) ==> (size <= 0 ==> r.page_size == Some(50i32)),
        req.page_size is None ==> r.page_size == Some(50i32),
{
}

/// A page that a store gave back keeps its first tasks, as many as a page may
/// hold, and its token, size and total.
pub proof fn bounded_pages_keep_their_first_tasks(
    response: ListTasksResponse,
    r: ListTasksResponse,
)
    requires
        call_ensures(bound_list_response, (response,), r),
    ensures
        r.tasks@.len() <= 100,
        response.tasks@.len() <= 100 ==> r.tasks@.len() == response.tasks@.len(),
        response.tasks@.len() > 100 ==> r.tasks@.len() == 100,
        forall|i: int|
            0 <= i < r.tasks@.len() ==> (#[trigger] r.tasks@[i]).deep_view()
                == response.tasks@[i].deep_view(),
        r.next_page_token@ == response.next_page_token@,
        r.page_size == response.page_size,
        r.total_size == response.total_size,
{
    assert(r.tasks@.len() == r.deep_view().tasks.len());
    assert(response.tasks@.len() == response.deep_view().tasks.len());
    assert forall|i: int| 0 <= i < r.tasks@.len() implies (#[trigger] r.tasks@[i]).deep_view()
        == response.tasks@[i].deep_view() by {
        assert(r.deep_view().tasks[i] == r.tasks@[i].deep_view());
        assert(response.deep_view().tasks[i] == response.tasks@[i].deep_view());
    }
}

/// A blocking send fails with the error that the execution gives, is answered
/// with a message as soon as one comes, and with the stored task where the
/// wait is cut short; any other event is waited past and remembered.
pub proof fn replies_follow_the_event(
    req: SendMessageRequest,
    task_id: &str,
    last: Option<StreamResponse>,
    item: Option<Item>,
    r: Reply,
)
    requires
        call_ensures(on_reply, (&req, task_id, last, item), r),
    ensures
        item matches Some(Err(error)) ==> (r matches Reply::Fail { error: told }
            && told.deep_view() == error.deep_view()),
        item matches Some(Ok(StreamResponse::Message(message))) ==> (r matches Reply::Answer {
            response: SendMessageResponse::Message(told),
        } && told.deep_view() == message.deep_view()),
        item matches Some(Ok(StreamResponse::Task(task))) ==> {
            let cut = task.status.state == TaskState::AuthRequired || (req.configuration is Some
                && req.configuration->0.return_immediately == Some(true));
            &&& cut ==> (r matches Reply::Load { task_id: named } && named@ == task.id@)
            &&& !cut ==> (r matches Reply::Wait { last: Some(StreamResponse::Task(kept)) }
                && kept.deep_view() == task.deep_view())
        },
        item matches Some(Ok(StreamResponse::StatusUpdate(update))) ==> {
            let cut = update.status.state == TaskState::AuthRequired || (req.configuration is Some
                && req.configuration->0.return_immediately == Some(true));
            &&& cut ==> (r matches Reply::Load { task_id: named } && named@ == update.task_id@)
            &&& !cut ==> (r matches Reply::Wait { last: Some(StreamResponse::StatusUpdate(kept)) }
                && kept.deep_view() == update.deep_view())
        },
        item matches Some(Ok(StreamResponse::ArtifactUpdate(update))) ==> {
            let cut = req.configuration is Some && req.configuration->0.return_immediately == Some(
                true,
            );
            &&& cut ==> (r matches Reply::Load { task_id: named } && named@ == update.task_id@)
            &&& !cut ==> (r matches Reply::Wait {
                last: Some(StreamResponse::ArtifactUpdate(kept)),
            } && kept.deep_view() == update.deep_view())
        },
{
}

/// A blocking send whose execution has ended is answered with the task or the
/// message that came last, and after an update with the stored task that it
/// was about; where nothing came, with the stored task of the request.
pub proof fn ended_executions_are_answered(
    req: SendMessageRequest,
    task_id: &str,
    last: Option<StreamResponse>,
    r: Reply,
)
    requires
        call_ensures(on_reply, (&req, task_id, last, None), r),
    ensures
        last is None ==> (r matches Reply::Load { task_id: named } && named@ == task_id@),
        last matches Some(StreamResponse::Task(task)) ==> (r matches Reply::Answer {
            response: SendMessageResponse::Task(told),
        } && told.deep_view() == task.deep_view()),
        last matches Some(StreamResponse::Message(message)) ==> (r matches Reply::Answer {
            response: SendMessageResponse::Message(told),
        } && told.deep_view() == message.deep_view()),
        last matches Some(StreamResponse::StatusUpdate(update)) ==> (r matches Reply::Load {
            task_id: named,
        } && named@ == update.task_id@),
        last matches Some(StreamResponse::ArtifactUpdate(update)) ==> (r matches Reply::Load {
            task_id: named,
        } && named@ == update.task_id@),
{
}

/// Everybody is served unless only callers with credentials are; a caller has
/// them where some `authorization` parameter has a character that is not white
/// space.
pub proof fn credentials_are_a_visible_authorization(
    handler: DefaultRequestHandler,
    params: ServiceParams,
    r: Result<(), A2AError>,
)
    requires
        call_ensures(DefaultRequestHandler::authorize, (&handler, &params), r),
    ensures
        r is Ok <==> !handler@.authenticated_only || (params@.contains_key("authorization"@)
            && exists|i: int, k: int|
            0 <= i < params@["authorization"@].len() && 0 <= k
                < params@["authorization"@][i].len() && !text::is_space(
                #[trigger] params@["authorization"@][i][k],
            )),
        r matches Err(error) ==> error.code == error_code::INVALID_REQUEST,
{
    if params@.contains_key("authorization"@) {
        let values = params@["authorization"@];
        if has_credentials(params@) {
            let i = choose|i: int| 0 <= i < values.len() && text::trimmed(#[trigger] values[i]).len()
                > 0;
            text::blank_texts_are_white_space(values[i]);
            let k = choose|k: int| 0 <= k < values[i].len() && !text::is_space(
                #[trigger] values[i][k],
            );
            assert(!text::is_space(params@["authorization"@][i][k]));
        }
        if exists|i: int, k: int|
            0 <= i < values.len() && 0 <= k < values[i].len() && !text::is_space(
                #[trigger] values[i][k],
            ) {
            let (i, k) = choose|i: int, k: int|
                0 <= i < values.len() && 0 <= k < values[i].len() && !text::is_space(
                    #[trigger] values[i][k],
                );
            text::blank_texts_are_white_space(values[i]);
            assert(text::trimmed(params@["authorization"@][i]).len() > 0);
        }
    }
}

/// The push configuration that comes with a message is saved as it came, but
/// about the task of the turn and, where it names no tenant, in that of the
/// request. It is refused where none are kept; a message without one is fine.
pub proof fn sent_push_configs_are_about_the_task(
    handler: DefaultRequestHandler,
    task_id: &str,
    req: SendMessageRequest,
    r: Result<Option<TaskPushNotificationConfig>, A2AError>,
)
    requires
        call_ensures(
            DefaultRequestHandler::save_request_push_config,
            (&handler, task_id, &req),
            r,
        ),
    ensures
        ({
            let sent = match req.configuration {
                Some(configuration) => configuration.task_push_notification_config,
                None => None,
            };
            &&& sent is None ==> (r matches Ok(None))
            &&& sent is Some && !handler@.push_configs ==> (r matches Err(error) && error.code
                == error_code::PUSH_NOTIFICATION_NOT_SUPPORTED)
            &&& sent matches Some(config) ==> (handler@.push_configs ==> (r matches Ok(Some(saved))
                && {
                &&& saved.task_id@ == task_id@
                &&& saved.url@ == config.url@
                &&& saved.id.deep_view() == config.id.deep_view()
                &&& saved.token.deep_view() == config.token.deep_view()
                &&& saved.authentication.deep_view() == config.authentication.deep_view()
                &&& config.tenant is Some ==> saved.tenant.deep_view() == config.tenant.deep_view()
                &&& config.tenant is None ==> saved.tenant.deep_view() == req.tenant.deep_view()
            }))
        }),
{
}

/// The push configurations of a task are listed by ascending identifier, those
/// without one first, from the offset that the token names: every one of them
/// is in the one list that all pages are cut from. A token that is no number
/// names the start, and there is a next token exactly where something is left,
/// naming where it starts.
pub proof fn push_config_pages_continue_one_list(
    configs: Vec<TaskPushNotificationConfig>,
    req: ListTaskPushNotificationConfigsRequest,
    r: ListTaskPushNotificationConfigsResponse,
)
    requires
        call_ensures(list_push_configs, (configs, &req), r),
        configs@.len() <= usize::MAX,
    ensures
        exists|all: Seq<TaskPushNotificationConfigView>|
            {
                let size = match req.page_size {
                    Some(size) => if size <= 0 {
                        50
                    } else if size > 100 {
                        100
                    } else {
                        size as int
                    },
                    None => 50,
                };
                let offset = match req.page_token {
                    Some(token) => match text::parsed(token@, usize::MAX as nat) {
                        Some(offset) => offset as int,
                        None => 0,
                    },
                    None => 0,
                };
                let end = offset + r.configs@.len();
                &&& #[trigger] all.to_multiset() == configs.deep_view().to_multiset()
                &&& forall|i: int, j: int|
                    0 <= i < j < all.len() ==> ((#[trigger] all[i]).id matches Some(a) ==> (
                    #[trigger] all[j].id matches Some(b) && text::text_le(a, b)))
                &&& r.configs@.len() <= size
                &&& offset <= all.len() ==> {
                    &&& end <= all.len()
                    &&& r.configs.deep_view() == all.subrange(offset, end)
                    &&& r.configs@.len() < size ==> end == all.len()
                }
                &&& offset > all.len() ==> r.configs@.len() == 0
                &&& r.next_page_token is Some <==> end < all.len()
                &&& r.next_page_token matches Some(token) ==> text::parsed(
                    token@,
                    usize::MAX as nat,
                ) == Some(end as nat)
            },
{
    let all = order::sorted::<TaskPushNotificationConfig>(configs.deep_view());
    order::sorted_is_ordered_rearrangement::<TaskPushNotificationConfig>(configs.deep_view());
    assert(all.to_multiset() == configs.deep_view().to_multiset());
    assert(r.configs@.len() == r.configs.deep_view().len());
    let start = lenient_offset(req.page_token.deep_view()) as int;
    let end = pagination::page_end(
        start,
        pagination::page_size(req.page_size),
        all.len() as int,
    );
    if end < all.len() {
        text::decimal_round_trip(end as nat, usize::MAX as nat);
    }
    assert forall|i: int, j: int| 0 <= i < j < all.len() implies ((
    #[trigger] all[i]).id matches Some(a) ==> (#[trigger] all[j].id matches Some(b)
        && text::text_le(a, b))) by {
        assert(<TaskPushNotificationConfig as Ranked>::ranks(all[i], all[j]));
    }
}

/// A task that runs can be subscribed to, from how it stands and from what was
/// published so far; one that does not run is not found.
pub proof fn running_tasks_can_be_subscribed_to(
    task_id: &str,
    active: Option<&ActiveExecution>,
    r: Result<Subscription, A2AError>,
)
    requires
        call_ensures(subscribe_to_task, (task_id, active), r),
    ensures
        r is Ok <==> active is Some,
        r matches Err(error) ==> error.code == error_code::TASK_NOT_FOUND && error.message@
            == "task not found: "@ + task_id@,
        active matches Some(execution) ==> (r matches Ok(subscription) && {
            &&& subscription.snapshot_task.deep_view() == execution.snapshot_task.deep_view()
            &&& subscription.min_sequence == execution.sequence
            &&& !subscription.done
        }),
{
}

} // verus!
