//! The commands: what each asks of the agent, and what becomes of the answer.

use vstd::prelude::*;

use crate::cli::args;
use crate::cli::args::{
    CardCommand, Cli, Command, CreatePushConfigCommand, ListPushConfigsCommand, ListTasksCommand,
    MessageCommand, OutputFormat, PushConfigCommand, PushConfigIdCommand, Shell, TaskCommand,
    TaskIdCommand, TaskLookupCommand, TaskStateArg,
};
use crate::cli::error::{CliError, CliErrorView};
use crate::cli::negotiate;
use crate::cli::negotiate::{Capability, DeclaredCapabilities};
use crate::error_code::{PUSH_NOTIFICATION_NOT_SUPPORTED, UNSUPPORTED_OPERATION};
use crate::protocol;
use crate::protocol::{
    A2AError, CancelTaskRequest, CancelTaskRequestView,
    DeleteTaskPushNotificationConfigRequest, DeleteTaskPushNotificationConfigRequestView,
    GetExtendedAgentCardRequest, GetExtendedAgentCardRequestView,
    GetTaskPushNotificationConfigRequest, GetTaskPushNotificationConfigRequestView,
    GetTaskRequest, GetTaskRequestView, ListTaskPushNotificationConfigsRequest,
    ListTaskPushNotificationConfigsRequestView, ListTasksRequest, ListTasksRequestView,
    MessageView, Part, PartView, Role, SendMessageRequest, SendMessageRequestView,
    SubscribeToTaskRequest, SubscribeToTaskRequestView, TaskPushNotificationConfig,
    TaskPushNotificationConfigView, TaskState,
};
use crate::replica::Replica;

verus! {

/// The first step of a command.
#[derive(Debug, PartialEq, Eq)]
pub enum Step {
    /// Show the settings.
    ShowConfig,
    /// Write a completion script.
    Complete(Shell),
    /// Fetch the card and show it, after holding it against the schema if that
    /// was asked for.
    ShowCard { validate: bool },
    /// Make the parts of the message, and then connect to the agent and send
    /// it: a message that cannot be made is refused without an agent.
    Compose,
    /// Connect to the agent and ask it.
    Connect,
}

/// The first step of a command. Neither the settings nor a completion script
/// needs an agent.
pub open spec fn first_step(command: Command) -> Step {
    match command {
        Command::Config { .. } => Step::ShowConfig,
        Command::Completion { shell } => Step::Complete(shell),
        Command::Card { command: CardCommand::Get(get) } => if get.extended {
            Step::Connect
        } else {
            Step::ShowCard { validate: get.validate }
        },
        Command::Send(_) => Step::Compose,
        Command::Task { .. } => Step::Connect,
    }
}

/// Starts a command. A version that cannot be signaled is refused before
/// anything else is done.
pub fn run(cli: &Cli) -> (r: Result<Step, CliError>)
    ensures
        match (cli.a2a_version, r) {
            (None, Ok(step)) => step == first_step(cli.command),
            (Some(requested), Ok(step)) => {
                &&& negotiate::version_objection(requested@) is None
                &&& step == first_step(cli.command)
            },
            (Some(requested), Err(error)) => {
                &&& negotiate::version_objection(requested@) is Some
                &&& error.deep_view() == CliErrorView::InvalidInput(
                    negotiate::version_objection(requested@)->0,
                )
            },
            (None, Err(_)) => false,
        },
{
    let requested = match &cli.a2a_version {
        Some(version) => Some(version.as_str()),
        None => None,
    };
    match negotiate::validate_a2a_version(requested) {
        Ok(_) => (),
        Err(error) => {
            return Err(error);
        },
    }
    Ok(
        match &cli.command {
            Command::Config { .. } => Step::ShowConfig,
            Command::Completion { shell } => Step::Complete(*shell),
            Command::Card { command: CardCommand::Get(get) } => if get.extended {
                Step::Connect
            } else {
                Step::ShowCard { validate: get.validate }
            },
            Command::Send(_) => Step::Compose,
            Command::Task { .. } => Step::Connect,
        },
    )
}

/// A call to the agent.
#[derive(Debug, PartialEq, Eq)]
pub enum Call {
    SendMessage(SendMessageRequest),
    SendStreamingMessage(SendMessageRequest),
    GetTask(GetTaskRequest),
    ListTasks(ListTasksRequest),
    CancelTask(CancelTaskRequest),
    SubscribeToTask(SubscribeToTaskRequest),
    CreatePushConfig(TaskPushNotificationConfig),
    GetPushConfig(GetTaskPushNotificationConfigRequest),
    ListPushConfigs(ListTaskPushNotificationConfigsRequest),
    DeletePushConfig(DeleteTaskPushNotificationConfigRequest),
    GetExtendedAgentCard(GetExtendedAgentCardRequest),
}

/// What a [`Call`] stands for.
#[verifier::ext_equal]
pub enum CallView {
    SendMessage(SendMessageRequestView),
    SendStreamingMessage(SendMessageRequestView),
    GetTask(GetTaskRequestView),
    ListTasks(ListTasksRequestView),
    CancelTask(CancelTaskRequestView),
    SubscribeToTask(SubscribeToTaskRequestView),
    CreatePushConfig(TaskPushNotificationConfigView),
    GetPushConfig(GetTaskPushNotificationConfigRequestView),
    ListPushConfigs(ListTaskPushNotificationConfigsRequestView),
    DeletePushConfig(DeleteTaskPushNotificationConfigRequestView),
    GetExtendedAgentCard(GetExtendedAgentCardRequestView),
}

impl DeepView for Call {
    type V = CallView;

    open spec fn deep_view(&self) -> CallView {
        match self {
            Call::SendMessage(request) => CallView::SendMessage(request.deep_view()),
            Call::SendStreamingMessage(request) => CallView::SendStreamingMessage(
                request.deep_view(),
            ),
            Call::GetTask(request) => CallView::GetTask(request.deep_view()),
            Call::ListTasks(request) => CallView::ListTasks(request.deep_view()),
            Call::CancelTask(request) => CallView::CancelTask(request.deep_view()),
            Call::SubscribeToTask(request) => CallView::SubscribeToTask(request.deep_view()),
            Call::CreatePushConfig(config) => CallView::CreatePushConfig(config.deep_view()),
            Call::GetPushConfig(request) => CallView::GetPushConfig(request.deep_view()),
            Call::ListPushConfigs(request) => CallView::ListPushConfigs(request.deep_view()),
            Call::DeletePushConfig(request) => CallView::DeletePushConfig(request.deep_view()),
            Call::GetExtendedAgentCard(request) => CallView::GetExtendedAgentCard(
                request.deep_view(),
            ),
        }
    }
}

/// What the choice of a call stands for.
pub open spec fn call_answer(r: Result<Call, CliError>) -> Result<CallView, CliErrorView> {
    match r {
        Ok(call) => Ok(call.deep_view()),
        Err(error) => Err(error.deep_view()),
    }
}

/// `call`, where the card declares the capability that it needs.
pub open spec fn gated(
    capabilities: DeclaredCapabilities,
    capability: Capability,
    call: Result<CallView, CliErrorView>,
) -> Result<CallView, CliErrorView> {
    if capabilities.spec_declares(capability) {
        call
    } else {
        Err(CliErrorView::A2A(capability.undeclared()))
    }
}

/// The request that lists tasks.
pub open spec fn list_request(command: ListTasksCommand, tenant: Option<Seq<char>>) -> ListTasksRequestView {
    ListTasksRequestView {
        context_id: command.context_id.deep_view(),
        status: match command.status {
            Some(status) => Some(args::named_state(status)),
            None => None,
        },
        page_size: command.page_size,
        page_token: command.page_token.deep_view(),
        history_length: command.history_length,
        status_timestamp_after: None,
        include_artifacts: if command.include_artifacts {
            Some(true)
        } else {
            None
        },
        tenant,
    }
}

/// The call that a command on push configurations makes. All of them need
/// push notifications.
pub open spec fn push_config_call(
    command: PushConfigCommand,
    tenant: Option<Seq<char>>,
    capabilities: DeclaredCapabilities,
) -> Result<CallView, CliErrorView> {
    gated(
        capabilities,
        Capability::PushNotifications,
        match command {
            PushConfigCommand::Create(create) => if create.auth_credentials is Some
                && create.auth_scheme is None {
                Err(CliErrorView::InvalidInput("--auth-credentials requires --auth-scheme"@))
            } else {
                Ok(
                    CallView::CreatePushConfig(
                        TaskPushNotificationConfigView {
                            task_id: create.task_id@,
                            tenant,
                            ..args::described_push_config(create)
                        },
                    ),
                )
            },
            PushConfigCommand::Get(get) => Ok(
                CallView::GetPushConfig(
                    GetTaskPushNotificationConfigRequestView {
                        task_id: get.task_id@,
                        id: get.id@,
                        tenant,
                    },
                ),
            ),
            PushConfigCommand::List(list) => Ok(
                CallView::ListPushConfigs(
                    ListTaskPushNotificationConfigsRequestView {
                        task_id: list.task_id@,
                        page_size: list.page_size,
                        page_token: list.page_token.deep_view(),
                        tenant,
                    },
                ),
            ),
            PushConfigCommand::Delete(delete) => Ok(
                CallView::DeletePushConfig(
                    DeleteTaskPushNotificationConfigRequestView {
                        task_id: delete.task_id@,
                        id: delete.id@,
                        tenant,
                    },
                ),
            ),
        },
    )
}

/// Chooses the call that a command on push configurations makes.
pub fn run_push_config_command(
    command: &PushConfigCommand,
    tenant: Option<String>,
    capabilities: &DeclaredCapabilities,
) -> (r: Result<Call, CliError>)
    ensures
        call_answer(r) == push_config_call(*command, tenant.deep_view(), *capabilities),
{
    match capabilities.require(Capability::PushNotifications) {
        Ok(_) => (),
        Err(error) => {
            return Err(error);
        },
    }
    match command {
        PushConfigCommand::Create(create) => match args::build_push_notification_config(create) {
            Ok(described) => {
                let mut config = described;
                config.task_id = create.task_id.clone();
                config.tenant = tenant;
                Ok(Call::CreatePushConfig(config))
            },
            Err(error) => Err(error),
        },
        PushConfigCommand::Get(get) => Ok(
            Call::GetPushConfig(
                GetTaskPushNotificationConfigRequest {
                    task_id: get.task_id.clone(),
                    id: get.id.clone(),
                    tenant,
                },
            ),
        ),
        PushConfigCommand::List(list) => Ok(
            Call::ListPushConfigs(
                ListTaskPushNotificationConfigsRequest {
                    task_id: list.task_id.clone(),
                    page_size: list.page_size,
                    page_token: list.page_token.replica(),
                    tenant,
                },
            ),
        ),
        PushConfigCommand::Delete(delete) => Ok(
            Call::DeletePushConfig(
                DeleteTaskPushNotificationConfigRequest {
                    task_id: delete.task_id.clone(),
                    id: delete.id.clone(),
                    tenant,
                },
            ),
        ),
    }
}

/// The call that a command on tasks makes. Subscribing needs streaming: there
/// is no other way to follow a task.
pub open spec fn task_call(
    command: TaskCommand,
    tenant: Option<Seq<char>>,
    capabilities: DeclaredCapabilities,
) -> Result<CallView, CliErrorView> {
    match command {
        TaskCommand::Get(get) => Ok(
            CallView::GetTask(
                GetTaskRequestView { id: get.id@, history_length: get.history_length, tenant },
            ),
        ),
        TaskCommand::List(list) => Ok(CallView::ListTasks(list_request(list, tenant))),
        TaskCommand::Cancel(cancel) => Ok(
            CallView::CancelTask(CancelTaskRequestView { id: cancel.id@, metadata: None, tenant }),
        ),
        TaskCommand::Subscribe(subscribe) => gated(
            capabilities,
            Capability::Streaming,
            Ok(CallView::SubscribeToTask(SubscribeToTaskRequestView { id: subscribe.id@, tenant })),
        ),
        TaskCommand::PushConfig { command } => push_config_call(command, tenant, capabilities),
    }
}

/// Chooses the call that a command on tasks makes.
pub fn run_task_command(
    command: &TaskCommand,
    tenant: Option<String>,
    capabilities: &DeclaredCapabilities,
) -> (r: Result<Call, CliError>)
    ensures
        call_answer(r) == task_call(*command, tenant.deep_view(), *capabilities),
{
    match command {
        TaskCommand::Get(get) => Ok(
            Call::GetTask(
                GetTaskRequest {
                    id: get.id.clone(),
                    history_length: get.history_length,
                    tenant,
                },
            ),
        ),
        TaskCommand::List(list) => Ok(
            Call::ListTasks(
                ListTasksRequest {
                    context_id: list.context_id.replica(),
                    status: match list.status {
                        Some(status) => Some(TaskState::from(status)),
                        None => None,
                    },
                    page_size: list.page_size,
                    page_token: list.page_token.replica(),
                    history_length: list.history_length,
                    status_timestamp_after: None,
                    include_artifacts: if list.include_artifacts {
                        Some(true)
                    } else {
                        None
                    },
                    tenant,
                },
            ),
        ),
        TaskCommand::Cancel(cancel) => Ok(
            Call::CancelTask(CancelTaskRequest { id: cancel.id.clone(), metadata: None, tenant }),
        ),
        TaskCommand::Subscribe(subscribe) => match capabilities.require(Capability::Streaming) {
            Ok(_) => Ok(
                Call::SubscribeToTask(
                    SubscribeToTaskRequest { id: subscribe.id.clone(), tenant },
                ),
            ),
            Err(error) => Err(error),
        },
        TaskCommand::PushConfig { command } => run_push_config_command(
            command,
            tenant,
            capabilities,
        ),
    }
}

/// The call for the extended card, which nothing else can stand in for.
pub open spec fn extended_card_call(
    tenant: Option<Seq<char>>,
    capabilities: DeclaredCapabilities,
) -> Result<CallView, CliErrorView> {
    gated(
        capabilities,
        Capability::ExtendedCard,
        Ok(CallView::GetExtendedAgentCard(GetExtendedAgentCardRequestView { tenant })),
    )
}

/// Chooses the call for the extended card.
pub fn run_card_command(tenant: Option<String>, capabilities: &DeclaredCapabilities) -> (r: Result<
    Call,
    CliError,
>)
    ensures
        call_answer(r) == extended_card_call(tenant.deep_view(), *capabilities),
{
    match capabilities.require(Capability::ExtendedCard) {
        Ok(_) => Ok(Call::GetExtendedAgentCard(GetExtendedAgentCardRequest { tenant })),
        Err(error) => Err(error),
    }
}

/// The request that sends `parts`.
pub open spec fn message_request(
    command: MessageCommand,
    parts: Seq<PartView>,
    tenant: Option<Seq<char>>,
    message_id: Seq<char>,
) -> SendMessageRequestView {
    SendMessageRequestView {
        message: MessageView {
            context_id: command.context_id.deep_view(),
            task_id: command.task_id.deep_view(),
            ..protocol::bare_message(message_id, Role::User, parts)
        },
        configuration: args::requested_configuration(command),
        metadata: None,
        tenant,
    }
}

/// Chooses the call that sends a message, with a warning where streaming was
/// asked for and the card does not declare it: what was asked for is a
/// result, and there is another way to it.
pub fn run_send_command(
    command: &MessageCommand,
    parts: Vec<Part>,
    tenant: Option<String>,
    message_id: String,
    capabilities: &DeclaredCapabilities,
) -> (r: (Call, Option<String>))
    ensures
        ({
            let request = message_request(
                *command,
                parts.deep_view(),
                tenant.deep_view(),
                message_id@,
            );
            let streaming = capabilities.spec_declares(Capability::Streaming);
            &&& r.0.deep_view() == if command.stream && streaming {
                CallView::SendStreamingMessage(request)
            } else {
                CallView::SendMessage(request)
            }
            &&& r.1.deep_view() == if command.stream && !streaming {
                Some(
                    "the agent card does not declare streaming; sending without it and polling for the result instead"@,
                )
            } else {
                None
            }
        }),
{
    let streaming = capabilities.declares(Capability::Streaming);
    let request = args::build_send_message_request(command, parts, tenant, message_id);
    if command.stream && streaming {
        (Call::SendStreamingMessage(request), None)
    } else if command.stream {
        (
            Call::SendMessage(request),
            Some(
                "the agent card does not declare streaming; sending without it and polling for the result instead".to_string(),
            ),
        )
    } else {
        (Call::SendMessage(request), None)
    }
}

/// What to do when a stream could not be opened.
#[derive(Debug, PartialEq, Eq)]
pub enum StreamRefused {
    /// Send the message without streaming.
    FallBack,
    Fail(CliError),
}

/// Decides what to do when a stream could not be opened: only an agent that
/// does not stream is asked again without it.
pub fn stream_refused(error: A2AError) -> (r: StreamRefused)
    ensures
        match r {
            StreamRefused::FallBack => error.code == UNSUPPORTED_OPERATION,
            StreamRefused::Fail(failure) => {
                &&& error.code != UNSUPPORTED_OPERATION
                &&& failure.deep_view() == CliErrorView::A2A(error.deep_view())
            },
        },
{
    if error.code == UNSUPPORTED_OPERATION {
        StreamRefused::FallBack
    } else {
        StreamRefused::Fail(CliError::A2A(error))
    }
}

/// What an answer comes to once the connection was closed with `closed`. A
/// failure to close it matters only where there was no other.
pub fn finish_client_call<V>(result: Result<V, A2AError>, closed: Result<(), A2AError>) -> (r: Result<
    V,
    CliError,
>)
    ensures
        match (result, closed, r) {
            (Ok(value), Ok(_), Ok(kept)) => kept == value,
            (Ok(_), Err(error), Err(failure)) => failure.deep_view() == CliErrorView::A2A(
                error.deep_view(),
            ),
            (Err(error), _, Err(failure)) => failure.deep_view() == CliErrorView::A2A(
                error.deep_view(),
            ),
            _ => false,
        },
{
    match result {
        Ok(value) => match closed {
            Ok(_) => Ok(value),
            Err(error) => Err(CliError::A2A(error)),
        },
        Err(error) => Err(CliError::A2A(error)),
    }
}

/// How a result is printed.
#[derive(Debug, Clone, Copy, PartialEq, Eq, Structural)]
pub enum Form {
    Text,
    /// JSON on several lines.
    Pretty,
    /// JSON on one line.
    Compact,
}

/// How a single result is printed.
pub fn print_output(cli: &Cli) -> (r: Form)
    ensures
        r == (match cli.output {
            OutputFormat::Text => Form::Text,
            OutputFormat::Json => if cli.compact {
                Form::Compact
            } else {
                Form::Pretty
            },
        }),
{
    match cli.output {
        OutputFormat::Text => Form::Text,
        OutputFormat::Json => if cli.compact {
            Form::Compact
        } else {
            Form::Pretty
        },
    }
}

/// How each of a stream of results is printed: JSON takes one line each.
pub fn print_stream_value(cli: &Cli) -> (r: Form)
    ensures
        r == (match cli.output {
            OutputFormat::Text => Form::Text,
            OutputFormat::Json => Form::Compact,
        }),
{
    match cli.output {
        OutputFormat::Text => Form::Text,
        OutputFormat::Json => Form::Compact,
    }
}

/// What to do with an event of a stream that is not resumed.
#[derive(Debug, PartialEq, Eq)]
pub enum StreamStep<V> {
    /// Print the event and wait for the next one.
    Print(V),
    /// Close the connection: the stream is complete.
    Close,
    Fail(CliError),
}

/// Decides what to do with what a stream gave.
pub fn consume_stream<V>(next: Option<Result<V, A2AError>>) -> (r: StreamStep<V>)
    ensures
        match (next, r) {
            (Some(Ok(value)), StreamStep::Print(printed)) => printed == value,
            (Some(Err(error)), StreamStep::Fail(failure)) => failure.deep_view()
                == CliErrorView::A2A(error.deep_view()),
            (None, StreamStep::Close) => true,
            _ => false,
        },
{
    match next {
        Some(Ok(value)) => StreamStep::Print(value),
        Some(Err(error)) => StreamStep::Fail(CliError::A2A(error)),
        None => StreamStep::Close,
    }
}

/// Without a card nothing is refused for an undeclared capability: the agent
/// answers for itself.
pub proof fn without_a_card_the_agent_answers(
    command: TaskCommand,
    tenant: Option<Seq<char>>,
    capability: Capability,
)
    ensures
        task_call(command, tenant, DeclaredCapabilities::NoCard) != Err::<CallView, CliErrorView>(
            CliErrorView::A2A(capability.undeclared()),
        ),
        extended_card_call(tenant, DeclaredCapabilities::NoCard) is Ok,
{
}

/// Every request of a command carries the tenant of the connection.
pub open spec fn call_tenant(call: CallView) -> Option<Seq<char>> {
    match call {
        CallView::SendMessage(request) => request.tenant,
        CallView::SendStreamingMessage(request) => request.tenant,
        CallView::GetTask(request) => request.tenant,
        CallView::ListTasks(request) => request.tenant,
        CallView::CancelTask(request) => request.tenant,
        CallView::SubscribeToTask(request) => request.tenant,
        CallView::CreatePushConfig(config) => config.tenant,
        CallView::GetPushConfig(request) => request.tenant,
        CallView::ListPushConfigs(request) => request.tenant,
        CallView::DeletePushConfig(request) => request.tenant,
        CallView::GetExtendedAgentCard(request) => request.tenant,
    }
}

/// Every request that a command makes carries the tenant of the connection.
pub proof fn every_request_carries_the_tenant(
    command: TaskCommand,
    tenant: Option<Seq<char>>,
    capabilities: DeclaredCapabilities,
)
    ensures
        task_call(command, tenant, capabilities) matches Ok(call) ==> call_tenant(call) == tenant,
        extended_card_call(tenant, capabilities) matches Ok(call) ==> call_tenant(call) == tenant,
{
}

/// The request that lists tasks asks for exactly what the command says: each
/// field is the command's own, a state is the state that its argument names,
/// and artifacts are asked for only where the command includes them.
pub proof fn list_requests_ask_for_what_was_said(
    list: ListTasksCommand,
    tenant: Option<String>,
    capabilities: DeclaredCapabilities,
    r: Result<Call, CliError>,
)
    requires
        call_ensures(run_task_command, (&TaskCommand::List(list), tenant, &capabilities), r),
    ensures
        r matches Ok(Call::ListTasks(request)) && {
            &&& request.context_id.deep_view() == list.context_id.deep_view()
            &&& request.page_size == list.page_size
            &&& request.page_token.deep_view() == list.page_token.deep_view()
            &&& request.history_length == list.history_length
            &&& request.tenant.deep_view() == tenant.deep_view()
            &&& request.status_timestamp_after is None
            &&& request.include_artifacts == Some(true) <==> list.include_artifacts
            &&& request.include_artifacts is None <==> !list.include_artifacts
            &&& request.status is Some <==> list.status is Some
            &&& list.status == Some(TaskStateArg::Unspecified) <==> request.status == Some(
                TaskState::Unspecified,
            )
            &&& list.status == Some(TaskStateArg::Submitted) <==> request.status == Some(
                TaskState::Submitted,
            )
            &&& list.status == Some(TaskStateArg::Working) <==> request.status == Some(
                TaskState::Working,
            )
            &&& list.status == Some(TaskStateArg::Completed) <==> request.status == Some(
                TaskState::Completed,
            )
            &&& list.status == Some(TaskStateArg::Failed) <==> request.status == Some(
                TaskState::Failed,
            )
            &&& list.status == Some(TaskStateArg::Canceled) <==> request.status == Some(
                TaskState::Canceled,
            )
            &&& list.status == Some(TaskStateArg::InputRequired) <==> request.status == Some(
                TaskState::InputRequired,
            )
            &&& list.status == Some(TaskStateArg::Rejected) <==> request.status == Some(
                TaskState::Rejected,
            )
            &&& list.status == Some(TaskStateArg::AuthRequired) <==> request.status == Some(
                TaskState::AuthRequired,
            )
        },
{
}

/// Requests about one task name the task that the command names, and carry
/// what the command says and no more. Only a subscription can be refused: by a
/// card that does not declare streaming.
pub proof fn task_requests_name_the_task(
    get: TaskLookupCommand,
    id: TaskIdCommand,
    tenant: Option<String>,
    capabilities: DeclaredCapabilities,
    got: Result<Call, CliError>,
    canceled: Result<Call, CliError>,
    subscribed: Result<Call, CliError>,
)
    requires
        call_ensures(run_task_command, (&TaskCommand::Get(get), tenant, &capabilities), got),
        call_ensures(run_task_command, (&TaskCommand::Cancel(id), tenant, &capabilities), canceled),
        call_ensures(
            run_task_command,
            (&TaskCommand::Subscribe(id), tenant, &capabilities),
            subscribed,
        ),
    ensures
        got matches Ok(Call::GetTask(request)) && {
            &&& request.id@ == get.id@
            &&& request.history_length == get.history_length
            &&& request.tenant.deep_view() == tenant.deep_view()
        },
        canceled matches Ok(Call::CancelTask(request)) && {
            &&& request.id@ == id.id@
            &&& request.metadata is None
            &&& request.tenant.deep_view() == tenant.deep_view()
        },
        (capabilities matches DeclaredCapabilities::Card(card) ==> card.streaming == Some(true))
            ==> (subscribed matches Ok(Call::SubscribeToTask(request)) && {
            &&& request.id@ == id.id@
            &&& request.tenant.deep_view() == tenant.deep_view()
        }),
        (capabilities matches DeclaredCapabilities::Card(card) && card.streaming != Some(true))
            ==> (subscribed matches Err(CliError::A2A(error)) && error.code
            == UNSUPPORTED_OPERATION),
{
}

/// A new push configuration is what the command describes, about the task that
/// it names: its address, its identifier, its token and its authentication are
/// the command's own. Credentials without a scheme are refused, and so is
/// every configuration where the card does not declare push notifications.
pub proof fn created_push_configs_are_as_described(
    create: CreatePushConfigCommand,
    tenant: Option<String>,
    capabilities: DeclaredCapabilities,
    r: Result<Call, CliError>,
)
    requires
        call_ensures(
            run_push_config_command,
            (&PushConfigCommand::Create(create), tenant, &capabilities),
            r,
        ) || call_ensures(
            run_task_command,
            (
                &TaskCommand::PushConfig { command: PushConfigCommand::Create(create) },
                tenant,
                &capabilities,
            ),
            r,
        ),
    ensures
        ({
            let declared = capabilities matches DeclaredCapabilities::Card(card)
                ==> card.push_notifications == Some(true);
            let complete = create.auth_credentials is Some ==> create.auth_scheme is Some;
            &&& !declared ==> (r matches Err(CliError::A2A(error)) && error.code
                == PUSH_NOTIFICATION_NOT_SUPPORTED)
            &&& declared && !complete ==> (r matches Err(CliError::InvalidInput(_)))
            &&& declared && complete ==> (r matches Ok(Call::CreatePushConfig(config)) && {
                &&& config.task_id@ == create.task_id@
                &&& config.url@ == create.url@
                &&& config.id.deep_view() == create.config_id.deep_view()
                &&& config.token.deep_view() == create.token.deep_view()
                &&& config.tenant.deep_view() == tenant.deep_view()
                &&& create.auth_scheme is None ==> config.authentication is None
                &&& create.auth_scheme matches Some(scheme) ==> (
                config.authentication matches Some(authentication) && {
                    &&& authentication.scheme@ == scheme@
                    &&& authentication.credentials.deep_view()
                        == create.auth_credentials.deep_view()
                })
            })
        }),
{
}

/// Requests about existing push configurations name the task and the
/// configuration that the command names, and ask for the page that it asks
/// for. They are refused only where the card does not declare push
/// notifications.
pub proof fn push_config_requests_name_the_config(
    id: PushConfigIdCommand,
    list: ListPushConfigsCommand,
    tenant: Option<String>,
    capabilities: DeclaredCapabilities,
    got: Result<Call, CliError>,
    listed: Result<Call, CliError>,
    deleted: Result<Call, CliError>,
)
    requires
        call_ensures(
            run_push_config_command,
            (&PushConfigCommand::Get(id), tenant, &capabilities),
            got,
        ),
        call_ensures(
            run_push_config_command,
            (&PushConfigCommand::List(list), tenant, &capabilities),
            listed,
        ),
        call_ensures(
            run_push_config_command,
            (&PushConfigCommand::Delete(id), tenant, &capabilities),
            deleted,
        ),
    ensures
        ({
            let declared = capabilities matches DeclaredCapabilities::Card(card)
                ==> card.push_notifications == Some(true);
            &&& !declared ==> {
                &&& got matches Err(CliError::A2A(error)) && error.code
                    == PUSH_NOTIFICATION_NOT_SUPPORTED
                &&& listed matches Err(CliError::A2A(error)) && error.code
                    == PUSH_NOTIFICATION_NOT_SUPPORTED
                &&& deleted matches Err(CliError::A2A(error)) && error.code
                    == PUSH_NOTIFICATION_NOT_SUPPORTED
            }
            &&& declared ==> {
                &&& got matches Ok(Call::GetPushConfig(request)) && {
                    &&& request.task_id@ == id.task_id@
                    &&& request.id@ == id.id@
                    &&& request.tenant.deep_view() == tenant.deep_view()
                }
                &&& listed matches Ok(Call::ListPushConfigs(request)) && {
                    &&& request.task_id@ == list.task_id@
                    &&& request.page_size == list.page_size
                    &&& request.page_token.deep_view() == list.page_token.deep_view()
                    &&& request.tenant.deep_view() == tenant.deep_view()
                }
                &&& deleted matches Ok(Call::DeletePushConfig(request)) && {
                    &&& request.task_id@ == id.task_id@
                    &&& request.id@ == id.id@
                    &&& request.tenant.deep_view() == tenant.deep_view()
                }
            }
        }),
{
}

/// A command on push configurations makes the same call whether it is run as
/// such or as a command on tasks.
pub proof fn push_config_commands_are_task_commands(
    command: PushConfigCommand,
    tenant: Option<String>,
    capabilities: DeclaredCapabilities,
    r: Result<Call, CliError>,
    nested: Result<Call, CliError>,
)
    requires
        call_ensures(run_push_config_command, (&command, tenant, &capabilities), r),
        call_ensures(
            run_task_command,
            (&TaskCommand::PushConfig { command }, tenant, &capabilities),
            nested,
        ),
    ensures
        call_answer(r) == call_answer(nested),
{
}

/// The extended card is asked for with the tenant of the connection, unless
/// the card does not declare that there is one.
pub proof fn extended_cards_need_a_declaration(
    tenant: Option<String>,
    capabilities: DeclaredCapabilities,
    r: Result<Call, CliError>,
)
    requires
        call_ensures(run_card_command, (tenant, &capabilities), r),
    ensures
        (capabilities matches DeclaredCapabilities::Card(card) ==> card.extended_agent_card == Some(
            true,
        )) ==> (r matches Ok(Call::GetExtendedAgentCard(request)) && request.tenant.deep_view()
            == tenant.deep_view()),
        (capabilities matches DeclaredCapabilities::Card(card) && card.extended_agent_card != Some(
            true,
        )) ==> (r matches Err(CliError::A2A(error)) && error.code == UNSUPPORTED_OPERATION),
{
}

/// Whether `request` says what the command says, field by field.
pub open spec fn carries(
    request: SendMessageRequest,
    command: MessageCommand,
    parts: Vec<Part>,
    tenant: Option<String>,
    message_id: String,
) -> bool {
    &&& request.message.message_id@ == message_id@
    &&& request.message.role == Role::User
    &&& request.message.parts.deep_view() == parts.deep_view()
    &&& request.message.context_id.deep_view() == command.context_id.deep_view()
    &&& request.message.task_id.deep_view() == command.task_id.deep_view()
    &&& request.message.metadata is None
    &&& request.message.extensions is None
    &&& request.message.reference_task_ids is None
    &&& request.metadata is None
    &&& request.tenant.deep_view() == tenant.deep_view()
    &&& request.configuration is None <==> command.history_length is None
        && command.accepted_output_modes@.len() == 0 && !command.return_immediately
    &&& request.configuration matches Some(configuration) ==> {
        &&& configuration.history_length == command.history_length
        &&& configuration.task_push_notification_config is None
        &&& configuration.return_immediately == Some(true) <==> command.return_immediately
        &&& configuration.return_immediately is None <==> !command.return_immediately
        &&& configuration.accepted_output_modes is None
            <==> command.accepted_output_modes@.len() == 0
        &&& configuration.accepted_output_modes matches Some(modes) ==> modes.deep_view()
            == command.accepted_output_modes.deep_view()
    }
}

/// A message is sent as it was given, by the user, in the context and to the
/// task that the command names; and the agent is told how to answer exactly as
/// far as the command says it. It is streamed where that was asked for, unless
/// the card does not declare streaming, and exactly in that case there is a
/// warning.
pub proof fn messages_are_sent_as_given(
    command: MessageCommand,
    parts: Vec<Part>,
    tenant: Option<String>,
    message_id: String,
    capabilities: DeclaredCapabilities,
    r: (Call, Option<String>),
)
    requires
        call_ensures(
            run_send_command,
            (&command, parts, tenant, message_id, &capabilities),
            r,
        ),
    ensures
        ({
            let declared = capabilities matches DeclaredCapabilities::Card(card) ==> card.streaming
                == Some(true);
            &&& r.0 is SendStreamingMessage <==> command.stream && declared
            &&& r.0 is SendMessage <==> !(command.stream && declared)
            &&& r.1 is Some <==> command.stream && !declared
        }),
        r.0 matches Call::SendStreamingMessage(request) ==> carries(
            request,
            command,
            parts,
            tenant,
            message_id,
        ),
        r.0 matches Call::SendMessage(request) ==> carries(
            request,
            command,
            parts,
            tenant,
            message_id,
        ),
{
}

/// What a command starts with: the settings and a completion script need no
/// agent, a card is only fetched unless the extended one is meant, a message
/// is composed first, and everything else connects. A version outside the
/// first major version, or one that is none, is refused before that, whatever
/// the command; nothing else is.
pub proof fn commands_start_as_they_should(cli: Cli, r: Result<Step, CliError>)
    requires
        call_ensures(run, (&cli,), r),
    ensures
        r is Err <==> cli.a2a_version is Some && {
            let version = negotiate::protocol_version(cli.a2a_version->0@);
            version is None || (version->0).0 != 1
        },
        r matches Err(error) ==> error is InvalidInput,
        r matches Ok(step) ==> {
            &&& step is ShowConfig <==> cli.command is Config
            &&& step is Compose <==> cli.command is Send
            &&& cli.command is Task ==> step is Connect
            &&& cli.command matches Command::Completion { shell } ==> step == Step::Complete(shell)
            &&& cli.command matches Command::Card { command: CardCommand::Get(get) } ==> {
                &&& get.extended ==> step is Connect
                &&& !get.extended ==> step == Step::ShowCard { validate: get.validate }
            }
        },
{
}

/// Only an agent that does not stream is asked again without it; any other
/// failure to open a stream is the failure of the command.
pub proof fn only_missing_streaming_is_worked_around(error: A2AError, r: StreamRefused)
    requires
        call_ensures(stream_refused, (error,), r),
    ensures
        r is FallBack <==> error.code == UNSUPPORTED_OPERATION,
        r matches StreamRefused::Fail(failure) ==> (failure matches CliError::A2A(told) && told.code
            == error.code && told.message@ == error.message@),
{
}

/// A command that got its answer succeeds with it unless closing fails; one
/// that did not fails with what it got, whatever closing comes to.
pub proof fn answers_outrank_closing<V>(
    result: Result<V, A2AError>,
    closed: Result<(), A2AError>,
    r: Result<V, CliError>,
)
    requires
        call_ensures(finish_client_call::<V>, (result, closed), r),
    ensures
        r is Ok <==> result is Ok && closed is Ok,
        r matches Ok(value) ==> result == Ok::<V, A2AError>(value),
        result matches Err(error) ==> (r matches Err(CliError::A2A(told)) && told.deep_view()
            == error.deep_view()),
        result is Ok ==> (closed matches Err(error) ==> (r matches Err(CliError::A2A(told))
            && told.deep_view() == error.deep_view())),
{
}

/// Text is printed as text; JSON takes one line where it is streamed or where
/// that was asked for, and several otherwise.
pub proof fn streamed_json_takes_one_line(cli: Cli, single: Form, streamed: Form)
    requires
        call_ensures(print_output, (&cli,), single),
        call_ensures(print_stream_value, (&cli,), streamed),
    ensures
        single == Form::Text <==> cli.output == OutputFormat::Text,
        streamed == Form::Text <==> cli.output == OutputFormat::Text,
        cli.output == OutputFormat::Json ==> streamed == Form::Compact,
        cli.output == OutputFormat::Json && cli.compact ==> single == Form::Compact,
        cli.output == OutputFormat::Json && !cli.compact ==> single == Form::Pretty,
{
}

} // verus!
