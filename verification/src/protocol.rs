//! The protocol's messages, tasks, cards and errors.

use vstd::prelude::*;

use crate::json::{Json, JsonView};
use crate::replica::Replica;

verus! {

/// The protocol version this library speaks.
pub const VERSION: &'static str = "1.0";

/// The JSON-RPC binding.
pub const TRANSPORT_PROTOCOL_JSONRPC: &'static str = "JSONRPC";

/// The HTTP+JSON binding.
pub const TRANSPORT_PROTOCOL_HTTP_JSON: &'static str = "HTTP+JSON";

/// The gRPC binding.
pub const TRANSPORT_PROTOCOL_GRPC: &'static str = "GRPC";

/// The service parameter that carries the protocol version.
pub const SVC_PARAM_VERSION: &'static str = "A2A-Version";

/// The members of a JSON object.
pub type Members = Vec<(String, Json)>;

/// What the members of a JSON object stand for.
pub type MembersView = Seq<(Seq<char>, JsonView)>;

/// The state of a task.
#[derive(Debug, Clone, Copy, PartialEq, Eq, Structural)]
pub enum TaskState {
    Unspecified,
    Submitted,
    Working,
    Completed,
    Failed,
    Canceled,
    InputRequired,
    Rejected,
    AuthRequired,
}

impl TaskState {
    /// Whether a task in this state never changes state again.
    pub open spec fn terminal(self) -> bool {
        match self {
            TaskState::Completed | TaskState::Failed | TaskState::Canceled
            | TaskState::Rejected => true,
            _ => false,
        }
    }

    /// Whether a task in this state never changes state again.
    pub fn is_terminal(&self) -> (r: bool)
        ensures
            r == self.terminal(),
    {
        match self {
            TaskState::Completed | TaskState::Failed | TaskState::Canceled
            | TaskState::Rejected => true,
            _ => false,
        }
    }
}

impl DeepView for TaskState {
    type V = TaskState;

    open spec fn deep_view(&self) -> TaskState {
        *self
    }
}

impl Replica for TaskState {
    fn replica(&self) -> (r: Self) {
        *self
    }
}

/// Who wrote a message.
#[derive(Debug, Clone, Copy, PartialEq, Eq, Structural)]
pub enum Role {
    Unspecified,
    User,
    Agent,
}

impl DeepView for Role {
    type V = Role;

    open spec fn deep_view(&self) -> Role {
        *self
    }
}

/// A moment in Coordinated Universal Time, counted from the Unix epoch.
#[derive(Debug, Clone, Copy, PartialEq, Eq, Structural)]
pub struct Timestamp {
    pub seconds: i64,
    pub nanoseconds: u32,
}

impl DeepView for Timestamp {
    type V = Timestamp;

    open spec fn deep_view(&self) -> Timestamp {
        *self
    }
}

impl Replica for Timestamp {
    fn replica(&self) -> (r: Self) {
        *self
    }
}

/// What a part holds.
#[derive(Debug, PartialEq, Eq)]
pub enum PartContent {
    Text(String),
    Data(Json),
    Raw(Vec<u8>),
    Url(String),
}

/// What a [`PartContent`] stands for.
#[verifier::ext_equal]
pub enum PartContentView {
    Text(Seq<char>),
    Data(JsonView),
    Raw(Seq<u8>),
    Url(Seq<char>),
}

impl DeepView for PartContent {
    type V = PartContentView;

    open spec fn deep_view(&self) -> PartContentView {
        match self {
            PartContent::Text(inner) => PartContentView::Text(inner.deep_view()),
            PartContent::Data(inner) => PartContentView::Data(inner.deep_view()),
            PartContent::Raw(inner) => PartContentView::Raw(inner.deep_view()),
            PartContent::Url(inner) => PartContentView::Url(inner.deep_view()),
        }
    }
}

impl Replica for PartContent {
    fn replica(&self) -> (r: Self) {
        match self {
            PartContent::Text(inner) => PartContent::Text(inner.replica()),
            PartContent::Data(inner) => PartContent::Data(inner.replica()),
            PartContent::Raw(inner) => PartContent::Raw(inner.replica()),
            PartContent::Url(inner) => PartContent::Url(inner.replica()),
        }
    }
}

impl Clone for PartContent {
    fn clone(&self) -> (r: Self)
        ensures
            r.deep_view() == self.deep_view(),
    {
        self.replica()
    }
}

/// One piece of a message or an artifact.
#[derive(Debug, PartialEq, Eq)]
pub struct Part {
    pub content: PartContent,
    pub media_type: Option<String>,
    pub filename: Option<String>,
    pub metadata: Option<Members>,
}

/// What a [`Part`] stands for.
#[verifier::ext_equal]
pub struct PartView {
    pub content: PartContentView,
    pub media_type: Option<Seq<char>>,
    pub filename: Option<Seq<char>>,
    pub metadata: Option<MembersView>,
}

impl DeepView for Part {
    type V = PartView;

    open spec fn deep_view(&self) -> PartView {
        PartView {
            content: self.content.deep_view(),
            media_type: self.media_type.deep_view(),
            filename: self.filename.deep_view(),
            metadata: self.metadata.deep_view(),
        }
    }
}

impl Replica for Part {
    fn replica(&self) -> (r: Self) {
        Part {
            content: self.content.replica(),
            media_type: self.media_type.replica(),
            filename: self.filename.replica(),
            metadata: self.metadata.replica(),
        }
    }
}

impl Clone for Part {
    fn clone(&self) -> (r: Self)
        ensures
            r.deep_view() == self.deep_view(),
    {
        self.replica()
    }
}

/// A message between a user and an agent.
#[derive(Debug, PartialEq, Eq)]
pub struct Message {
    pub message_id: String,
    pub context_id: Option<String>,
    pub task_id: Option<String>,
    pub role: Role,
    pub parts: Vec<Part>,
    pub metadata: Option<Members>,
    pub extensions: Option<Vec<String>>,
    pub reference_task_ids: Option<Vec<String>>,
}

/// What a [`Message`] stands for.
#[verifier::ext_equal]
pub struct MessageView {
    pub message_id: Seq<char>,
    pub context_id: Option<Seq<char>>,
    pub task_id: Option<Seq<char>>,
    pub role: Role,
    pub parts: Seq<PartView>,
    pub metadata: Option<MembersView>,
    pub extensions: Option<Seq<Seq<char>>>,
    pub reference_task_ids: Option<Seq<Seq<char>>>,
}

impl DeepView for Message {
    type V = MessageView;

    open spec fn deep_view(&self) -> MessageView {
        MessageView {
            message_id: self.message_id.deep_view(),
            context_id: self.context_id.deep_view(),
            task_id: self.task_id.deep_view(),
            role: self.role,
            parts: self.parts.deep_view(),
            metadata: self.metadata.deep_view(),
            extensions: self.extensions.deep_view(),
            reference_task_ids: self.reference_task_ids.deep_view(),
        }
    }
}

impl Replica for Message {
    fn replica(&self) -> (r: Self) {
        Message {
            message_id: self.message_id.replica(),
            context_id: self.context_id.replica(),
            task_id: self.task_id.replica(),
            role: self.role,
            parts: self.parts.replica(),
            metadata: self.metadata.replica(),
            extensions: self.extensions.replica(),
            reference_task_ids: self.reference_task_ids.replica(),
        }
    }
}

impl Clone for Message {
    fn clone(&self) -> (r: Self)
        ensures
            r.deep_view() == self.deep_view(),
    {
        self.replica()
    }
}

/// Where a task stands.
#[derive(Debug, PartialEq, Eq)]
pub struct TaskStatus {
    pub state: TaskState,
    pub message: Option<Message>,
    pub timestamp: Option<Timestamp>,
}

/// What a [`TaskStatus`] stands for.
#[verifier::ext_equal]
pub struct TaskStatusView {
    pub state: TaskState,
    pub message: Option<MessageView>,
    pub timestamp: Option<Timestamp>,
}

impl DeepView for TaskStatus {
    type V = TaskStatusView;

    open spec fn deep_view(&self) -> TaskStatusView {
        TaskStatusView {
            state: self.state,
            message: self.message.deep_view(),
            timestamp: self.timestamp.deep_view(),
        }
    }
}

impl Replica for TaskStatus {
    fn replica(&self) -> (r: Self) {
        TaskStatus {
            state: self.state,
            message: self.message.replica(),
            timestamp: self.timestamp.replica(),
        }
    }
}

impl Clone for TaskStatus {
    fn clone(&self) -> (r: Self)
        ensures
            r.deep_view() == self.deep_view(),
    {
        self.replica()
    }
}

/// An output of a task.
#[derive(Debug, PartialEq, Eq)]
pub struct Artifact {
    pub artifact_id: String,
    pub name: Option<String>,
    pub description: Option<String>,
    pub parts: Vec<Part>,
    pub metadata: Option<Members>,
    pub extensions: Option<Vec<String>>,
}

/// What an [`Artifact`] stands for.
#[verifier::ext_equal]
pub struct ArtifactView {
    pub artifact_id: Seq<char>,
    pub name: Option<Seq<char>>,
    pub description: Option<Seq<char>>,
    pub parts: Seq<PartView>,
    pub metadata: Option<MembersView>,
    pub extensions: Option<Seq<Seq<char>>>,
}

impl DeepView for Artifact {
    type V = ArtifactView;

    open spec fn deep_view(&self) -> ArtifactView {
        ArtifactView {
            artifact_id: self.artifact_id.deep_view(),
            name: self.name.deep_view(),
            description: self.description.deep_view(),
            parts: self.parts.deep_view(),
            metadata: self.metadata.deep_view(),
            extensions: self.extensions.deep_view(),
        }
    }
}

impl Replica for Artifact {
    fn replica(&self) -> (r: Self) {
        Artifact {
            artifact_id: self.artifact_id.replica(),
            name: self.name.replica(),
            description: self.description.replica(),
            parts: self.parts.replica(),
            metadata: self.metadata.replica(),
            extensions: self.extensions.replica(),
        }
    }
}

impl Clone for Artifact {
    fn clone(&self) -> (r: Self)
        ensures
            r.deep_view() == self.deep_view(),
    {
        self.replica()
    }
}

/// A unit of work an agent performs.
#[derive(Debug, PartialEq, Eq)]
pub struct Task {
    pub id: String,
    pub context_id: String,
    pub status: TaskStatus,
    pub artifacts: Option<Vec<Artifact>>,
    pub history: Option<Vec<Message>>,
    pub metadata: Option<Members>,
}

/// What a [`Task`] stands for.
#[verifier::ext_equal]
pub struct TaskView {
    pub id: Seq<char>,
    pub context_id: Seq<char>,
    pub status: TaskStatusView,
    pub artifacts: Option<Seq<ArtifactView>>,
    pub history: Option<Seq<MessageView>>,
    pub metadata: Option<MembersView>,
}

impl DeepView for Task {
    type V = TaskView;

    open spec fn deep_view(&self) -> TaskView {
        TaskView {
            id: self.id.deep_view(),
            context_id: self.context_id.deep_view(),
            status: self.status.deep_view(),
            artifacts: self.artifacts.deep_view(),
            history: self.history.deep_view(),
            metadata: self.metadata.deep_view(),
        }
    }
}

impl Replica for Task {
    fn replica(&self) -> (r: Self) {
        Task {
            id: self.id.replica(),
            context_id: self.context_id.replica(),
            status: self.status.replica(),
            artifacts: self.artifacts.replica(),
            history: self.history.replica(),
            metadata: self.metadata.replica(),
        }
    }
}

impl Clone for Task {
    fn clone(&self) -> (r: Self)
        ensures
            r.deep_view() == self.deep_view(),
    {
        self.replica()
    }
}

/// A task moved to another status.
#[derive(Debug, PartialEq, Eq)]
pub struct TaskStatusUpdateEvent {
    pub task_id: String,
    pub context_id: String,
    pub status: TaskStatus,
    pub metadata: Option<Members>,
}

/// What a [`TaskStatusUpdateEvent`] stands for.
#[verifier::ext_equal]
pub struct TaskStatusUpdateEventView {
    pub task_id: Seq<char>,
    pub context_id: Seq<char>,
    pub status: TaskStatusView,
    pub metadata: Option<MembersView>,
}

impl DeepView for TaskStatusUpdateEvent {
    type V = TaskStatusUpdateEventView;

    open spec fn deep_view(&self) -> TaskStatusUpdateEventView {
        TaskStatusUpdateEventView {
            task_id: self.task_id.deep_view(),
            context_id: self.context_id.deep_view(),
            status: self.status.deep_view(),
            metadata: self.metadata.deep_view(),
        }
    }
}

impl Replica for TaskStatusUpdateEvent {
    fn replica(&self) -> (r: Self) {
        TaskStatusUpdateEvent {
            task_id: self.task_id.replica(),
            context_id: self.context_id.replica(),
            status: self.status.replica(),
            metadata: self.metadata.replica(),
        }
    }
}

impl Clone for TaskStatusUpdateEvent {
    fn clone(&self) -> (r: Self)
        ensures
            r.deep_view() == self.deep_view(),
    {
        self.replica()
    }
}

/// A task produced an artifact, or a chunk of one.
#[derive(Debug, PartialEq, Eq)]
pub struct TaskArtifactUpdateEvent {
    pub task_id: String,
    pub context_id: String,
    pub artifact: Artifact,
    /// Whether the chunk continues an artifact already sent.
    pub append: Option<bool>,
    pub last_chunk: Option<bool>,
    pub metadata: Option<Members>,
}

/// What a [`TaskArtifactUpdateEvent`] stands for.
#[verifier::ext_equal]
pub struct TaskArtifactUpdateEventView {
    pub task_id: Seq<char>,
    pub context_id: Seq<char>,
    pub artifact: ArtifactView,
    pub append: Option<bool>,
    pub last_chunk: Option<bool>,
    pub metadata: Option<MembersView>,
}

impl DeepView for TaskArtifactUpdateEvent {
    type V = TaskArtifactUpdateEventView;

    open spec fn deep_view(&self) -> TaskArtifactUpdateEventView {
        TaskArtifactUpdateEventView {
            task_id: self.task_id.deep_view(),
            context_id: self.context_id.deep_view(),
            artifact: self.artifact.deep_view(),
            append: self.append.deep_view(),
            last_chunk: self.last_chunk.deep_view(),
            metadata: self.metadata.deep_view(),
        }
    }
}

impl Replica for TaskArtifactUpdateEvent {
    fn replica(&self) -> (r: Self) {
        TaskArtifactUpdateEvent {
            task_id: self.task_id.replica(),
            context_id: self.context_id.replica(),
            artifact: self.artifact.replica(),
            append: self.append.replica(),
            last_chunk: self.last_chunk.replica(),
            metadata: self.metadata.replica(),
        }
    }
}

impl Clone for TaskArtifactUpdateEvent {
    fn clone(&self) -> (r: Self)
        ensures
            r.deep_view() == self.deep_view(),
    {
        self.replica()
    }
}

/// How a push notification authenticates itself.
#[derive(Debug, PartialEq, Eq)]
pub struct AuthenticationInfo {
    pub scheme: String,
    pub credentials: Option<String>,
}

/// What an [`AuthenticationInfo`] stands for.
#[verifier::ext_equal]
pub struct AuthenticationInfoView {
    pub scheme: Seq<char>,
    pub credentials: Option<Seq<char>>,
}

impl DeepView for AuthenticationInfo {
    type V = AuthenticationInfoView;

    open spec fn deep_view(&self) -> AuthenticationInfoView {
        AuthenticationInfoView {
            scheme: self.scheme.deep_view(),
            credentials: self.credentials.deep_view(),
        }
    }
}

impl Replica for AuthenticationInfo {
    fn replica(&self) -> (r: Self) {
        AuthenticationInfo {
            scheme: self.scheme.replica(),
            credentials: self.credentials.replica(),
        }
    }
}

impl Clone for AuthenticationInfo {
    fn clone(&self) -> (r: Self)
        ensures
            r.deep_view() == self.deep_view(),
    {
        self.replica()
    }
}

/// Where and how to notify about a task.
#[derive(Debug, PartialEq, Eq)]
pub struct TaskPushNotificationConfig {
    pub task_id: String,
    pub url: String,
    pub id: Option<String>,
    pub token: Option<String>,
    pub authentication: Option<AuthenticationInfo>,
    pub tenant: Option<String>,
}

/// What a [`TaskPushNotificationConfig`] stands for.
#[verifier::ext_equal]
pub struct TaskPushNotificationConfigView {
    pub task_id: Seq<char>,
    pub url: Seq<char>,
    pub id: Option<Seq<char>>,
    pub token: Option<Seq<char>>,
    pub authentication: Option<AuthenticationInfoView>,
    pub tenant: Option<Seq<char>>,
}

impl DeepView for TaskPushNotificationConfig {
    type V = TaskPushNotificationConfigView;

    open spec fn deep_view(&self) -> TaskPushNotificationConfigView {
        TaskPushNotificationConfigView {
            task_id: self.task_id.deep_view(),
            url: self.url.deep_view(),
            id: self.id.deep_view(),
            token: self.token.deep_view(),
            authentication: self.authentication.deep_view(),
            tenant: self.tenant.deep_view(),
        }
    }
}

impl Replica for TaskPushNotificationConfig {
    fn replica(&self) -> (r: Self) {
        TaskPushNotificationConfig {
            task_id: self.task_id.replica(),
            url: self.url.replica(),
            id: self.id.replica(),
            token: self.token.replica(),
            authentication: self.authentication.replica(),
            tenant: self.tenant.replica(),
        }
    }
}

impl Clone for TaskPushNotificationConfig {
    fn clone(&self) -> (r: Self)
        ensures
            r.deep_view() == self.deep_view(),
    {
        self.replica()
    }
}

/// How the agent should answer a message.
#[derive(Debug, PartialEq, Eq)]
pub struct SendMessageConfiguration {
    pub accepted_output_modes: Option<Vec<String>>,
    pub task_push_notification_config: Option<TaskPushNotificationConfig>,
    pub history_length: Option<i32>,
    pub return_immediately: Option<bool>,
}

/// What a [`SendMessageConfiguration`] stands for.
#[verifier::ext_equal]
pub struct SendMessageConfigurationView {
    pub accepted_output_modes: Option<Seq<Seq<char>>>,
    pub task_push_notification_config: Option<TaskPushNotificationConfigView>,
    pub history_length: Option<i32>,
    pub return_immediately: Option<bool>,
}

impl DeepView for SendMessageConfiguration {
    type V = SendMessageConfigurationView;

    open spec fn deep_view(&self) -> SendMessageConfigurationView {
        SendMessageConfigurationView {
            accepted_output_modes: self.accepted_output_modes.deep_view(),
            task_push_notification_config: self.task_push_notification_config.deep_view(),
            history_length: self.history_length.deep_view(),
            return_immediately: self.return_immediately.deep_view(),
        }
    }
}

impl Replica for SendMessageConfiguration {
    fn replica(&self) -> (r: Self) {
        SendMessageConfiguration {
            accepted_output_modes: self.accepted_output_modes.replica(),
            task_push_notification_config: self.task_push_notification_config.replica(),
            history_length: self.history_length.replica(),
            return_immediately: self.return_immediately.replica(),
        }
    }
}

impl Clone for SendMessageConfiguration {
    fn clone(&self) -> (r: Self)
        ensures
            r.deep_view() == self.deep_view(),
    {
        self.replica()
    }
}

/// A message for the agent.
#[derive(Debug, PartialEq, Eq)]
pub struct SendMessageRequest {
    pub message: Message,
    pub configuration: Option<SendMessageConfiguration>,
    pub metadata: Option<Members>,
    pub tenant: Option<String>,
}

/// What a [`SendMessageRequest`] stands for.
#[verifier::ext_equal]
pub struct SendMessageRequestView {
    pub message: MessageView,
    pub configuration: Option<SendMessageConfigurationView>,
    pub metadata: Option<MembersView>,
    pub tenant: Option<Seq<char>>,
}

impl DeepView for SendMessageRequest {
    type V = SendMessageRequestView;

    open spec fn deep_view(&self) -> SendMessageRequestView {
        SendMessageRequestView {
            message: self.message.deep_view(),
            configuration: self.configuration.deep_view(),
            metadata: self.metadata.deep_view(),
            tenant: self.tenant.deep_view(),
        }
    }
}

impl Replica for SendMessageRequest {
    fn replica(&self) -> (r: Self) {
        SendMessageRequest {
            message: self.message.replica(),
            configuration: self.configuration.replica(),
            metadata: self.metadata.replica(),
            tenant: self.tenant.replica(),
        }
    }
}

impl Clone for SendMessageRequest {
    fn clone(&self) -> (r: Self)
        ensures
            r.deep_view() == self.deep_view(),
    {
        self.replica()
    }
}

/// Asks for one task.
#[derive(Debug, PartialEq, Eq)]
pub struct GetTaskRequest {
    pub id: String,
    pub history_length: Option<i32>,
    pub tenant: Option<String>,
}

/// What a [`GetTaskRequest`] stands for.
#[verifier::ext_equal]
pub struct GetTaskRequestView {
    pub id: Seq<char>,
    pub history_length: Option<i32>,
    pub tenant: Option<Seq<char>>,
}

impl DeepView for GetTaskRequest {
    type V = GetTaskRequestView;

    open spec fn deep_view(&self) -> GetTaskRequestView {
        GetTaskRequestView {
            id: self.id.deep_view(),
            history_length: self.history_length.deep_view(),
            tenant: self.tenant.deep_view(),
        }
    }
}

impl Replica for GetTaskRequest {
    fn replica(&self) -> (r: Self) {
        GetTaskRequest {
            id: self.id.replica(),
            history_length: self.history_length.replica(),
            tenant: self.tenant.replica(),
        }
    }
}

impl Clone for GetTaskRequest {
    fn clone(&self) -> (r: Self)
        ensures
            r.deep_view() == self.deep_view(),
    {
        self.replica()
    }
}

/// Asks for a page of tasks.
#[derive(Debug, PartialEq, Eq)]
pub struct ListTasksRequest {
    pub context_id: Option<String>,
    pub status: Option<TaskState>,
    pub page_size: Option<i32>,
    pub page_token: Option<String>,
    pub history_length: Option<i32>,
    pub status_timestamp_after: Option<Timestamp>,
    pub include_artifacts: Option<bool>,
    pub tenant: Option<String>,
}

/// What a [`ListTasksRequest`] stands for.
#[verifier::ext_equal]
pub struct ListTasksRequestView {
    pub context_id: Option<Seq<char>>,
    pub status: Option<TaskState>,
    pub page_size: Option<i32>,
    pub page_token: Option<Seq<char>>,
    pub history_length: Option<i32>,
    pub status_timestamp_after: Option<Timestamp>,
    pub include_artifacts: Option<bool>,
    pub tenant: Option<Seq<char>>,
}

impl DeepView for ListTasksRequest {
    type V = ListTasksRequestView;

    open spec fn deep_view(&self) -> ListTasksRequestView {
        ListTasksRequestView {
            context_id: self.context_id.deep_view(),
            status: self.status.deep_view(),
            page_size: self.page_size.deep_view(),
            page_token: self.page_token.deep_view(),
            history_length: self.history_length.deep_view(),
            status_timestamp_after: self.status_timestamp_after.deep_view(),
            include_artifacts: self.include_artifacts.deep_view(),
            tenant: self.tenant.deep_view(),
        }
    }
}

impl Replica for ListTasksRequest {
    fn replica(&self) -> (r: Self) {
        ListTasksRequest {
            context_id: self.context_id.replica(),
            status: self.status.replica(),
            page_size: self.page_size.replica(),
            page_token: self.page_token.replica(),
            history_length: self.history_length.replica(),
            status_timestamp_after: self.status_timestamp_after.replica(),
            include_artifacts: self.include_artifacts.replica(),
            tenant: self.tenant.replica(),
        }
    }
}

impl Clone for ListTasksRequest {
    fn clone(&self) -> (r: Self)
        ensures
            r.deep_view() == self.deep_view(),
    {
        self.replica()
    }
}

/// A page of tasks.
#[derive(Debug, PartialEq, Eq)]
pub struct ListTasksResponse {
    pub tasks: Vec<Task>,
    /// Empty on the last page.
    pub next_page_token: String,
    pub page_size: i32,
    pub total_size: i32,
}

/// What a [`ListTasksResponse`] stands for.
#[verifier::ext_equal]
pub struct ListTasksResponseView {
    pub tasks: Seq<TaskView>,
    pub next_page_token: Seq<char>,
    pub page_size: i32,
    pub total_size: i32,
}

impl DeepView for ListTasksResponse {
    type V = ListTasksResponseView;

    open spec fn deep_view(&self) -> ListTasksResponseView {
        ListTasksResponseView {
            tasks: self.tasks.deep_view(),
            next_page_token: self.next_page_token.deep_view(),
            page_size: self.page_size,
            total_size: self.total_size,
        }
    }
}

impl Replica for ListTasksResponse {
    fn replica(&self) -> (r: Self) {
        ListTasksResponse {
            tasks: self.tasks.replica(),
            next_page_token: self.next_page_token.replica(),
            page_size: self.page_size,
            total_size: self.total_size,
        }
    }
}

impl Clone for ListTasksResponse {
    fn clone(&self) -> (r: Self)
        ensures
            r.deep_view() == self.deep_view(),
    {
        self.replica()
    }
}

/// Asks to cancel a task.
#[derive(Debug, PartialEq, Eq)]
pub struct CancelTaskRequest {
    pub id: String,
    pub metadata: Option<Members>,
    pub tenant: Option<String>,
}

/// What a [`CancelTaskRequest`] stands for.
#[verifier::ext_equal]
pub struct CancelTaskRequestView {
    pub id: Seq<char>,
    pub metadata: Option<MembersView>,
    pub tenant: Option<Seq<char>>,
}

impl DeepView for CancelTaskRequest {
    type V = CancelTaskRequestView;

    open spec fn deep_view(&self) -> CancelTaskRequestView {
        CancelTaskRequestView {
            id: self.id.deep_view(),
            metadata: self.metadata.deep_view(),
            tenant: self.tenant.deep_view(),
        }
    }
}

impl Replica for CancelTaskRequest {
    fn replica(&self) -> (r: Self) {
        CancelTaskRequest {
            id: self.id.replica(),
            metadata: self.metadata.replica(),
            tenant: self.tenant.replica(),
        }
    }
}

impl Clone for CancelTaskRequest {
    fn clone(&self) -> (r: Self)
        ensures
            r.deep_view() == self.deep_view(),
    {
        self.replica()
    }
}

/// Asks for the events of a running task.
#[derive(Debug, PartialEq, Eq)]
pub struct SubscribeToTaskRequest {
    pub id: String,
    pub tenant: Option<String>,
}

/// What a [`SubscribeToTaskRequest`] stands for.
#[verifier::ext_equal]
pub struct SubscribeToTaskRequestView {
    pub id: Seq<char>,
    pub tenant: Option<Seq<char>>,
}

impl DeepView for SubscribeToTaskRequest {
    type V = SubscribeToTaskRequestView;

    open spec fn deep_view(&self) -> SubscribeToTaskRequestView {
        SubscribeToTaskRequestView {
            id: self.id.deep_view(),
            tenant: self.tenant.deep_view(),
        }
    }
}

impl Replica for SubscribeToTaskRequest {
    fn replica(&self) -> (r: Self) {
        SubscribeToTaskRequest {
            id: self.id.replica(),
            tenant: self.tenant.replica(),
        }
    }
}

impl Clone for SubscribeToTaskRequest {
    fn clone(&self) -> (r: Self)
        ensures
            r.deep_view() == self.deep_view(),
    {
        self.replica()
    }
}

/// Asks for one push configuration.
#[derive(Debug, PartialEq, Eq)]
pub struct GetTaskPushNotificationConfigRequest {
    pub task_id: String,
    pub id: String,
    pub tenant: Option<String>,
}

/// What a [`GetTaskPushNotificationConfigRequest`] stands for.
#[verifier::ext_equal]
pub struct GetTaskPushNotificationConfigRequestView {
    pub task_id: Seq<char>,
    pub id: Seq<char>,
    pub tenant: Option<Seq<char>>,
}

impl DeepView for GetTaskPushNotificationConfigRequest {
    type V = GetTaskPushNotificationConfigRequestView;

    open spec fn deep_view(&self) -> GetTaskPushNotificationConfigRequestView {
        GetTaskPushNotificationConfigRequestView {
            task_id: self.task_id.deep_view(),
            id: self.id.deep_view(),
            tenant: self.tenant.deep_view(),
        }
    }
}

impl Replica for GetTaskPushNotificationConfigRequest {
    fn replica(&self) -> (r: Self) {
        GetTaskPushNotificationConfigRequest {
            task_id: self.task_id.replica(),
            id: self.id.replica(),
            tenant: self.tenant.replica(),
        }
    }
}

impl Clone for GetTaskPushNotificationConfigRequest {
    fn clone(&self) -> (r: Self)
        ensures
            r.deep_view() == self.deep_view(),
    {
        self.replica()
    }
}

/// Asks for a page of push configurations.
#[derive(Debug, PartialEq, Eq)]
pub struct ListTaskPushNotificationConfigsRequest {
    pub task_id: String,
    pub page_size: Option<i32>,
    pub page_token: Option<String>,
    pub tenant: Option<String>,
}

/// What a [`ListTaskPushNotificationConfigsRequest`] stands for.
#[verifier::ext_equal]
pub struct ListTaskPushNotificationConfigsRequestView {
    pub task_id: Seq<char>,
    pub page_size: Option<i32>,
    pub page_token: Option<Seq<char>>,
    pub tenant: Option<Seq<char>>,
}

impl DeepView for ListTaskPushNotificationConfigsRequest {
    type V = ListTaskPushNotificationConfigsRequestView;

    open spec fn deep_view(&self) -> ListTaskPushNotificationConfigsRequestView {
        ListTaskPushNotificationConfigsRequestView {
            task_id: self.task_id.deep_view(),
            page_size: self.page_size.deep_view(),
            page_token: self.page_token.deep_view(),
            tenant: self.tenant.deep_view(),
        }
    }
}

impl Replica for ListTaskPushNotificationConfigsRequest {
    fn replica(&self) -> (r: Self) {
        ListTaskPushNotificationConfigsRequest {
            task_id: self.task_id.replica(),
            page_size: self.page_size.replica(),
            page_token: self.page_token.replica(),
            tenant: self.tenant.replica(),
        }
    }
}

impl Clone for ListTaskPushNotificationConfigsRequest {
    fn clone(&self) -> (r: Self)
        ensures
            r.deep_view() == self.deep_view(),
    {
        self.replica()
    }
}

/// A page of push configurations.
#[derive(Debug, PartialEq, Eq)]
pub struct ListTaskPushNotificationConfigsResponse {
    pub configs: Vec<TaskPushNotificationConfig>,
    pub next_page_token: Option<String>,
}

/// What a [`ListTaskPushNotificationConfigsResponse`] stands for.
#[verifier::ext_equal]
pub struct ListTaskPushNotificationConfigsResponseView {
    pub configs: Seq<TaskPushNotificationConfigView>,
    pub next_page_token: Option<Seq<char>>,
}

impl DeepView for ListTaskPushNotificationConfigsResponse {
    type V = ListTaskPushNotificationConfigsResponseView;

    open spec fn deep_view(&self) -> ListTaskPushNotificationConfigsResponseView {
        ListTaskPushNotificationConfigsResponseView {
            configs: self.configs.deep_view(),
            next_page_token: self.next_page_token.deep_view(),
        }
    }
}

impl Replica for ListTaskPushNotificationConfigsResponse {
    fn replica(&self) -> (r: Self) {
        ListTaskPushNotificationConfigsResponse {
            configs: self.configs.replica(),
            next_page_token: self.next_page_token.replica(),
        }
    }
}

impl Clone for ListTaskPushNotificationConfigsResponse {
    fn clone(&self) -> (r: Self)
        ensures
            r.deep_view() == self.deep_view(),
    {
        self.replica()
    }
}

/// Asks to delete a push configuration.
#[derive(Debug, PartialEq, Eq)]
pub struct DeleteTaskPushNotificationConfigRequest {
    pub task_id: String,
    pub id: String,
    pub tenant: Option<String>,
}

/// What a [`DeleteTaskPushNotificationConfigRequest`] stands for.
#[verifier::ext_equal]
pub struct DeleteTaskPushNotificationConfigRequestView {
    pub task_id: Seq<char>,
    pub id: Seq<char>,
    pub tenant: Option<Seq<char>>,
}

impl DeepView for DeleteTaskPushNotificationConfigRequest {
    type V = DeleteTaskPushNotificationConfigRequestView;

    open spec fn deep_view(&self) -> DeleteTaskPushNotificationConfigRequestView {
        DeleteTaskPushNotificationConfigRequestView {
            task_id: self.task_id.deep_view(),
            id: self.id.deep_view(),
            tenant: self.tenant.deep_view(),
        }
    }
}

impl Replica for DeleteTaskPushNotificationConfigRequest {
    fn replica(&self) -> (r: Self) {
        DeleteTaskPushNotificationConfigRequest {
            task_id: self.task_id.replica(),
            id: self.id.replica(),
            tenant: self.tenant.replica(),
        }
    }
}

impl Clone for DeleteTaskPushNotificationConfigRequest {
    fn clone(&self) -> (r: Self)
        ensures
            r.deep_view() == self.deep_view(),
    {
        self.replica()
    }
}

/// Asks for the extended agent card.
#[derive(Debug, PartialEq, Eq)]
pub struct GetExtendedAgentCardRequest {
    pub tenant: Option<String>,
}

/// What a [`GetExtendedAgentCardRequest`] stands for.
#[verifier::ext_equal]
pub struct GetExtendedAgentCardRequestView {
    pub tenant: Option<Seq<char>>,
}

impl DeepView for GetExtendedAgentCardRequest {
    type V = GetExtendedAgentCardRequestView;

    open spec fn deep_view(&self) -> GetExtendedAgentCardRequestView {
        GetExtendedAgentCardRequestView {
            tenant: self.tenant.deep_view(),
        }
    }
}

impl Replica for GetExtendedAgentCardRequest {
    fn replica(&self) -> (r: Self) {
        GetExtendedAgentCardRequest {
            tenant: self.tenant.replica(),
        }
    }
}

impl Clone for GetExtendedAgentCardRequest {
    fn clone(&self) -> (r: Self)
        ensures
            r.deep_view() == self.deep_view(),
    {
        self.replica()
    }
}

/// One way to reach an agent.
#[derive(Debug, PartialEq, Eq)]
pub struct AgentInterface {
    pub url: String,
    pub protocol_binding: String,
    pub protocol_version: String,
    pub tenant: Option<String>,
}

/// What an [`AgentInterface`] stands for.
#[verifier::ext_equal]
pub struct AgentInterfaceView {
    pub url: Seq<char>,
    pub protocol_binding: Seq<char>,
    pub protocol_version: Seq<char>,
    pub tenant: Option<Seq<char>>,
}

impl DeepView for AgentInterface {
    type V = AgentInterfaceView;

    open spec fn deep_view(&self) -> AgentInterfaceView {
        AgentInterfaceView {
            url: self.url.deep_view(),
            protocol_binding: self.protocol_binding.deep_view(),
            protocol_version: self.protocol_version.deep_view(),
            tenant: self.tenant.deep_view(),
        }
    }
}

impl Replica for AgentInterface {
    fn replica(&self) -> (r: Self) {
        AgentInterface {
            url: self.url.replica(),
            protocol_binding: self.protocol_binding.replica(),
            protocol_version: self.protocol_version.replica(),
            tenant: self.tenant.replica(),
        }
    }
}

impl Clone for AgentInterface {
    fn clone(&self) -> (r: Self)
        ensures
            r.deep_view() == self.deep_view(),
    {
        self.replica()
    }
}

/// What an agent declares it can do.
#[derive(Debug, PartialEq, Eq)]
pub struct AgentCapabilities {
    pub streaming: Option<bool>,
    pub push_notifications: Option<bool>,
    pub extensions: Option<Vec<Json>>,
    pub extended_agent_card: Option<bool>,
}

/// What an [`AgentCapabilities`] stands for.
#[verifier::ext_equal]
pub struct AgentCapabilitiesView {
    pub streaming: Option<bool>,
    pub push_notifications: Option<bool>,
    pub extensions: Option<Seq<JsonView>>,
    pub extended_agent_card: Option<bool>,
}

impl DeepView for AgentCapabilities {
    type V = AgentCapabilitiesView;

    open spec fn deep_view(&self) -> AgentCapabilitiesView {
        AgentCapabilitiesView {
            streaming: self.streaming.deep_view(),
            push_notifications: self.push_notifications.deep_view(),
            extensions: self.extensions.deep_view(),
            extended_agent_card: self.extended_agent_card.deep_view(),
        }
    }
}

impl Replica for AgentCapabilities {
    fn replica(&self) -> (r: Self) {
        AgentCapabilities {
            streaming: self.streaming.replica(),
            push_notifications: self.push_notifications.replica(),
            extensions: self.extensions.replica(),
            extended_agent_card: self.extended_agent_card.replica(),
        }
    }
}

impl Clone for AgentCapabilities {
    fn clone(&self) -> (r: Self)
        ensures
            r.deep_view() == self.deep_view(),
    {
        self.replica()
    }
}

/// What an agent publishes about itself.
#[derive(Debug, PartialEq, Eq)]
pub struct AgentCard {
    pub name: String,
    pub description: String,
    pub version: String,
    pub supported_interfaces: Vec<AgentInterface>,
    pub capabilities: AgentCapabilities,
    pub default_input_modes: Vec<String>,
    pub default_output_modes: Vec<String>,
    pub skills: Vec<Json>,
    pub provider: Option<Json>,
    pub documentation_url: Option<String>,
    pub icon_url: Option<String>,
    pub security_schemes: Option<Json>,
    pub security_requirements: Option<Json>,
    pub signatures: Option<Json>,
}

/// What an [`AgentCard`] stands for.
#[verifier::ext_equal]
pub struct AgentCardView {
    pub name: Seq<char>,
    pub description: Seq<char>,
    pub version: Seq<char>,
    pub supported_interfaces: Seq<AgentInterfaceView>,
    pub capabilities: AgentCapabilitiesView,
    pub default_input_modes: Seq<Seq<char>>,
    pub default_output_modes: Seq<Seq<char>>,
    pub skills: Seq<JsonView>,
    pub provider: Option<JsonView>,
    pub documentation_url: Option<Seq<char>>,
    pub icon_url: Option<Seq<char>>,
    pub security_schemes: Option<JsonView>,
    pub security_requirements: Option<JsonView>,
    pub signatures: Option<JsonView>,
}

impl DeepView for AgentCard {
    type V = AgentCardView;

    open spec fn deep_view(&self) -> AgentCardView {
        AgentCardView {
            name: self.name.deep_view(),
            description: self.description.deep_view(),
            version: self.version.deep_view(),
            supported_interfaces: self.supported_interfaces.deep_view(),
            capabilities: self.capabilities.deep_view(),
            default_input_modes: self.default_input_modes.deep_view(),
            default_output_modes: self.default_output_modes.deep_view(),
            skills: self.skills.deep_view(),
            provider: self.provider.deep_view(),
            documentation_url: self.documentation_url.deep_view(),
            icon_url: self.icon_url.deep_view(),
            security_schemes: self.security_schemes.deep_view(),
            security_requirements: self.security_requirements.deep_view(),
            signatures: self.signatures.deep_view(),
        }
    }
}

impl Replica for AgentCard {
    fn replica(&self) -> (r: Self) {
        AgentCard {
            name: self.name.replica(),
            description: self.description.replica(),
            version: self.version.replica(),
            supported_interfaces: self.supported_interfaces.replica(),
            capabilities: self.capabilities.replica(),
            default_input_modes: self.default_input_modes.replica(),
            default_output_modes: self.default_output_modes.replica(),
            skills: self.skills.replica(),
            provider: self.provider.replica(),
            documentation_url: self.documentation_url.replica(),
            icon_url: self.icon_url.replica(),
            security_schemes: self.security_schemes.replica(),
            security_requirements: self.security_requirements.replica(),
            signatures: self.signatures.replica(),
        }
    }
}

impl Clone for AgentCard {
    fn clone(&self) -> (r: Self)
        ensures
            r.deep_view() == self.deep_view(),
    {
        self.replica()
    }
}

/// An error of the protocol.
#[derive(Debug, PartialEq, Eq)]
pub struct A2AError {
    pub code: i32,
    pub message: String,
}

/// What an [`A2AError`] stands for.
#[verifier::ext_equal]
pub struct A2AErrorView {
    pub code: i32,
    pub message: Seq<char>,
}

impl DeepView for A2AError {
    type V = A2AErrorView;

    open spec fn deep_view(&self) -> A2AErrorView {
        A2AErrorView {
            code: self.code,
            message: self.message.deep_view(),
        }
    }
}

impl Replica for A2AError {
    fn replica(&self) -> (r: Self) {
        A2AError {
            code: self.code,
            message: self.message.replica(),
        }
    }
}

impl Clone for A2AError {
    fn clone(&self) -> (r: Self)
        ensures
            r.deep_view() == self.deep_view(),
    {
        self.replica()
    }
}

/// An event of an execution.
#[derive(Debug, PartialEq, Eq)]
pub enum StreamResponse {
    Task(Task),
    Message(Message),
    StatusUpdate(TaskStatusUpdateEvent),
    ArtifactUpdate(TaskArtifactUpdateEvent),
}

/// What a [`StreamResponse`] stands for.
#[verifier::ext_equal]
pub enum StreamResponseView {
    Task(TaskView),
    Message(MessageView),
    StatusUpdate(TaskStatusUpdateEventView),
    ArtifactUpdate(TaskArtifactUpdateEventView),
}

impl DeepView for StreamResponse {
    type V = StreamResponseView;

    open spec fn deep_view(&self) -> StreamResponseView {
        match self {
            StreamResponse::Task(inner) => StreamResponseView::Task(inner.deep_view()),
            StreamResponse::Message(inner) => StreamResponseView::Message(inner.deep_view()),
            StreamResponse::StatusUpdate(inner) => StreamResponseView::StatusUpdate(inner.deep_view()),
            StreamResponse::ArtifactUpdate(inner) => StreamResponseView::ArtifactUpdate(inner.deep_view()),
        }
    }
}

impl Replica for StreamResponse {
    fn replica(&self) -> (r: Self) {
        match self {
            StreamResponse::Task(inner) => StreamResponse::Task(inner.replica()),
            StreamResponse::Message(inner) => StreamResponse::Message(inner.replica()),
            StreamResponse::StatusUpdate(inner) => StreamResponse::StatusUpdate(inner.replica()),
            StreamResponse::ArtifactUpdate(inner) => StreamResponse::ArtifactUpdate(inner.replica()),
        }
    }
}

impl Clone for StreamResponse {
    fn clone(&self) -> (r: Self)
        ensures
            r.deep_view() == self.deep_view(),
    {
        self.replica()
    }
}

/// What a sent message is answered with.
#[derive(Debug, PartialEq, Eq)]
pub enum SendMessageResponse {
    Task(Task),
    Message(Message),
}

/// What a [`SendMessageResponse`] stands for.
#[verifier::ext_equal]
pub enum SendMessageResponseView {
    Task(TaskView),
    Message(MessageView),
}

impl DeepView for SendMessageResponse {
    type V = SendMessageResponseView;

    open spec fn deep_view(&self) -> SendMessageResponseView {
        match self {
            SendMessageResponse::Task(inner) => SendMessageResponseView::Task(inner.deep_view()),
            SendMessageResponse::Message(inner) => SendMessageResponseView::Message(inner.deep_view()),
        }
    }
}

impl Replica for SendMessageResponse {
    fn replica(&self) -> (r: Self) {
        match self {
            SendMessageResponse::Task(inner) => SendMessageResponse::Task(inner.replica()),
            SendMessageResponse::Message(inner) => SendMessageResponse::Message(inner.replica()),
        }
    }
}

impl Clone for SendMessageResponse {
    fn clone(&self) -> (r: Self)
        ensures
            r.deep_view() == self.deep_view(),
    {
        self.replica()
    }
}

/// A part that holds `content` and nothing else.
pub open spec fn bare_part(content: PartContentView) -> PartView {
    PartView { content, media_type: None, filename: None, metadata: None }
}

impl Part {
    fn bare(content: PartContent) -> (r: Part)
        ensures
            r.deep_view() == bare_part(content.deep_view()),
    {
        Part { content, media_type: None, filename: None, metadata: None }
    }

    /// A text part.
    pub fn text(text: &str) -> (r: Part)
        ensures
            r.deep_view() == bare_part(PartContentView::Text(text@)),
    {
        Part::bare(PartContent::Text(text.to_string()))
    }

    /// A structured data part.
    pub fn data(value: Json) -> (r: Part)
        ensures
            r.deep_view() == bare_part(PartContentView::Data(value.deep_view())),
    {
        Part::bare(PartContent::Data(value))
    }

    /// A file part with its bytes.
    pub fn raw(bytes: Vec<u8>) -> (r: Part)
        ensures
            r.deep_view() == bare_part(PartContentView::Raw(bytes.deep_view())),
    {
        Part::bare(PartContent::Raw(bytes))
    }

    /// A file part by reference.
    pub fn url(url: &str) -> (r: Part)
        ensures
            r.deep_view() == bare_part(PartContentView::Url(url@)),
    {
        Part::bare(PartContent::Url(url.to_string()))
    }
}

/// A message that carries `parts` and nothing else.
pub open spec fn bare_message(
    message_id: Seq<char>,
    role: Role,
    parts: Seq<PartView>,
) -> MessageView {
    MessageView {
        message_id,
        context_id: None,
        task_id: None,
        role,
        parts,
        metadata: None,
        extensions: None,
        reference_task_ids: None,
    }
}

impl Message {
    /// A message outside any task and context.
    pub fn new(message_id: String, role: Role, parts: Vec<Part>) -> (r: Message)
        ensures
            r.deep_view() == bare_message(message_id@, role, parts.deep_view()),
    {
        Message {
            message_id,
            context_id: None,
            task_id: None,
            role,
            parts,
            metadata: None,
            extensions: None,
            reference_task_ids: None,
        }
    }
}

impl AgentInterface {
    /// An interface in the protocol version this library speaks.
    pub fn new(url: &str, protocol_binding: &str) -> (r: AgentInterface)
        ensures
            r.deep_view() == (AgentInterfaceView {
                url: url@,
                protocol_binding: protocol_binding@,
                protocol_version: VERSION@,
                tenant: None,
            }),
    {
        AgentInterface {
            url: url.to_string(),
            protocol_binding: protocol_binding.to_string(),
            protocol_version: VERSION.to_string(),
            tenant: None,
        }
    }
}

/// A task has ended exactly where it was completed, failed, canceled or
/// rejected; a task that was submitted, works, needs input or authentication,
/// or is in no state that is known, has not.
pub proof fn ended_states_are_these(state: TaskState, r: bool)
    requires
        call_ensures(TaskState::is_terminal, (&state,), r),
    ensures
        r == state.terminal(),
        state == TaskState::Completed || state == TaskState::Failed || state == TaskState::Canceled
            || state == TaskState::Rejected ==> r,
        state == TaskState::Unspecified || state == TaskState::Submitted || state
            == TaskState::Working || state == TaskState::InputRequired || state
            == TaskState::AuthRequired ==> !r,
{
}

/// A new message has the identifier, the role and the parts that it is given,
/// and belongs to no context and no task.
pub proof fn new_messages_are_bare(
    message_id: String,
    role: Role,
    parts: Vec<Part>,
    r: Message,
)
    requires
        call_ensures(Message::new, (message_id, role, parts), r),
    ensures
        r.message_id@ == message_id@,
        r.role == role,
        r.parts.deep_view() == parts.deep_view(),
        r.context_id is None,
        r.task_id is None,
        r.metadata is None,
        r.extensions is None,
        r.reference_task_ids is None,
{
}

/// A new part has the content that it is given and nothing else.
pub proof fn new_parts_are_bare(text: &str, url: &str, a: Part, b: Part)
    requires
        call_ensures(Part::text, (text,), a),
        call_ensures(Part::url, (url,), b),
    ensures
        a.content matches PartContent::Text(content) && content@ == text@,
        a.media_type is None && a.filename is None && a.metadata is None,
        b.content matches PartContent::Url(content) && content@ == url@,
        b.media_type is None && b.filename is None && b.metadata is None,
{
}

} // verus!
