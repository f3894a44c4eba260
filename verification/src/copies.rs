//! Copies lose nothing: what is sent, stored and shown are copies of values of
//! the protocol.

use vstd::prelude::*;

use crate::protocol::{
    A2AError, AgentCapabilities, AgentCard, AgentInterface, Artifact, AuthenticationInfo,
    CancelTaskRequest, DeleteTaskPushNotificationConfigRequest, GetExtendedAgentCardRequest,
    GetTaskPushNotificationConfigRequest, GetTaskRequest, ListTaskPushNotificationConfigsRequest,
    ListTaskPushNotificationConfigsResponse, ListTasksRequest, ListTasksResponse, Message, Part,
    PartContent, SendMessageConfiguration, SendMessageRequest, SendMessageResponse,
    StreamResponse, SubscribeToTaskRequest, Task,
    TaskArtifactUpdateEvent, TaskPushNotificationConfig, TaskStatus, TaskStatusUpdateEvent,
};

verus! {

/// A copy of a part has every field of it.
pub proof fn copies_of_parts_are_complete(original: Part, copy: Part)
    requires
        call_ensures(Part::clone, (&original,), copy),
    ensures
        copy.content.deep_view() == original.content.deep_view(),
        copy.media_type.deep_view() == original.media_type.deep_view(),
        copy.filename.deep_view() == original.filename.deep_view(),
        copy.metadata.deep_view() == original.metadata.deep_view(),
{
}

/// A copy of a message has every field of it.
pub proof fn copies_of_messages_are_complete(original: Message, copy: Message)
    requires
        call_ensures(Message::clone, (&original,), copy),
    ensures
        copy.message_id@ == original.message_id@,
        copy.context_id.deep_view() == original.context_id.deep_view(),
        copy.task_id.deep_view() == original.task_id.deep_view(),
        copy.role == original.role,
        copy.parts.deep_view() == original.parts.deep_view(),
        copy.metadata.deep_view() == original.metadata.deep_view(),
        copy.extensions.deep_view() == original.extensions.deep_view(),
        copy.reference_task_ids.deep_view() == original.reference_task_ids.deep_view(),
{
}

/// A copy of a status has every field of it.
pub proof fn copies_of_statuses_are_complete(original: TaskStatus, copy: TaskStatus)
    requires
        call_ensures(TaskStatus::clone, (&original,), copy),
    ensures
        copy.state == original.state,
        copy.message.deep_view() == original.message.deep_view(),
        copy.timestamp == original.timestamp,
{
}

/// A copy of an artifact has every field of it.
pub proof fn copies_of_artifacts_are_complete(original: Artifact, copy: Artifact)
    requires
        call_ensures(Artifact::clone, (&original,), copy),
    ensures
        copy.artifact_id@ == original.artifact_id@,
        copy.name.deep_view() == original.name.deep_view(),
        copy.description.deep_view() == original.description.deep_view(),
        copy.parts.deep_view() == original.parts.deep_view(),
        copy.metadata.deep_view() == original.metadata.deep_view(),
        copy.extensions.deep_view() == original.extensions.deep_view(),
{
}

/// A copy of a task has every field of it.
pub proof fn copies_of_tasks_are_complete(original: Task, copy: Task)
    requires
        call_ensures(Task::clone, (&original,), copy),
    ensures
        copy.id@ == original.id@,
        copy.context_id@ == original.context_id@,
        copy.status.deep_view() == original.status.deep_view(),
        copy.artifacts.deep_view() == original.artifacts.deep_view(),
        copy.history.deep_view() == original.history.deep_view(),
        copy.metadata.deep_view() == original.metadata.deep_view(),
{
}

/// A copy of a status update has every field of it.
pub proof fn copies_of_status_updates_are_complete(original: TaskStatusUpdateEvent, copy: TaskStatusUpdateEvent)
    requires
        call_ensures(TaskStatusUpdateEvent::clone, (&original,), copy),
    ensures
        copy.task_id@ == original.task_id@,
        copy.context_id@ == original.context_id@,
        copy.status.deep_view() == original.status.deep_view(),
        copy.metadata.deep_view() == original.metadata.deep_view(),
{
}

/// A copy of an artifact update has every field of it.
pub proof fn copies_of_artifact_updates_are_complete(original: TaskArtifactUpdateEvent, copy: TaskArtifactUpdateEvent)
    requires
        call_ensures(TaskArtifactUpdateEvent::clone, (&original,), copy),
    ensures
        copy.task_id@ == original.task_id@,
        copy.context_id@ == original.context_id@,
        copy.artifact.deep_view() == original.artifact.deep_view(),
        copy.append == original.append,
        copy.last_chunk == original.last_chunk,
        copy.metadata.deep_view() == original.metadata.deep_view(),
{
}

/// A copy of authentication data has every field of it.
pub proof fn copies_of_authentication_data_are_complete(original: AuthenticationInfo, copy: AuthenticationInfo)
    requires
        call_ensures(AuthenticationInfo::clone, (&original,), copy),
    ensures
        copy.scheme@ == original.scheme@,
        copy.credentials.deep_view() == original.credentials.deep_view(),
{
}

/// A copy of a push configuration has every field of it.
pub proof fn copies_of_push_configs_are_complete(original: TaskPushNotificationConfig, copy: TaskPushNotificationConfig)
    requires
        call_ensures(TaskPushNotificationConfig::clone, (&original,), copy),
    ensures
        copy.task_id@ == original.task_id@,
        copy.url@ == original.url@,
        copy.id.deep_view() == original.id.deep_view(),
        copy.token.deep_view() == original.token.deep_view(),
        copy.authentication.deep_view() == original.authentication.deep_view(),
        copy.tenant.deep_view() == original.tenant.deep_view(),
{
}

/// A copy of what a sender asks for has every field of it.
pub proof fn copies_of_sending_configurations_are_complete(original: SendMessageConfiguration, copy: SendMessageConfiguration)
    requires
        call_ensures(SendMessageConfiguration::clone, (&original,), copy),
    ensures
        copy.accepted_output_modes.deep_view() == original.accepted_output_modes.deep_view(),
        copy.task_push_notification_config.deep_view() == original.task_push_notification_config.deep_view(),
        copy.history_length == original.history_length,
        copy.return_immediately == original.return_immediately,
{
}

/// A copy of a request that sends a message has every field of it.
pub proof fn copies_of_send_requests_are_complete(original: SendMessageRequest, copy: SendMessageRequest)
    requires
        call_ensures(SendMessageRequest::clone, (&original,), copy),
    ensures
        copy.message.deep_view() == original.message.deep_view(),
        copy.configuration.deep_view() == original.configuration.deep_view(),
        copy.metadata.deep_view() == original.metadata.deep_view(),
        copy.tenant.deep_view() == original.tenant.deep_view(),
{
}

/// A copy of a request for a task has every field of it.
pub proof fn copies_of_task_requests_are_complete(original: GetTaskRequest, copy: GetTaskRequest)
    requires
        call_ensures(GetTaskRequest::clone, (&original,), copy),
    ensures
        copy.id@ == original.id@,
        copy.history_length == original.history_length,
        copy.tenant.deep_view() == original.tenant.deep_view(),
{
}

/// A copy of a request for a list of tasks has every field of it.
pub proof fn copies_of_list_requests_are_complete(original: ListTasksRequest, copy: ListTasksRequest)
    requires
        call_ensures(ListTasksRequest::clone, (&original,), copy),
    ensures
        copy.context_id.deep_view() == original.context_id.deep_view(),
        copy.status == original.status,
        copy.page_size == original.page_size,
        copy.page_token.deep_view() == original.page_token.deep_view(),
        copy.history_length == original.history_length,
        copy.status_timestamp_after == original.status_timestamp_after,
        copy.include_artifacts == original.include_artifacts,
        copy.tenant.deep_view() == original.tenant.deep_view(),
{
}

/// A copy of a page of tasks has every field of it.
pub proof fn copies_of_task_pages_are_complete(original: ListTasksResponse, copy: ListTasksResponse)
    requires
        call_ensures(ListTasksResponse::clone, (&original,), copy),
    ensures
        copy.tasks.deep_view() == original.tasks.deep_view(),
        copy.next_page_token@ == original.next_page_token@,
        copy.page_size == original.page_size,
        copy.total_size == original.total_size,
{
}

/// A copy of a request to cancel has every field of it.
pub proof fn copies_of_cancel_requests_are_complete(original: CancelTaskRequest, copy: CancelTaskRequest)
    requires
        call_ensures(CancelTaskRequest::clone, (&original,), copy),
    ensures
        copy.id@ == original.id@,
        copy.metadata.deep_view() == original.metadata.deep_view(),
        copy.tenant.deep_view() == original.tenant.deep_view(),
{
}

/// A copy of a request to subscribe has every field of it.
pub proof fn copies_of_subscribe_requests_are_complete(original: SubscribeToTaskRequest, copy: SubscribeToTaskRequest)
    requires
        call_ensures(SubscribeToTaskRequest::clone, (&original,), copy),
    ensures
        copy.id@ == original.id@,
        copy.tenant.deep_view() == original.tenant.deep_view(),
{
}

/// A copy of a request for a push configuration has every field of it.
pub proof fn copies_of_push_config_requests_are_complete(original: GetTaskPushNotificationConfigRequest, copy: GetTaskPushNotificationConfigRequest)
    requires
        call_ensures(GetTaskPushNotificationConfigRequest::clone, (&original,), copy),
    ensures
        copy.task_id@ == original.task_id@,
        copy.id@ == original.id@,
        copy.tenant.deep_view() == original.tenant.deep_view(),
{
}

/// A copy of a request for a list of push configurations has every field of it.
pub proof fn copies_of_push_config_list_requests_are_complete(original: ListTaskPushNotificationConfigsRequest, copy: ListTaskPushNotificationConfigsRequest)
    requires
        call_ensures(ListTaskPushNotificationConfigsRequest::clone, (&original,), copy),
    ensures
        copy.task_id@ == original.task_id@,
        copy.page_size == original.page_size,
        copy.page_token.deep_view() == original.page_token.deep_view(),
        copy.tenant.deep_view() == original.tenant.deep_view(),
{
}

/// A copy of a page of push configurations has every field of it.
pub proof fn copies_of_push_config_pages_are_complete(original: ListTaskPushNotificationConfigsResponse, copy: ListTaskPushNotificationConfigsResponse)
    requires
        call_ensures(ListTaskPushNotificationConfigsResponse::clone, (&original,), copy),
    ensures
        copy.configs.deep_view() == original.configs.deep_view(),
        copy.next_page_token.deep_view() == original.next_page_token.deep_view(),
{
}

/// A copy of a request to delete a push configuration has every field of it.
pub proof fn copies_of_delete_requests_are_complete(original: DeleteTaskPushNotificationConfigRequest, copy: DeleteTaskPushNotificationConfigRequest)
    requires
        call_ensures(DeleteTaskPushNotificationConfigRequest::clone, (&original,), copy),
    ensures
        copy.task_id@ == original.task_id@,
        copy.id@ == original.id@,
        copy.tenant.deep_view() == original.tenant.deep_view(),
{
}

/// A copy of a request for the extended card has every field of it.
pub proof fn copies_of_extended_card_requests_are_complete(original: GetExtendedAgentCardRequest, copy: GetExtendedAgentCardRequest)
    requires
        call_ensures(GetExtendedAgentCardRequest::clone, (&original,), copy),
    ensures
        copy.tenant.deep_view() == original.tenant.deep_view(),
{
}

/// A copy of an interface has every field of it.
pub proof fn copies_of_interfaces_are_complete(original: AgentInterface, copy: AgentInterface)
    requires
        call_ensures(AgentInterface::clone, (&original,), copy),
    ensures
        copy.url@ == original.url@,
        copy.protocol_binding@ == original.protocol_binding@,
        copy.protocol_version@ == original.protocol_version@,
        copy.tenant.deep_view() == original.tenant.deep_view(),
{
}

/// A copy of capabilities has every field of it.
pub proof fn copies_of_capabilities_are_complete(original: AgentCapabilities, copy: AgentCapabilities)
    requires
        call_ensures(AgentCapabilities::clone, (&original,), copy),
    ensures
        copy.streaming == original.streaming,
        copy.push_notifications == original.push_notifications,
        copy.extensions.deep_view() == original.extensions.deep_view(),
        copy.extended_agent_card == original.extended_agent_card,
{
}

/// A copy of an agent card has every field of it.
pub proof fn copies_of_cards_are_complete(original: AgentCard, copy: AgentCard)
    requires
        call_ensures(AgentCard::clone, (&original,), copy),
    ensures
        copy.name@ == original.name@,
        copy.description@ == original.description@,
        copy.version@ == original.version@,
        copy.supported_interfaces.deep_view() == original.supported_interfaces.deep_view(),
        copy.capabilities.deep_view() == original.capabilities.deep_view(),
        copy.default_input_modes.deep_view() == original.default_input_modes.deep_view(),
        copy.default_output_modes.deep_view() == original.default_output_modes.deep_view(),
        copy.skills.deep_view() == original.skills.deep_view(),
        copy.provider.deep_view() == original.provider.deep_view(),
        copy.documentation_url.deep_view() == original.documentation_url.deep_view(),
        copy.icon_url.deep_view() == original.icon_url.deep_view(),
        copy.security_schemes.deep_view() == original.security_schemes.deep_view(),
        copy.security_requirements.deep_view() == original.security_requirements.deep_view(),
        copy.signatures.deep_view() == original.signatures.deep_view(),
{
}

/// A copy of an error has every field of it.
pub proof fn copies_of_errors_are_complete(original: A2AError, copy: A2AError)
    requires
        call_ensures(A2AError::clone, (&original,), copy),
    ensures
        copy.code == original.code,
        copy.message@ == original.message@,
{
}

/// A copy of the content of a part is of the same kind and holds the same.
pub proof fn copies_of_contents_are_complete(original: PartContent, copy: PartContent)
    requires
        call_ensures(PartContent::clone, (&original,), copy),
    ensures
        match original {
            PartContent::Text(text) => copy matches PartContent::Text(other) && other@ == text@,
            PartContent::Raw(bytes) => copy matches PartContent::Raw(other) && other.deep_view()
                == bytes.deep_view(),
            PartContent::Data(value) => copy matches PartContent::Data(other) && other.deep_view()
                == value.deep_view(),
            PartContent::Url(url) => copy matches PartContent::Url(other) && other@ == url@,
        },
{
}

/// A copy of an event is of the same kind and carries the same.
pub proof fn copies_of_events_are_complete(original: StreamResponse, copy: StreamResponse)
    requires
        call_ensures(StreamResponse::clone, (&original,), copy),
    ensures
        match original {
            StreamResponse::Task(task) => copy matches StreamResponse::Task(other)
                && other.deep_view() == task.deep_view(),
            StreamResponse::Message(message) => copy matches StreamResponse::Message(other)
                && other.deep_view() == message.deep_view(),
            StreamResponse::StatusUpdate(update) => copy matches StreamResponse::StatusUpdate(other)
                && other.deep_view() == update.deep_view(),
            StreamResponse::ArtifactUpdate(update) => copy matches StreamResponse::ArtifactUpdate(
                other,
            ) && other.deep_view() == update.deep_view(),
        },
{
}

/// A copy of an answer is of the same kind and carries the same.
pub proof fn copies_of_answers_are_complete(
    original: SendMessageResponse,
    copy: SendMessageResponse,
)
    requires
        call_ensures(SendMessageResponse::clone, (&original,), copy),
    ensures
        match original {
            SendMessageResponse::Task(task) => copy matches SendMessageResponse::Task(other)
                && other.deep_view() == task.deep_view(),
            SendMessageResponse::Message(message) => copy matches SendMessageResponse::Message(
                other,
            ) && other.deep_view() == message.deep_view(),
        },
{
}

} // verus!
