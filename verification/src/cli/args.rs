//! Command line arguments, and the requests that they make.

use vstd::prelude::*;

use crate::cli::error;
use crate::cli::error::{CliError, CliErrorView};
use crate::protocol;
use crate::protocol::{
    AuthenticationInfo, AuthenticationInfoView, Message, MessageView, Part, Role,
    SendMessageConfiguration, SendMessageConfigurationView, SendMessageRequest,
    SendMessageRequestView, TaskPushNotificationConfig, TaskPushNotificationConfigView, TaskState,
    TRANSPORT_PROTOCOL_HTTP_JSON, TRANSPORT_PROTOCOL_JSONRPC,
};
use crate::replica::Replica;
use crate::span::Span;
use crate::text;

verus! {

/// What was asked for on the command line.
#[derive(Debug, PartialEq, Eq)]
pub struct Cli {
    pub config: Option<String>,
    pub agent_card: Option<String>,
    pub endpoint: Option<String>,
    pub base_url: String,
    pub transport: Vec<Binding>,
    pub a2a_version: Option<String>,
    pub bearer: Option<String>,
    pub api_key: Option<String>,
    pub svc_params: Vec<HeaderArg>,
    pub insecure: bool,
    pub debug: bool,
    pub tenant: Option<String>,
    pub output: OutputFormat,
    pub compact: bool,
    pub async_mode: bool,
    pub wait: bool,
    pub poll_interval: Span,
    pub timeout: Span,
    pub command: Command,
}

impl Cli {
    /// Whether every length of time is well formed.
    pub open spec fn well_formed(self) -> bool {
        self.poll_interval.well_formed() && self.timeout.well_formed()
    }
}

/// The commands.
#[allow(inconsistent_fields)]
#[derive(Debug, PartialEq, Eq)]
pub enum Command {
    Card { command: CardCommand },
    Config { command: ConfigCommand },
    Send(MessageCommand),
    Task { command: TaskCommand },
    Completion { shell: Shell },
}

/// The shells that a completion script can be written for.
#[derive(Debug, Clone, Copy, PartialEq, Eq, Structural)]
pub enum Shell {
    Bash,
    Elvish,
    Fish,
    PowerShell,
    Zsh,
}

#[derive(Debug, PartialEq, Eq)]
pub enum CardCommand {
    Get(CardGetCommand),
}

#[derive(Debug, PartialEq, Eq)]
pub enum ConfigCommand {
    Show,
}

#[derive(Debug, Clone, Copy, PartialEq, Eq)]
pub struct CardGetCommand {
    pub extended: bool,
    pub validate: bool,
}

#[derive(Debug, PartialEq, Eq)]
pub enum TaskCommand {
    Get(TaskLookupCommand),
    List(ListTasksCommand),
    Cancel(TaskIdCommand),
    Subscribe(TaskIdCommand),
    PushConfig { command: PushConfigCommand },
}

#[derive(Debug, PartialEq, Eq)]
pub struct MessageCommand {
    /// Shorthand for a single text part.
    pub text: Option<String>,
    pub text_parts: Vec<String>,
    pub file_parts: Vec<String>,
    pub data_parts: Vec<String>,
    pub media_types: Vec<String>,
    pub context_id: Option<String>,
    pub task_id: Option<String>,
    pub history_length: Option<i32>,
    pub accepted_output_modes: Vec<String>,
    pub return_immediately: bool,
    pub stream: bool,
}

#[derive(Debug, PartialEq, Eq)]
pub struct TaskLookupCommand {
    pub id: String,
    pub history_length: Option<i32>,
}

#[derive(Debug, PartialEq, Eq)]
pub struct ListTasksCommand {
    pub context_id: Option<String>,
    pub status: Option<TaskStateArg>,
    pub page_size: Option<i32>,
    pub page_token: Option<String>,
    pub history_length: Option<i32>,
    pub include_artifacts: bool,
}

#[derive(Debug, PartialEq, Eq)]
pub struct TaskIdCommand {
    pub id: String,
}

#[derive(Debug, PartialEq, Eq)]
pub enum PushConfigCommand {
    Create(CreatePushConfigCommand),
    Get(PushConfigIdCommand),
    List(ListPushConfigsCommand),
    Delete(PushConfigIdCommand),
}

#[derive(Debug, PartialEq, Eq)]
pub struct CreatePushConfigCommand {
    pub task_id: String,
    pub url: String,
    pub config_id: Option<String>,
    pub token: Option<String>,
    pub auth_scheme: Option<String>,
    pub auth_credentials: Option<String>,
}

#[derive(Debug, PartialEq, Eq)]
pub struct PushConfigIdCommand {
    pub task_id: String,
    pub id: String,
}

#[derive(Debug, PartialEq, Eq)]
pub struct ListPushConfigsCommand {
    pub task_id: String,
    pub page_size: Option<i32>,
    pub page_token: Option<String>,
}

/// A service parameter: a name with a value.
#[derive(Debug, PartialEq, Eq)]
pub struct HeaderArg {
    pub name: String,
    pub value: String,
}

impl DeepView for HeaderArg {
    type V = (Seq<char>, Seq<char>);

    open spec fn deep_view(&self) -> (Seq<char>, Seq<char>) {
        (self.name@, self.value@)
    }
}

/// How results are printed.
#[derive(Debug, Clone, Copy, PartialEq, Eq, Structural)]
pub enum OutputFormat {
    Text,
    Json,
}

impl OutputFormat {
    /// The name of the format.
    pub open spec fn spec_name(self) -> Seq<char> {
        match self {
            OutputFormat::Text => "text"@,
            OutputFormat::Json => "json"@,
        }
    }

    /// The name of the format.
    pub fn name(self) -> (r: &'static str)
        ensures
            r@ == self.spec_name(),
    {
        match self {
            OutputFormat::Text => "text",
            OutputFormat::Json => "json",
        }
    }
}

/// A protocol binding.
#[derive(Debug, Clone, Copy, PartialEq, Eq, Structural)]
pub enum Binding {
    Jsonrpc,
    Rest,
}

impl DeepView for Binding {
    type V = Binding;

    open spec fn deep_view(&self) -> Binding {
        *self
    }
}

impl Binding {
    /// What agent cards call the binding.
    pub open spec fn spec_protocol(self) -> Seq<char> {
        match self {
            Binding::Jsonrpc => TRANSPORT_PROTOCOL_JSONRPC@,
            Binding::Rest => TRANSPORT_PROTOCOL_HTTP_JSON@,
        }
    }

    /// What agent cards call the binding.
    pub fn protocol(self) -> (r: &'static str)
        ensures
            r@ == self.spec_protocol(),
    {
        match self {
            Binding::Jsonrpc => TRANSPORT_PROTOCOL_JSONRPC,
            Binding::Rest => TRANSPORT_PROTOCOL_HTTP_JSON,
        }
    }

    /// What the command line calls the binding.
    pub open spec fn spec_name(self) -> Seq<char> {
        match self {
            Binding::Jsonrpc => "jsonrpc"@,
            Binding::Rest => "rest"@,
        }
    }

    /// What the command line calls the binding.
    pub fn name(self) -> (r: &'static str)
        ensures
            r@ == self.spec_name(),
    {
        match self {
            Binding::Jsonrpc => "jsonrpc",
            Binding::Rest => "rest",
        }
    }
}

/// A task state on the command line.
#[derive(Debug, Clone, Copy, PartialEq, Eq, Structural)]
pub enum TaskStateArg {
    Unspecified,
    Submitted,
    Working,
    Completed,
    Failed,
    Canceled,
    InputRequired,
    Rejected,
    AuthRequired,
}

/// The task state that an argument names.
pub open spec fn named_state(value: TaskStateArg) -> TaskState {
    match value {
        TaskStateArg::Unspecified => TaskState::Unspecified,
        TaskStateArg::Submitted => TaskState::Submitted,
        TaskStateArg::Working => TaskState::Working,
        TaskStateArg::Completed => TaskState::Completed,
        TaskStateArg::Failed => TaskState::Failed,
        TaskStateArg::Canceled => TaskState::Canceled,
        TaskStateArg::InputRequired => TaskState::InputRequired,
        TaskStateArg::Rejected => TaskState::Rejected,
        TaskStateArg::AuthRequired => TaskState::AuthRequired,
    }
}

impl From<TaskStateArg> for TaskState {
    fn from(value: TaskStateArg) -> (r: Self) {
        match value {
            TaskStateArg::Unspecified => TaskState::Unspecified,
            TaskStateArg::Submitted => TaskState::Submitted,
            TaskStateArg::Working => TaskState::Working,
            TaskStateArg::Completed => TaskState::Completed,
            TaskStateArg::Failed => TaskState::Failed,
            TaskStateArg::Canceled => TaskState::Canceled,
            TaskStateArg::InputRequired => TaskState::InputRequired,
            TaskStateArg::Rejected => TaskState::Rejected,
            TaskStateArg::AuthRequired => TaskState::AuthRequired,
        }
    }
}

impl vstd::std_specs::convert::FromSpecImpl<TaskStateArg> for TaskState {
    open spec fn obeys_from_spec() -> bool {
        true
    }

    open spec fn from_spec(value: TaskStateArg) -> TaskState {
        named_state(value)
    }
}

/// The name and the value that `NAME:VALUE` spells, or why it spells none.
pub open spec fn header_of(input: Seq<char>) -> Result<(Seq<char>, Seq<char>), Seq<char>> {
    match text::cut(input, ":"@) {
        None => Err("header must be in NAME:VALUE format"@),
        Some((name, value)) => if text::trimmed(name).len() == 0 {
            Err("header name cannot be empty"@)
        } else {
            Ok((text::trimmed(name), text::trimmed(value)))
        },
    }
}

/// Reads a service parameter.
pub fn parse_header(input: &str) -> (r: Result<HeaderArg, String>)
    ensures
        match r {
            Ok(header) => header_of(input@) == Ok::<(Seq<char>, Seq<char>), Seq<char>>(
                header.deep_view(),
            ),
            Err(reason) => header_of(input@) == Err::<(Seq<char>, Seq<char>), Seq<char>>(reason@),
        },
{
    match text::split_once(input, ":") {
        None => Err("header must be in NAME:VALUE format".to_string()),
        Some((name, value)) => {
            let name = text::trim(name.as_str());
            if name.as_str().unicode_len() == 0 {
                return Err("header name cannot be empty".to_string());
            }
            Ok(HeaderArg { name, value: text::trim(value.as_str()) })
        },
    }
}

/// What the number in a length of time counts.
#[derive(Debug, Clone, Copy, PartialEq, Eq, Structural)]
pub enum DurationUnit {
    Milliseconds,
    Seconds,
    Minutes,
}

/// The number and the unit of a length of time such as `2s`, `500ms` or `1m`;
/// a bare number counts seconds.
pub open spec fn duration_parts(input: Seq<char>) -> (Seq<char>, DurationUnit) {
    let trimmed = text::trimmed(input);
    match text::without_suffix(trimmed, "ms"@) {
        Some(number) => (text::trimmed(number), DurationUnit::Milliseconds),
        None => match text::without_suffix(trimmed, "s"@) {
            Some(number) => (text::trimmed(number), DurationUnit::Seconds),
            None => match text::without_suffix(trimmed, "m"@) {
                Some(number) => (text::trimmed(number), DurationUnit::Minutes),
                None => (text::trimmed(trimmed), DurationUnit::Seconds),
            },
        },
    }
}

/// Splits a length of time into its number and its unit.
pub fn split_duration(input: &str) -> (r: (String, DurationUnit))
    ensures
        (r.0@, r.1) == duration_parts(input@),
{
    let trimmed = text::trim(input);
    if let Some(number) = text::strip_suffix(trimmed.as_str(), "ms") {
        return (text::trim(number.as_str()), DurationUnit::Milliseconds);
    }
    if let Some(number) = text::strip_suffix(trimmed.as_str(), "s") {
        return (text::trim(number.as_str()), DurationUnit::Seconds);
    }
    if let Some(number) = text::strip_suffix(trimmed.as_str(), "m") {
        return (text::trim(number.as_str()), DurationUnit::Minutes);
    }
    (text::trim(trimmed.as_str()), DurationUnit::Seconds)
}

/// How the agent should answer, if the command says so at all.
pub open spec fn requested_configuration(command: MessageCommand) -> Option<
    SendMessageConfigurationView,
> {
    if command.history_length is Some || command.accepted_output_modes@.len() > 0
        || command.return_immediately {
        Some(
            SendMessageConfigurationView {
                accepted_output_modes: if command.accepted_output_modes@.len() > 0 {
                    Some(command.accepted_output_modes.deep_view())
                } else {
                    None
                },
                task_push_notification_config: None,
                history_length: command.history_length,
                return_immediately: if command.return_immediately {
                    Some(true)
                } else {
                    None
                },
            },
        )
    } else {
        None
    }
}

/// Makes the request that sends `parts`.
pub fn build_send_message_request(
    command: &MessageCommand,
    parts: Vec<Part>,
    tenant: Option<String>,
    message_id: String,
) -> (r: SendMessageRequest)
    ensures
        r.deep_view() == (SendMessageRequestView {
            message: MessageView {
                context_id: command.context_id.deep_view(),
                task_id: command.task_id.deep_view(),
                ..protocol::bare_message(message_id@, Role::User, parts.deep_view())
            },
            configuration: requested_configuration(*command),
            metadata: None,
            tenant: tenant.deep_view(),
        }),
{
    let mut message = Message::new(message_id, Role::User, parts);
    message.context_id = command.context_id.replica();
    message.task_id = command.task_id.replica();
    let modes = command.accepted_output_modes.len() > 0;
    let configuration = if command.history_length.is_some() || modes || command.return_immediately {
        Some(
            SendMessageConfiguration {
                accepted_output_modes: if modes {
                    Some(command.accepted_output_modes.replica())
                } else {
                    None
                },
                task_push_notification_config: None,
                history_length: command.history_length,
                return_immediately: if command.return_immediately {
                    Some(true)
                } else {
                    None
                },
            },
        )
    } else {
        None
    };
    SendMessageRequest { message, configuration, metadata: None, tenant }
}

/// The push configuration that the command describes, about no task yet.
pub open spec fn described_push_config(
    command: CreatePushConfigCommand,
) -> TaskPushNotificationConfigView {
    TaskPushNotificationConfigView {
        task_id: Seq::empty(),
        url: command.url@,
        id: command.config_id.deep_view(),
        token: command.token.deep_view(),
        authentication: match command.auth_scheme {
            Some(scheme) => Some(
                AuthenticationInfoView {
                    scheme: scheme@,
                    credentials: command.auth_credentials.deep_view(),
                },
            ),
            None => None,
        },
        tenant: None,
    }
}

/// Makes the push configuration that the command describes. Credentials need
/// a scheme.
pub fn build_push_notification_config(command: &CreatePushConfigCommand) -> (r: Result<
    TaskPushNotificationConfig,
    CliError,
>)
    ensures
        match r {
            Ok(config) => {
                &&& command.auth_credentials is None || command.auth_scheme is Some
                &&& config.deep_view() == described_push_config(*command)
            },
            Err(error) => {
                &&& command.auth_credentials is Some && command.auth_scheme is None
                &&& error.deep_view() == CliErrorView::InvalidInput(
                    "--auth-credentials requires --auth-scheme"@,
                )
            },
        },
{
    if command.auth_credentials.is_some() && command.auth_scheme.is_none() {
        return Err(error::invalid_input("--auth-credentials requires --auth-scheme"));
    }
    let authentication = match &command.auth_scheme {
        Some(scheme) => Some(
            AuthenticationInfo {
                scheme: scheme.clone(),
                credentials: command.auth_credentials.replica(),
            },
        ),
        None => None,
    };
    Ok(
        TaskPushNotificationConfig {
            task_id: String::new(),
            url: command.url.clone(),
            id: command.config_id.replica(),
            token: command.token.replica(),
            authentication,
            tenant: None,
        },
    )
}

/// A header is cut at its first colon, and white space around the name and the
/// value is taken off; the value may hold further colons and may be empty. A
/// header without a colon, or with a blank name, is refused.
pub proof fn headers_are_cut_at_the_first_colon(name: Seq<char>, value: Seq<char>)
    requires
        !name.contains(':'),
    ensures
        header_of(name) is Err,
        text::trimmed(name).len() == 0 ==> header_of(name + seq![':'] + value) is Err,
        text::trimmed(name).len() > 0 ==> header_of(name + seq![':'] + value) == Ok::<
            (Seq<char>, Seq<char>),
            Seq<char>,
        >((text::trimmed(name), text::trimmed(value))),
{
    reveal_strlit(":");
    assert(":"@ =~= seq![':']);
    let input = name + seq![':'] + value;
    text::cuts_are_at_the_first_place(name, ":"@);
    if let Some((before, after)) = text::cut(name, ":"@) {
        assert(name[before.len() as int] == ':');
        assert(name.contains(':'));
    }
    text::cuts_are_at_the_first_place(input, ":"@);
    assert(":"@.is_prefix_of(input.skip(name.len() as int))) by {
        assert(input.skip(name.len() as int).subrange(0, 1) =~= ":"@);
    }
    if let Some((before, after)) = text::cut(input, ":"@) {
        assert(input[before.len() as int] == ':');
        if before.len() < name.len() {
            assert(name[before.len() as int] == ':');
            assert(name.contains(':'));
        }
        let n = name.len() as int;
        if before.len() > n {
            assert(!":"@.is_prefix_of(input.skip(n)));
        }
        assert(before =~= input.take(n));
        assert(name =~= input.take(n));
        assert(after =~= input.skip(n + 1));
        assert(value =~= input.skip(n + 1));
    }
}

/// A length of time in `ms` counts milliseconds, in `s` seconds and in `m`
/// minutes, and a bare number counts seconds; its number is what stands before
/// the unit, without white space around it.
pub proof fn units_follow_the_number(number: Seq<char>)
    requires
        number.len() > 0,
        !text::is_space(number[0]),
        text::is_digit(number.last()),
    ensures
        duration_parts(number + seq!['m', 's']) == (number, DurationUnit::Milliseconds),
        duration_parts(number + seq!['s']) == (number, DurationUnit::Seconds),
        duration_parts(number + seq!['m']) == (number, DurationUnit::Minutes),
        duration_parts(number) == (number, DurationUnit::Seconds),
{
    reveal_strlit("ms");
    reveal_strlit("s");
    reveal_strlit("m");
    let n = number.len() as int;
    let ms = number + seq!['m', 's'];
    let s = number + seq!['s'];
    let m = number + seq!['m'];
    assert(text::trimmed(number) == number);
    assert(ms.last() == 's' && s.last() == 's' && m.last() == 'm');
    assert(ms[0] == number[0] && s[0] == number[0] && m[0] == number[0]);
    assert(text::trimmed(ms) == ms);
    assert(text::trimmed(s) == s);
    assert(text::trimmed(m) == m);
    assert(ms.subrange(n, n + 2) =~= "ms"@);
    assert(ms.take(n) =~= number);
    assert(s.subrange(n, n + 1) =~= "s"@);
    assert(s.take(n) =~= number);
    assert(m.subrange(n, n + 1) =~= "m"@);
    assert(m.take(n) =~= number);
    assert(s[n - 1] == number.last());
    if "ms"@.is_suffix_of(s) {
        assert(s.subrange(n - 1, n + 1)[0] == 'm');
    }
    if "ms"@.is_suffix_of(m) {
        assert(m.subrange(n - 1, n + 1)[1] == 's');
    }
    if "s"@.is_suffix_of(m) {
        assert(m.subrange(n, n + 1)[0] == 's');
    }
    if "ms"@.is_suffix_of(number) {
        assert(number.subrange(n - 2, n)[1] == 's');
    }
    if "s"@.is_suffix_of(number) {
        assert(number.subrange(n - 1, n)[0] == 's');
    }
    if "m"@.is_suffix_of(number) {
        assert(number.subrange(n - 1, n)[0] == 'm');
    }
}

/// A request that sends a message carries the message as it was given: its
/// identifier, its parts, its context and its task, from the user.
pub proof fn built_requests_carry_the_message(
    command: MessageCommand,
    parts: Vec<Part>,
    tenant: Option<String>,
    message_id: String,
    r: SendMessageRequest,
)
    requires
        call_ensures(build_send_message_request, (&command, parts, tenant, message_id), r),
    ensures
        r.message.message_id@ == message_id@,
        r.message.role == Role::User,
        r.message.parts.deep_view() == parts.deep_view(),
        r.message.context_id.deep_view() == command.context_id.deep_view(),
        r.message.task_id.deep_view() == command.task_id.deep_view(),
        r.tenant.deep_view() == tenant.deep_view(),
        r.configuration is Some <==> command.history_length is Some
            || command.accepted_output_modes@.len() > 0 || command.return_immediately,
        r.configuration matches Some(configuration) ==> {
            &&& configuration.history_length == command.history_length
            &&& configuration.return_immediately == Some(true) <==> command.return_immediately
            &&& command.accepted_output_modes@.len() > 0 ==> (
            configuration.accepted_output_modes matches Some(modes) && modes.deep_view()
                == command.accepted_output_modes.deep_view())
            &&& command.accepted_output_modes@.len() == 0
                ==> configuration.accepted_output_modes is None
        },
{
}

/// White space around a length of time makes no difference, nor does it
/// between the number and the unit.
pub proof fn lengths_may_have_white_space_around(input: Seq<char>, c: char)
    requires
        text::is_space(c),
    ensures
        duration_parts(seq![c] + input) == duration_parts(input),
        duration_parts(input.push(c)) == duration_parts(input),
        ({
            let number = duration_parts(input).0;
            number.len() > 0 ==> !text::is_space(number[0]) && !text::is_space(number.last())
        }),
{
    text::white_space_around_makes_no_difference(input, c);
    let trimmed = text::trimmed(input);
    text::trimming_takes_off_white_space_alone(trimmed);
    if let Some(number) = text::without_suffix(trimmed, "ms"@) {
        text::trimming_takes_off_white_space_alone(number);
    }
    if let Some(number) = text::without_suffix(trimmed, "s"@) {
        text::trimming_takes_off_white_space_alone(number);
    }
    if let Some(number) = text::without_suffix(trimmed, "m"@) {
        text::trimming_takes_off_white_space_alone(number);
    }
}

} // verus!
