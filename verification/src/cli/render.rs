//! Results as text: one `Label: value` per line, with blocks for what does not
//! fit on a line.

use vstd::prelude::*;

use crate::cli::config::{ConfigSettingView, ConfigSettings};
use crate::json;
use crate::protocol::{
    AgentCard, AgentCardView, AgentInterfaceView, Artifact, ArtifactView, AuthenticationInfoView,
    ListTaskPushNotificationConfigsResponse, ListTaskPushNotificationConfigsResponseView,
    ListTasksResponse, ListTasksResponseView, Message, MessageView, Part, PartContent,
    PartContentView, PartView, SendMessageResponse, StreamResponse, Task,
    TaskArtifactUpdateEvent, TaskArtifactUpdateEventView, TaskPushNotificationConfig,
    TaskPushNotificationConfigView, TaskState, TaskStatusUpdateEvent, TaskStatusUpdateEventView,
    TaskView,
};
use crate::text;

verus! {

/// A field: its label and its value on one line.
pub open spec fn field_line(label: Seq<char>, value: Seq<char>) -> Seq<char> {
    label + ": "@ + value
}

/// A block: its label on a line, the lines of its content, and a blank line.
pub open spec fn block_lines(label: Seq<char>, content: Seq<char>) -> Seq<Seq<char>> {
    seq![label + ":"@] + text::lines_of(content) + seq![Seq::<char>::empty()]
}

/// Lines as one text, which does not end in a line feed.
pub open spec fn finished(lines: Seq<Seq<char>>) -> Seq<char> {
    text::without_trailing(text::joined(lines, "\n"@), '\n')
}

/// Collects the lines of a text.
#[derive(Debug)]
pub struct TextOutput {
    pub lines: Vec<String>,
}

impl View for TextOutput {
    type V = Seq<Seq<char>>;

    open spec fn view(&self) -> Seq<Seq<char>> {
        self.lines.deep_view()
    }
}

impl TextOutput {
    /// No lines yet.
    pub fn new() -> (r: TextOutput)
        ensures
            r@ == Seq::<Seq<char>>::empty(),
    {
        let r = TextOutput { lines: Vec::new() };
        assert(r@ =~= Seq::<Seq<char>>::empty());
        r
    }

    /// Adds a line as it is.
    pub fn raw(&mut self, line: String)
        ensures
            final(self)@ == old(self)@.push(line@),
    {
        let ghost before = self@;
        let ghost view = line@;
        self.lines.push(line);
        assert(self@ =~= before.push(view));
    }

    /// Adds a field.
    pub fn field(&mut self, label: &str, value: &str)
        ensures
            final(self)@ == old(self)@.push(field_line(label@, value@)),
    {
        let mut line = label.to_string();
        line.append(": ");
        line.append(value);
        self.raw(line);
    }

    /// Adds a block.
    pub fn block(&mut self, label: &str, content: &str)
        ensures
            final(self)@ == old(self)@ + block_lines(label@, content@),
    {
        let ghost before = self@;
        let mut line = label.to_string();
        line.append(":");
        self.raw(line);
        let ghost headed = self@;
        let mut rest = text::lines(content);
        let ghost inner = rest.deep_view();
        self.lines.append(&mut rest);
        assert(self@ =~= headed + inner);
        let blank = String::new();
        assert(blank@ =~= Seq::<char>::empty());
        self.raw(blank);
        assert(self@ =~= before + block_lines(label@, content@));
    }

    /// The lines as one text.
    pub fn finish(self) -> (r: String)
        ensures
            r@ == finished(self@),
    {
        let all = text::join(&self.lines, "\n");
        text::trim_end_matches(all.as_str(), '\n')
    }
}

/// The short name of a task state.
pub open spec fn state_label(state: TaskState) -> Seq<char> {
    match state {
        TaskState::Unspecified => "UNSPECIFIED"@,
        TaskState::Submitted => "SUBMITTED"@,
        TaskState::Working => "WORKING"@,
        TaskState::Completed => "COMPLETED"@,
        TaskState::Failed => "FAILED"@,
        TaskState::Canceled => "CANCELED"@,
        TaskState::InputRequired => "INPUT_REQUIRED"@,
        TaskState::Rejected => "REJECTED"@,
        TaskState::AuthRequired => "AUTH_REQUIRED"@,
    }
}

/// The short name of a task state.
pub fn task_state_label(state: &TaskState) -> (r: &'static str)
    ensures
        r@ == state_label(*state),
{
    match state {
        TaskState::Unspecified => "UNSPECIFIED",
        TaskState::Submitted => "SUBMITTED",
        TaskState::Working => "WORKING",
        TaskState::Completed => "COMPLETED",
        TaskState::Failed => "FAILED",
        TaskState::Canceled => "CANCELED",
        TaskState::InputRequired => "INPUT_REQUIRED",
        TaskState::Rejected => "REJECTED",
        TaskState::AuthRequired => "AUTH_REQUIRED",
    }
}

/// What a file holds, in words: its size, after its media type if that is
/// known.
pub open spec fn file_facts(name: Seq<char>, media_type: Option<Seq<char>>, size: nat) -> Seq<char> {
    match media_type {
        Some(media_type) => name + " ("@ + media_type + ", "@ + text::decimal(size) + " bytes)"@,
        None => name + " ("@ + text::decimal(size) + " bytes)"@,
    }
}

/// The lines of a part: text as it is, data as indented JSON, and a file by
/// its name, media type and size.
pub open spec fn part_lines(part: PartView) -> Seq<Seq<char>> {
    match part.content {
        PartContentView::Text(content) => block_lines("Text"@, content),
        PartContentView::Data(value) => block_lines("Data"@, json::pretty(value)),
        PartContentView::Raw(bytes) => {
            let name = match part.filename {
                Some(name) => name,
                None => "(unnamed)"@,
            };
            seq![field_line("File"@, file_facts(name, part.media_type, bytes.len()))]
        },
        PartContentView::Url(url) => match part.media_type {
            Some(media_type) => seq![field_line("File"@, url + " ("@ + media_type + ")"@)],
            None => seq![field_line("File"@, url)],
        },
    }
}

/// Shows a part.
pub fn render_part(out: &mut TextOutput, part: &Part)
    ensures
        final(out)@ == old(out)@ + part_lines(part.deep_view()),
{
    let ghost before = out@;
    match &part.content {
        PartContent::Text(content) => {
            out.block("Text", content.as_str());
        },
        PartContent::Data(value) => {
            let pretty = json::to_pretty(value);
            out.block("Data", pretty.as_str());
        },
        PartContent::Raw(bytes) => {
            let mut line = match &part.filename {
                Some(name) => name.clone(),
                None => "(unnamed)".to_string(),
            };
            line.append(" (");
            if let Some(media_type) = &part.media_type {
                line.append(media_type.as_str());
                line.append(", ");
            }
            assert(bytes.deep_view().len() == bytes@.len());
            let size = text::to_decimal(bytes.len() as u64);
            line.append(size.as_str());
            line.append(" bytes)");
            out.field("File", line.as_str());
        },
        PartContent::Url(url) => {
            let mut line = url.clone();
            if let Some(media_type) = &part.media_type {
                line.append(" (");
                line.append(media_type.as_str());
                line.append(")");
            }
            out.field("File", line.as_str());
        },
    }
    assert(out@ =~= before + part_lines(part.deep_view()));
}

/// The lines of several parts.
pub open spec fn parts_lines(parts: Seq<PartView>) -> Seq<Seq<char>>
    decreases parts.len(),
{
    if parts.len() == 0 {
        Seq::empty()
    } else {
        parts_lines(parts.drop_last()) + part_lines(parts.last())
    }
}

fn render_parts(out: &mut TextOutput, parts: &Vec<Part>)
    ensures
        final(out)@ == old(out)@ + parts_lines(parts.deep_view()),
{
    let ghost before = out@;
    let ghost all = parts.deep_view();
    let mut i: usize = 0;
    assert(all.take(0) =~= Seq::<PartView>::empty());
    assert(out@ =~= before + parts_lines(all.take(0)));
    while i < parts.len()
        invariant
            i <= parts@.len(),
            all == parts.deep_view(),
            out@ == before + parts_lines(all.take(i as int)),
        decreases parts@.len() - i,
    {
        render_part(out, &parts[i]);
        proof {
            assert(all.take(i + 1).drop_last() =~= all.take(i as int));
            assert(out@ =~= before + parts_lines(all.take(i + 1)));
        }
        i += 1;
    }
    assert(all.take(i as int) =~= all);
}

/// The lines of a message's parts.
pub open spec fn message_parts_lines(message: MessageView) -> Seq<Seq<char>> {
    if message.parts.len() == 0 {
        seq![field_line("Parts"@, "(none)"@)]
    } else {
        parts_lines(message.parts)
    }
}

/// Shows the parts of a message.
pub fn render_message_parts(out: &mut TextOutput, message: &Message)
    ensures
        final(out)@ == old(out)@ + message_parts_lines(message.deep_view()),
{
    let ghost before = out@;
    assert(message.parts@.len() == message.parts.deep_view().len());
    if message.parts.len() == 0 {
        out.field("Parts", "(none)");
        assert(out@ =~= before + message_parts_lines(message.deep_view()));
    } else {
        render_parts(out, &message.parts);
    }
}

/// What can be shown as text.
pub trait TextRender {
    /// The value as text.
    spec fn rendered(&self) -> Seq<char>;

    /// The value as text.
    fn render_text(&self) -> (r: String)
        ensures
            r@ == self.rendered(),
    ;
}

/// `true` or `false`.
pub open spec fn flag_text(value: Option<bool>) -> Seq<char> {
    if value == Some(true) {
        "true"@
    } else {
        "false"@
    }
}

fn show_flag(value: Option<bool>) -> (r: &'static str)
    ensures
        r@ == flag_text(value),
{
    match value {
        Some(true) => "true",
        Some(false) => "false",
        None => "false",
    }
}

/// An interface on a line of its own.
pub open spec fn interface_line(interface: AgentInterfaceView) -> Seq<char> {
    "  - "@ + interface.protocol_binding + " "@ + interface.url + " (v"@
        + interface.protocol_version + ")"@
}

/// The interfaces of a card.
pub open spec fn interfaces_text(interfaces: Seq<AgentInterfaceView>) -> Seq<char> {
    if interfaces.len() == 0 {
        "  (none)"@
    } else {
        text::joined(interfaces.map_values(|i: AgentInterfaceView| interface_line(i)), "\n"@)
    }
}

/// The lines of an agent card.
pub open spec fn card_lines(card: AgentCardView) -> Seq<Seq<char>> {
    seq![
        field_line("Name"@, card.name),
        field_line("Description"@, card.description),
        field_line("Version"@, card.version),
        field_line("Streaming"@, flag_text(card.capabilities.streaming)),
        field_line("Push Notifications"@, flag_text(card.capabilities.push_notifications)),
        field_line("Extended Card"@, flag_text(card.capabilities.extended_agent_card)),
    ] + block_lines("Interfaces"@, interfaces_text(card.supported_interfaces)) + seq![
        field_line("Skills"@, text::decimal(card.skills.len())),
    ]
}

fn show_interfaces(card: &AgentCard) -> (r: String)
    ensures
        r@ == interfaces_text(card.deep_view().supported_interfaces),
{
    let ghost all = card.supported_interfaces.deep_view();
    assert(card.supported_interfaces@.len() == all.len());
    if card.supported_interfaces.len() == 0 {
        return "  (none)".to_string();
    }
    let mut lines: Vec<String> = Vec::new();
    let mut i: usize = 0;
    while i < card.supported_interfaces.len()
        invariant
            i <= card.supported_interfaces@.len(),
            all == card.supported_interfaces.deep_view(),
            lines@.len() == i,
            forall|k: int| 0 <= k < i ==> (#[trigger] lines@[k])@ == interface_line(all[k]),
        decreases card.supported_interfaces@.len() - i,
    {
        let interface = &card.supported_interfaces[i];
        let mut line = "  - ".to_string();
        line.append(interface.protocol_binding.as_str());
        line.append(" ");
        line.append(interface.url.as_str());
        line.append(" (v");
        line.append(interface.protocol_version.as_str());
        line.append(")");
        assert(all[i as int] == interface.deep_view());
        lines.push(line);
        i += 1;
    }
    assert(lines.deep_view() =~= all.map_values(|i: AgentInterfaceView| interface_line(i)));
    text::join(&lines, "\n")
}

impl TextRender for AgentCard {
    open spec fn rendered(&self) -> Seq<char> {
        finished(card_lines(self.deep_view()))
    }

    fn render_text(&self) -> (r: String) {
        let mut out = TextOutput::new();
        out.field("Name", self.name.as_str());
        out.field("Description", self.description.as_str());
        out.field("Version", self.version.as_str());
        out.field("Streaming", show_flag(self.capabilities.streaming));
        out.field("Push Notifications", show_flag(self.capabilities.push_notifications));
        out.field("Extended Card", show_flag(self.capabilities.extended_agent_card));
        let interfaces = show_interfaces(self);
        out.block("Interfaces", interfaces.as_str());
        assert(self.skills@.len() == self.skills.deep_view().len());
        let skills = text::to_decimal(self.skills.len() as u64);
        out.field("Skills", skills.as_str());
        assert(out@ =~= card_lines(self.deep_view()));
        out.finish()
    }
}

/// Whether a task waits for its caller.
pub open spec fn awaits_caller(state: TaskState) -> bool {
    state == TaskState::InputRequired || state == TaskState::AuthRequired
}

/// How to go on with a task that waits for its caller.
pub open spec fn resume_lines(task_id: Seq<char>, state: TaskState) -> Seq<Seq<char>> {
    if awaits_caller(state) {
        seq![field_line("Resume with"@, "a2acli send --task-id "@ + task_id + " \"<reply>\""@)]
    } else {
        Seq::empty()
    }
}

fn render_resume(out: &mut TextOutput, task_id: &str, state: TaskState)
    ensures
        final(out)@ == old(out)@ + resume_lines(task_id@, state),
{
    let ghost before = out@;
    if state == TaskState::InputRequired || state == TaskState::AuthRequired {
        let mut hint = "a2acli send --task-id ".to_string();
        hint.append(task_id);
        hint.append(" \"<reply>\"");
        out.field("Resume with", hint.as_str());
    }
    assert(out@ =~= before + resume_lines(task_id@, state));
}

/// The lines of an artifact, by its name or else its id.
pub open spec fn artifact_lines(artifact: ArtifactView) -> Seq<Seq<char>> {
    let label = match artifact.name {
        Some(name) => name,
        None => artifact.artifact_id,
    };
    seq!["Artifact: "@ + label] + parts_lines(artifact.parts)
}

fn render_artifact(out: &mut TextOutput, artifact: &Artifact)
    ensures
        final(out)@ == old(out)@ + artifact_lines(artifact.deep_view()),
{
    let ghost before = out@;
    let mut line = "Artifact: ".to_string();
    match &artifact.name {
        Some(name) => line.append(name.as_str()),
        None => line.append(artifact.artifact_id.as_str()),
    }
    out.raw(line);
    render_parts(out, &artifact.parts);
    assert(out@ =~= before + artifact_lines(artifact.deep_view()));
}

/// The lines of several artifacts.
pub open spec fn artifacts_lines(artifacts: Seq<ArtifactView>) -> Seq<Seq<char>>
    decreases artifacts.len(),
{
    if artifacts.len() == 0 {
        Seq::empty()
    } else {
        artifacts_lines(artifacts.drop_last()) + artifact_lines(artifacts.last())
    }
}

fn render_artifacts(out: &mut TextOutput, artifacts: &Vec<Artifact>)
    ensures
        final(out)@ == old(out)@ + artifacts_lines(artifacts.deep_view()),
{
    let ghost before = out@;
    let ghost all = artifacts.deep_view();
    let mut i: usize = 0;
    assert(all.take(0) =~= Seq::<ArtifactView>::empty());
    assert(out@ =~= before + artifacts_lines(all.take(0)));
    while i < artifacts.len()
        invariant
            i <= artifacts@.len(),
            all == artifacts.deep_view(),
            out@ == before + artifacts_lines(all.take(i as int)),
        decreases artifacts@.len() - i,
    {
        render_artifact(out, &artifacts[i]);
        proof {
            assert(all.take(i + 1).drop_last() =~= all.take(i as int));
            assert(out@ =~= before + artifacts_lines(all.take(i + 1)));
        }
        i += 1;
    }
    assert(all.take(i as int) =~= all);
}

/// The lines of a task.
pub open spec fn task_lines(task: TaskView) -> Seq<Seq<char>> {
    seq![
        field_line("Task ID"@, task.id),
        field_line("Context ID"@, task.context_id),
        field_line("State"@, state_label(task.status.state)),
    ] + (match task.status.message {
        Some(message) => message_parts_lines(message),
        None => Seq::empty(),
    }) + (match task.artifacts {
        Some(artifacts) => artifacts_lines(artifacts),
        None => Seq::empty(),
    }) + resume_lines(task.id, task.status.state)
}

impl TextRender for Task {
    open spec fn rendered(&self) -> Seq<char> {
        finished(task_lines(self.deep_view()))
    }

    fn render_text(&self) -> (r: String) {
        let mut out = TextOutput::new();
        out.field("Task ID", self.id.as_str());
        out.field("Context ID", self.context_id.as_str());
        out.field("State", task_state_label(&self.status.state));
        if let Some(message) = &self.status.message {
            render_message_parts(&mut out, message);
        }
        if let Some(artifacts) = &self.artifacts {
            render_artifacts(&mut out, artifacts);
        }
        render_resume(&mut out, self.id.as_str(), self.status.state);
        assert(out@ =~= task_lines(self.deep_view()));
        out.finish()
    }
}

/// A field that may be missing.
pub open spec fn optional_field(label: Seq<char>, value: Option<Seq<char>>) -> Seq<Seq<char>> {
    match value {
        Some(value) => seq![field_line(label, value)],
        None => Seq::empty(),
    }
}

fn render_optional(out: &mut TextOutput, label: &str, value: &Option<String>)
    ensures
        final(out)@ == old(out)@ + optional_field(label@, value.deep_view()),
{
    let ghost before = out@;
    if let Some(value) = value {
        out.field(label, value.as_str());
    }
    assert(out@ =~= before + optional_field(label@, value.deep_view()));
}

/// The lines of a message.
pub open spec fn message_lines(message: MessageView) -> Seq<Seq<char>> {
    optional_field("Context ID"@, message.context_id) + optional_field(
        "Task ID"@,
        message.task_id,
    ) + message_parts_lines(message)
}

impl TextRender for Message {
    open spec fn rendered(&self) -> Seq<char> {
        finished(message_lines(self.deep_view()))
    }

    fn render_text(&self) -> (r: String) {
        let mut out = TextOutput::new();
        render_optional(&mut out, "Context ID", &self.context_id);
        render_optional(&mut out, "Task ID", &self.task_id);
        render_message_parts(&mut out, self);
        assert(out@ =~= message_lines(self.deep_view()));
        out.finish()
    }
}

impl TextRender for SendMessageResponse {
    open spec fn rendered(&self) -> Seq<char> {
        match self {
            SendMessageResponse::Task(task) => task.rendered(),
            SendMessageResponse::Message(message) => message.rendered(),
        }
    }

    fn render_text(&self) -> (r: String) {
        match self {
            SendMessageResponse::Task(task) => task.render_text(),
            SendMessageResponse::Message(message) => message.render_text(),
        }
    }
}

/// The lines of several tasks, each a block.
pub open spec fn tasks_lines(tasks: Seq<TaskView>) -> Seq<Seq<char>>
    decreases tasks.len(),
{
    if tasks.len() == 0 {
        Seq::empty()
    } else {
        tasks_lines(tasks.drop_last()) + block_lines("Task"@, finished(task_lines(tasks.last())))
    }
}

/// The lines of a page of tasks.
pub open spec fn task_page_lines(page: ListTasksResponseView) -> Seq<Seq<char>> {
    seq![
        field_line("Total"@, text::signed_decimal(page.total_size as int)),
        field_line("Page Size"@, text::signed_decimal(page.page_size as int)),
    ] + (if page.next_page_token.len() > 0 {
        seq![field_line("Next Page Token"@, page.next_page_token)]
    } else {
        Seq::empty()
    }) + (if page.tasks.len() == 0 {
        seq![field_line("Tasks"@, "(none)"@)]
    } else {
        tasks_lines(page.tasks)
    })
}

fn render_tasks(out: &mut TextOutput, tasks: &Vec<Task>)
    ensures
        final(out)@ == old(out)@ + tasks_lines(tasks.deep_view()),
{
    let ghost before = out@;
    let ghost all = tasks.deep_view();
    let mut i: usize = 0;
    assert(all.take(0) =~= Seq::<TaskView>::empty());
    assert(out@ =~= before + tasks_lines(all.take(0)));
    while i < tasks.len()
        invariant
            i <= tasks@.len(),
            all == tasks.deep_view(),
            out@ == before + tasks_lines(all.take(i as int)),
        decreases tasks@.len() - i,
    {
        let rendered = tasks[i].render_text();
        out.block("Task", rendered.as_str());
        proof {
            assert(all.take(i + 1).drop_last() =~= all.take(i as int));
            assert(all.take(i + 1).last() == tasks@[i as int].deep_view());
            assert(out@ =~= before + tasks_lines(all.take(i + 1)));
        }
        i += 1;
    }
    assert(all.take(i as int) =~= all);
}

impl TextRender for ListTasksResponse {
    open spec fn rendered(&self) -> Seq<char> {
        finished(task_page_lines(self.deep_view()))
    }

    fn render_text(&self) -> (r: String) {
        let mut out = TextOutput::new();
        let total = text::to_signed_decimal(self.total_size as i64);
        out.field("Total", total.as_str());
        let size = text::to_signed_decimal(self.page_size as i64);
        out.field("Page Size", size.as_str());
        if self.next_page_token.as_str().unicode_len() > 0 {
            out.field("Next Page Token", self.next_page_token.as_str());
        }
        assert(self.tasks@.len() == self.tasks.deep_view().len());
        if self.tasks.len() == 0 {
            out.field("Tasks", "(none)");
        } else {
            render_tasks(&mut out, &self.tasks);
        }
        assert(out@ =~= task_page_lines(self.deep_view()));
        out.finish()
    }
}

/// The lines of a push configuration.
pub open spec fn push_config_lines(config: TaskPushNotificationConfigView) -> Seq<Seq<char>> {
    optional_field("Config ID"@, config.id) + seq![
        field_line("Task ID"@, config.task_id),
        field_line("URL"@, config.url),
    ] + optional_field("Token"@, config.token) + (match config.authentication {
        Some(auth) => seq![field_line("Auth Scheme"@, auth.scheme)],
        None => Seq::empty(),
    })
}

impl TextRender for TaskPushNotificationConfig {
    open spec fn rendered(&self) -> Seq<char> {
        finished(push_config_lines(self.deep_view()))
    }

    fn render_text(&self) -> (r: String) {
        let mut out = TextOutput::new();
        render_optional(&mut out, "Config ID", &self.id);
        out.field("Task ID", self.task_id.as_str());
        out.field("URL", self.url.as_str());
        render_optional(&mut out, "Token", &self.token);
        if let Some(auth) = &self.authentication {
            out.field("Auth Scheme", auth.scheme.as_str());
        }
        assert(out@ =~= push_config_lines(self.deep_view()));
        out.finish()
    }
}

/// A push configuration shows the same whatever its credentials are.
pub proof fn credentials_are_not_shown(
    config: TaskPushNotificationConfigView,
    auth: AuthenticationInfoView,
    other: Option<Seq<char>>,
)
    requires
        config.authentication == Some(auth),
    ensures
        push_config_lines(config) == push_config_lines(
            TaskPushNotificationConfigView {
                authentication: Some(AuthenticationInfoView { credentials: other, ..auth }),
                ..config
            },
        ),
{
}

/// The lines of several push configurations, each a block.
pub open spec fn push_configs_lines(configs: Seq<TaskPushNotificationConfigView>) -> Seq<Seq<char>>
    decreases configs.len(),
{
    if configs.len() == 0 {
        Seq::empty()
    } else {
        push_configs_lines(configs.drop_last()) + block_lines(
            "Push Config"@,
            finished(push_config_lines(configs.last())),
        )
    }
}

/// The lines of a page of push configurations.
pub open spec fn push_config_page_lines(
    page: ListTaskPushNotificationConfigsResponseView,
) -> Seq<Seq<char>> {
    optional_field("Next Page Token"@, page.next_page_token) + (if page.configs.len() == 0 {
        seq![field_line("Configs"@, "(none)"@)]
    } else {
        push_configs_lines(page.configs)
    })
}

fn render_push_configs(out: &mut TextOutput, configs: &Vec<TaskPushNotificationConfig>)
    ensures
        final(out)@ == old(out)@ + push_configs_lines(configs.deep_view()),
{
    let ghost before = out@;
    let ghost all = configs.deep_view();
    let mut i: usize = 0;
    assert(all.take(0) =~= Seq::<TaskPushNotificationConfigView>::empty());
    assert(out@ =~= before + push_configs_lines(all.take(0)));
    while i < configs.len()
        invariant
            i <= configs@.len(),
            all == configs.deep_view(),
            out@ == before + push_configs_lines(all.take(i as int)),
        decreases configs@.len() - i,
    {
        let rendered = configs[i].render_text();
        out.block("Push Config", rendered.as_str());
        proof {
            assert(all.take(i + 1).drop_last() =~= all.take(i as int));
            assert(all.take(i + 1).last() == configs@[i as int].deep_view());
            assert(out@ =~= before + push_configs_lines(all.take(i + 1)));
        }
        i += 1;
    }
    assert(all.take(i as int) =~= all);
}

impl TextRender for ListTaskPushNotificationConfigsResponse {
    open spec fn rendered(&self) -> Seq<char> {
        finished(push_config_page_lines(self.deep_view()))
    }

    fn render_text(&self) -> (r: String) {
        let mut out = TextOutput::new();
        render_optional(&mut out, "Next Page Token", &self.next_page_token);
        assert(self.configs@.len() == self.configs.deep_view().len());
        if self.configs.len() == 0 {
            out.field("Configs", "(none)");
        } else {
            render_push_configs(&mut out, &self.configs);
        }
        assert(out@ =~= push_config_page_lines(self.deep_view()));
        out.finish()
    }
}

/// What is reported when a push configuration was deleted.
#[derive(Debug, PartialEq, Eq)]
pub struct PushConfigDeleted {
    pub deleted: bool,
    pub task_id: String,
    pub id: String,
}

impl TextRender for PushConfigDeleted {
    open spec fn rendered(&self) -> Seq<char> {
        finished(
            seq![
                field_line("Deleted"@, flag_text(Some(self.deleted))),
                field_line("Task ID"@, self.task_id@),
                field_line("Config ID"@, self.id@),
            ],
        )
    }

    fn render_text(&self) -> (r: String) {
        let mut out = TextOutput::new();
        out.field("Deleted", show_flag(Some(self.deleted)));
        out.field("Task ID", self.task_id.as_str());
        out.field("Config ID", self.id.as_str());
        assert(out@ =~= seq![
            field_line("Deleted"@, flag_text(Some(self.deleted))),
            field_line("Task ID"@, self.task_id@),
            field_line("Config ID"@, self.id@),
        ]);
        out.finish()
    }
}

/// The lines of a status update.
pub open spec fn status_update_lines(event: TaskStatusUpdateEventView) -> Seq<Seq<char>> {
    seq![
        field_line("Task ID"@, event.task_id),
        field_line("Context ID"@, event.context_id),
        field_line("State"@, state_label(event.status.state)),
    ] + resume_lines(event.task_id, event.status.state)
}

/// The lines of an artifact update.
pub open spec fn artifact_update_lines(event: TaskArtifactUpdateEventView) -> Seq<Seq<char>> {
    seq![field_line("Task ID"@, event.task_id), field_line("Context ID"@, event.context_id)]
        + artifact_lines(event.artifact)
}

impl TextRender for StreamResponse {
    open spec fn rendered(&self) -> Seq<char> {
        match self {
            StreamResponse::Task(task) => task.rendered(),
            StreamResponse::Message(message) => message.rendered(),
            StreamResponse::StatusUpdate(event) => finished(status_update_lines(event.deep_view())),
            StreamResponse::ArtifactUpdate(event) => finished(
                artifact_update_lines(event.deep_view()),
            ),
        }
    }

    fn render_text(&self) -> (r: String) {
        match self {
            StreamResponse::Task(task) => task.render_text(),
            StreamResponse::Message(message) => message.render_text(),
            StreamResponse::StatusUpdate(event) => {
                let mut out = TextOutput::new();
                out.field("Task ID", event.task_id.as_str());
                out.field("Context ID", event.context_id.as_str());
                out.field("State", task_state_label(&event.status.state));
                render_resume(&mut out, event.task_id.as_str(), event.status.state);
                assert(out@ =~= status_update_lines(event.deep_view()));
                out.finish()
            },
            StreamResponse::ArtifactUpdate(event) => {
                let mut out = TextOutput::new();
                out.field("Task ID", event.task_id.as_str());
                out.field("Context ID", event.context_id.as_str());
                render_artifact(&mut out, &event.artifact);
                assert(out@ =~= artifact_update_lines(event.deep_view()));
                out.finish()
            },
        }
    }
}

/// A setting as a field.
pub open spec fn setting_line(setting: ConfigSettingView) -> Seq<char> {
    field_line(setting.name, setting.value + " (source: "@ + setting.source + ")"@)
}

impl TextRender for ConfigSettings {
    open spec fn rendered(&self) -> Seq<char> {
        finished(self.settings.deep_view().map_values(|s: ConfigSettingView| setting_line(s)))
    }

    fn render_text(&self) -> (r: String) {
        let mut out = TextOutput::new();
        let ghost all = self.settings.deep_view();
        let mut i: usize = 0;
        while i < self.settings.len()
            invariant
                i <= self.settings@.len(),
                all == self.settings.deep_view(),
                out@.len() == i,
                forall|k: int| 0 <= k < i ==> #[trigger] out@[k] == setting_line(all[k]),
            decreases self.settings@.len() - i,
        {
            let setting = &self.settings[i];
            let mut value = setting.value.clone();
            value.append(" (source: ");
            value.append(setting.source.as_str());
            value.append(")");
            assert(all[i as int] == setting.deep_view());
            out.field(setting.name.as_str(), value.as_str());
            i += 1;
        }
        assert(out@ =~= all.map_values(|s: ConfigSettingView| setting_line(s)));
        out.finish()
    }
}

/// A text part shows its text, a data part its document as indented JSON, a
/// file its name, its media type where that is known and its size, and a URL
/// itself with its media type where that is known.
pub proof fn parts_show_their_content(part: PartView)
    ensures
        match part.content {
            PartContentView::Text(content) => part_lines(part) == seq!["Text"@ + ":"@]
                + text::lines_of(content) + seq![Seq::<char>::empty()],
            PartContentView::Data(value) => part_lines(part) == seq!["Data"@ + ":"@]
                + text::lines_of(json::pretty(value)) + seq![Seq::<char>::empty()],
            PartContentView::Raw(bytes) => {
                &&& part_lines(part).len() == 1
                &&& part.filename matches Some(name) ==> (part.media_type matches Some(media_type)
                    ==> part_lines(part)[0] == "File"@ + ": "@ + (name + " ("@ + media_type + ", "@
                    + text::decimal(bytes.len()) + " bytes)"@))
                &&& part.filename matches Some(name) ==> (part.media_type is None ==> part_lines(
                    part,
                )[0] == "File"@ + ": "@ + (name + " ("@ + text::decimal(bytes.len())
                    + " bytes)"@))
                &&& part.filename is None ==> (part.media_type matches Some(media_type)
                    ==> part_lines(part)[0] == "File"@ + ": "@ + ("(unnamed)"@ + " ("@ + media_type
                    + ", "@ + text::decimal(bytes.len()) + " bytes)"@))
                &&& part.filename is None && part.media_type is None ==> part_lines(part)[0]
                    == "File"@ + ": "@ + ("(unnamed)"@ + " ("@ + text::decimal(bytes.len())
                    + " bytes)"@)
            },
            PartContentView::Url(url) => {
                &&& part_lines(part).len() == 1
                &&& part.media_type matches Some(media_type) ==> part_lines(part)[0] == "File"@
                    + ": "@ + (url + " ("@ + media_type + ")"@)
                &&& part.media_type is None ==> part_lines(part)[0] == "File"@ + ": "@ + url
            },
        },
{
}

/// Parts are shown one after the other, each on its own lines.
pub proof fn parts_are_shown_in_order(parts: Seq<PartView>, more: Seq<PartView>)
    ensures
        parts_lines(parts + more) == parts_lines(parts) + parts_lines(more),
        parts.len() == 1 ==> parts_lines(parts) == part_lines(parts[0]),
        parts.len() == 0 ==> parts_lines(parts).len() == 0,
    decreases more.len(),
{
    if parts.len() == 1 {
        assert(parts.drop_last() =~= Seq::<PartView>::empty());
        assert(parts.last() == parts[0]);
        reveal_with_fuel(parts_lines, 2);
        assert(parts_lines(parts) =~= part_lines(parts[0]));
    }
    if more.len() == 0 {
        assert(parts + more =~= parts);
        assert(parts_lines(parts) + parts_lines(more) =~= parts_lines(parts));
    } else {
        parts_are_shown_in_order(parts, more.drop_last());
        assert((parts + more).drop_last() =~= parts + more.drop_last());
        assert(parts_lines(parts + more) =~= parts_lines(parts) + parts_lines(more));
    }
}

/// Artifacts are shown one after the other: each under its name, or under its
/// identifier where it has none, and with all its parts.
pub proof fn artifacts_are_shown_in_order(artifacts: Seq<ArtifactView>, more: Seq<ArtifactView>)
    ensures
        artifacts_lines(artifacts + more) == artifacts_lines(artifacts) + artifacts_lines(more),
        artifacts.len() == 1 ==> {
            let one = artifacts[0];
            &&& one.name matches Some(name) ==> artifacts_lines(artifacts) == seq![
                "Artifact: "@ + name,
            ] + parts_lines(one.parts)
            &&& one.name is None ==> artifacts_lines(artifacts) == seq![
                "Artifact: "@ + one.artifact_id,
            ] + parts_lines(one.parts)
        },
    decreases more.len(),
{
    if artifacts.len() == 1 {
        assert(artifacts.drop_last() =~= Seq::<ArtifactView>::empty());
        assert(artifacts.last() == artifacts[0]);
        reveal_with_fuel(artifacts_lines, 2);
        assert(artifacts_lines(artifacts) =~= artifact_lines(artifacts[0]));
    }
    if more.len() == 0 {
        assert(artifacts + more =~= artifacts);
        assert(artifacts_lines(artifacts) + artifacts_lines(more) =~= artifacts_lines(artifacts));
    } else {
        artifacts_are_shown_in_order(artifacts, more.drop_last());
        assert((artifacts + more).drop_last() =~= artifacts + more.drop_last());
        assert(artifacts_lines(artifacts + more) =~= artifacts_lines(artifacts) + artifacts_lines(
            more,
        ));
    }
}

/// A task shows its identifier, its context and its state, then the parts of
/// its status message and its artifacts, whatever the one or the other is, and
/// last how to go on with it, exactly where it needs input or authentication.
pub proof fn tasks_show_their_state_and_what_they_made(task: TaskView)
    ensures
        ({
            let lines = task_lines(task);
            let said = match task.status.message {
                Some(message) => if message.parts.len() == 0 {
                    seq!["Parts"@ + ": "@ + "(none)"@]
                } else {
                    parts_lines(message.parts)
                },
                None => Seq::empty(),
            };
            let made = match task.artifacts {
                Some(artifacts) => artifacts_lines(artifacts),
                None => Seq::empty(),
            };
            let paused = task.status.state == TaskState::InputRequired || task.status.state
                == TaskState::AuthRequired;
            &&& lines[0] == "Task ID"@ + ": "@ + task.id
            &&& lines[1] == "Context ID"@ + ": "@ + task.context_id
            &&& lines[2] == "State"@ + ": "@ + state_label(task.status.state)
            &&& lines.subrange(3, 3 + said.len() as int) == said
            &&& lines.subrange(3 + said.len() as int, 3 + said.len() + made.len() as int) == made
            &&& paused ==> {
                &&& lines.len() == 4 + said.len() + made.len()
                &&& lines.last() == "Resume with"@ + ": "@ + ("a2acli send --task-id "@ + task.id
                    + " \"<reply>\""@)
            }
            &&& !paused ==> lines.len() == 3 + said.len() + made.len()
        }),
{
    let lines = task_lines(task);
    let said = match task.status.message {
        Some(message) => message_parts_lines(message),
        None => Seq::empty(),
    };
    let made = match task.artifacts {
        Some(artifacts) => artifacts_lines(artifacts),
        None => Seq::empty(),
    };
    assert(lines.subrange(3, 3 + said.len() as int) =~= said);
    assert(lines.subrange(3 + said.len() as int, 3 + said.len() + made.len() as int) =~= made);
}

/// A message shows its context and its task where it has them, each whatever
/// the other is, and all its parts.
pub proof fn messages_show_where_they_belong(message: MessageView)
    ensures
        ({
            let lines = message_lines(message);
            let body = if message.parts.len() == 0 {
                seq!["Parts"@ + ": "@ + "(none)"@]
            } else {
                parts_lines(message.parts)
            };
            let first: int = if message.context_id is Some {
                1
            } else {
                0
            };
            let second: int = if message.task_id is Some {
                1
            } else {
                0
            };
            &&& lines.len() == first + second + body.len()
            &&& message.context_id matches Some(id) ==> lines[0] == "Context ID"@ + ": "@ + id
            &&& message.task_id matches Some(id) ==> lines[first] == "Task ID"@ + ": "@ + id
            &&& lines.skip(first + second) == body
        }),
{
    let lines = message_lines(message);
    let first: int = if message.context_id is Some {
        1
    } else {
        0
    };
    let second: int = if message.task_id is Some {
        1
    } else {
        0
    };
    assert(lines.skip(first + second) =~= message_parts_lines(message));
}

/// A page of tasks shows its total and its size, the token of the next page
/// exactly where there is one, and every task, or that there are none.
pub proof fn task_pages_show_every_task(page: ListTasksResponseView)
    ensures
        ({
            let lines = task_page_lines(page);
            let more: int = if page.next_page_token.len() > 0 {
                1
            } else {
                0
            };
            &&& lines[0] == "Total"@ + ": "@ + text::signed_decimal(page.total_size as int)
            &&& lines[1] == "Page Size"@ + ": "@ + text::signed_decimal(page.page_size as int)
            &&& more == 1 ==> lines[2] == "Next Page Token"@ + ": "@ + page.next_page_token
            &&& page.tasks.len() > 0 ==> lines.skip(2 + more) == tasks_lines(page.tasks)
            &&& page.tasks.len() == 0 ==> lines.skip(2 + more) == seq![
                "Tasks"@ + ": "@ + "(none)"@,
            ]
        }),
{
    let lines = task_page_lines(page);
    let more: int = if page.next_page_token.len() > 0 {
        1
    } else {
        0
    };
    if page.tasks.len() > 0 {
        assert(lines.skip(2 + more) =~= tasks_lines(page.tasks));
    } else {
        assert(lines.skip(2 + more) =~= seq!["Tasks"@ + ": "@ + "(none)"@]);
    }
}

/// The tasks of a page are shown one after the other, each as it is shown
/// alone.
pub proof fn listed_tasks_are_shown_in_order(tasks: Seq<TaskView>, task: TaskView)
    ensures
        tasks_lines(tasks.push(task)) == tasks_lines(tasks) + (seq!["Task"@ + ":"@]
            + text::lines_of(finished(task_lines(task))) + seq![Seq::<char>::empty()]),
        tasks_lines(Seq::empty()).len() == 0,
{
    assert(tasks.push(task).drop_last() =~= tasks);
}

/// A push configuration shows its identifier, its token and the scheme of its
/// authentication where it has them, each whatever the others are, and always
/// its task and its address.
pub proof fn push_configs_show_their_fields(config: TaskPushNotificationConfigView)
    ensures
        ({
            let lines = push_config_lines(config);
            let first: int = if config.id is Some {
                1
            } else {
                0
            };
            let third: int = if config.token is Some {
                1
            } else {
                0
            };
            let fourth: int = if config.authentication is Some {
                1
            } else {
                0
            };
            &&& lines.len() == first + 2 + third + fourth
            &&& config.id matches Some(id) ==> lines[0] == "Config ID"@ + ": "@ + id
            &&& lines[first] == "Task ID"@ + ": "@ + config.task_id
            &&& lines[first + 1] == "URL"@ + ": "@ + config.url
            &&& config.token matches Some(token) ==> lines[first + 2] == "Token"@ + ": "@ + token
            &&& config.authentication matches Some(auth) ==> lines[first + 2 + third]
                == "Auth Scheme"@ + ": "@ + auth.scheme
        }),
{
}

/// A page of push configurations shows the token of the next page exactly
/// where there is one, and every configuration as it is shown alone, or that
/// there are none.
pub proof fn push_config_pages_show_every_config(
    page: ListTaskPushNotificationConfigsResponseView,
    configs: Seq<TaskPushNotificationConfigView>,
    config: TaskPushNotificationConfigView,
)
    ensures
        ({
            let lines = push_config_page_lines(page);
            let more: int = if page.next_page_token is Some {
                1
            } else {
                0
            };
            &&& page.next_page_token matches Some(token) ==> lines[0] == "Next Page Token"@ + ": "@
                + token
            &&& page.configs.len() > 0 ==> lines.skip(more) == push_configs_lines(page.configs)
            &&& page.configs.len() == 0 ==> lines.skip(more) == seq![
                "Configs"@ + ": "@ + "(none)"@,
            ]
        }),
        push_configs_lines(configs.push(config)) == push_configs_lines(configs) + (seq![
            "Push Config"@ + ":"@,
        ] + text::lines_of(finished(push_config_lines(config))) + seq![Seq::<char>::empty()]),
        push_configs_lines(Seq::empty()).len() == 0,
{
    let lines = push_config_page_lines(page);
    let more: int = if page.next_page_token is Some {
        1
    } else {
        0
    };
    if page.configs.len() > 0 {
        assert(lines.skip(more) =~= push_configs_lines(page.configs));
    } else {
        assert(lines.skip(more) =~= seq!["Configs"@ + ": "@ + "(none)"@]);
    }
    assert(configs.push(config).drop_last() =~= configs);
}

/// A card shows its name, description and version, whether it declares each of
/// the capabilities, its interfaces and how many skills it has. A capability
/// counts as declared only where the card says so.
pub proof fn cards_show_what_they_declare(card: AgentCardView)
    ensures
        ({
            let lines = card_lines(card);
            let said = |value: Option<bool>|
                if value == Some(true) {
                    "true"@
                } else {
                    "false"@
                };
            &&& lines[0] == "Name"@ + ": "@ + card.name
            &&& lines[1] == "Description"@ + ": "@ + card.description
            &&& lines[2] == "Version"@ + ": "@ + card.version
            &&& lines[3] == "Streaming"@ + ": "@ + said(card.capabilities.streaming)
            &&& lines[4] == "Push Notifications"@ + ": "@ + said(
                card.capabilities.push_notifications,
            )
            &&& lines[5] == "Extended Card"@ + ": "@ + said(card.capabilities.extended_agent_card)
            &&& lines.last() == "Skills"@ + ": "@ + text::decimal(card.skills.len())
            &&& lines.subrange(6, lines.len() - 1) == seq!["Interfaces"@ + ":"@] + text::lines_of(
                interfaces_text(card.supported_interfaces),
            ) + seq![Seq::<char>::empty()]
        }),
{
    let lines = card_lines(card);
    let block = block_lines("Interfaces"@, interfaces_text(card.supported_interfaces));
    assert(lines.subrange(6, lines.len() - 1) =~= block);
}

/// An interface is listed with its binding, its address and its version.
pub proof fn interfaces_are_listed(
    interfaces: Seq<AgentInterfaceView>,
    interface: AgentInterfaceView,
)
    ensures
        interfaces_text(seq![interface]) == "  - "@ + interface.protocol_binding + " "@
            + interface.url + " (v"@ + interface.protocol_version + ")"@,
        interfaces.len() > 0 ==> interfaces_text(interfaces.push(interface)) == interfaces_text(
            interfaces,
        ) + "\n"@ + interfaces_text(seq![interface]),
        interfaces_text(Seq::empty()) == "  (none)"@,
{
    let show = |i: AgentInterfaceView| interface_line(i);
    assert(seq![interface].map_values(show) =~= seq![interface_line(interface)]);
    if interfaces.len() > 0 {
        assert(interfaces.push(interface).map_values(show) =~= interfaces.map_values(show).push(
            interface_line(interface),
        ));
        text::joins_put_the_separator_between(
            interfaces.map_values(show),
            interface_line(interface),
            "\n"@,
        );
    }
}

/// An update shows the task and the context that it is about; a status update
/// also the state, and how to go on exactly where the task needs input or
/// authentication; an artifact update also the artifact.
pub proof fn updates_show_their_task(
    status: TaskStatusUpdateEventView,
    artifact: TaskArtifactUpdateEventView,
)
    ensures
        ({
            let lines = status_update_lines(status);
            let paused = status.status.state == TaskState::InputRequired || status.status.state
                == TaskState::AuthRequired;
            &&& lines[0] == "Task ID"@ + ": "@ + status.task_id
            &&& lines[1] == "Context ID"@ + ": "@ + status.context_id
            &&& lines[2] == "State"@ + ": "@ + state_label(status.status.state)
            &&& !paused ==> lines.len() == 3
            &&& paused ==> lines.len() == 4 && lines[3] == "Resume with"@ + ": "@ + (
            "a2acli send --task-id "@ + status.task_id + " \"<reply>\""@)
        }),
        ({
            let lines = artifact_update_lines(artifact);
            &&& lines[0] == "Task ID"@ + ": "@ + artifact.task_id
            &&& lines[1] == "Context ID"@ + ": "@ + artifact.context_id
            &&& lines.skip(2) == artifacts_lines(seq![artifact.artifact])
        }),
{
    let lines = artifact_update_lines(artifact);
    assert(seq![artifact.artifact].drop_last() =~= Seq::<ArtifactView>::empty());
    reveal_with_fuel(artifacts_lines, 2);
    assert(artifacts_lines(seq![artifact.artifact]) =~= artifact_lines(artifact.artifact));
    assert(lines.skip(2) =~= artifact_lines(artifact.artifact));
}

/// Different states have different labels.
pub proof fn labels_tell_states_apart(a: TaskState, b: TaskState)
    ensures
        state_label(a) == state_label(b) ==> a == b,
{
    reveal_strlit("UNSPECIFIED");
    reveal_strlit("SUBMITTED");
    reveal_strlit("WORKING");
    reveal_strlit("COMPLETED");
    reveal_strlit("FAILED");
    reveal_strlit("CANCELED");
    reveal_strlit("INPUT_REQUIRED");
    reveal_strlit("REJECTED");
    reveal_strlit("AUTH_REQUIRED");
    assert("UNSPECIFIED"@.len() == 11 && "SUBMITTED"@.len() == 9 && "WORKING"@.len() == 7);
    assert("COMPLETED"@.len() == 9 && "FAILED"@.len() == 6 && "CANCELED"@.len() == 8);
    assert("INPUT_REQUIRED"@.len() == 14 && "REJECTED"@.len() == 8 && "AUTH_REQUIRED"@.len() == 13);
    assert("SUBMITTED"@[0] == 'S' && "COMPLETED"@[0] == 'C');
    assert("CANCELED"@[0] == 'C' && "REJECTED"@[0] == 'R');
}

/// A task or a message looks the same whether it comes alone, as an answer or
/// as an event.
pub proof fn events_look_like_what_they_carry(task: Task, message: Message)
    ensures
        SendMessageResponse::Task(task).rendered() == task.rendered(),
        SendMessageResponse::Message(message).rendered() == message.rendered(),
        StreamResponse::Task(task).rendered() == task.rendered(),
        StreamResponse::Message(message).rendered() == message.rendered(),
        task.rendered() == finished(task_lines(task.deep_view())),
        message.rendered() == finished(message_lines(message.deep_view())),
{
}

/// What is printed is the lines, with line feeds between them, without any at
/// the end.
pub proof fn finished_text_is_the_lines(lines: Seq<Seq<char>>)
    ensures
        ({
            let all = text::joined(lines, "\n"@);
            let shown = finished(lines);
            &&& shown.len() <= all.len()
            &&& shown == all.take(shown.len() as int)
            &&& shown.len() > 0 ==> shown.last() != '\n'
            &&& forall|k: int| shown.len() <= k < all.len() ==> #[trigger] all[k] == '\n'
        }),
{
    text::trailing_characters_are_taken_off(text::joined(lines, "\n"@), '\n');
}

/// Every kind of result is shown by its lines: events by those of the update,
/// pages and configurations by theirs, a deletion by what was deleted, and
/// settings one by one with their value and where that came from.
pub proof fn results_are_shown_by_their_lines(
    card: AgentCard,
    page: ListTasksResponse,
    config: TaskPushNotificationConfig,
    configs: ListTaskPushNotificationConfigsResponse,
    status: TaskStatusUpdateEvent,
    artifact: TaskArtifactUpdateEvent,
    deleted: PushConfigDeleted,
    settings: ConfigSettings,
    i: int,
)
    ensures
        card.rendered() == finished(card_lines(card.deep_view())),
        page.rendered() == finished(task_page_lines(page.deep_view())),
        config.rendered() == finished(push_config_lines(config.deep_view())),
        configs.rendered() == finished(push_config_page_lines(configs.deep_view())),
        StreamResponse::StatusUpdate(status).rendered() == finished(
            status_update_lines(status.deep_view()),
        ),
        StreamResponse::ArtifactUpdate(artifact).rendered() == finished(
            artifact_update_lines(artifact.deep_view()),
        ),
        deleted.rendered() == finished(
            seq![
                "Deleted"@ + ": "@ + (if deleted.deleted {
                    "true"@
                } else {
                    "false"@
                }),
                "Task ID"@ + ": "@ + deleted.task_id@,
                "Config ID"@ + ": "@ + deleted.id@,
            ],
        ),
        exists|lines: Seq<Seq<char>>|
            {
                &&& settings.rendered() == #[trigger] finished(lines)
                &&& lines.len() == settings.settings@.len()
                &&& 0 <= i < lines.len() ==> lines[i] == settings.settings@[i].name@ + ": "@ + (
                settings.settings@[i].value@ + " (source: "@ + settings.settings@[i].source@
                    + ")"@)
            },
{
    let lines = settings.settings.deep_view().map_values(|s: ConfigSettingView| setting_line(s));
    assert(settings.rendered() == finished(lines));
    assert(settings.settings.deep_view().len() == settings.settings@.len());
    if 0 <= i < lines.len() {
        assert(settings.settings.deep_view()[i] == settings.settings@[i].deep_view());
    }
}

} // verus!
