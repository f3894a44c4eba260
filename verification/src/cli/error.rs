//! Failures of the command line: exit codes and the error envelope.

use vstd::prelude::*;

use crate::card_schema::{Violation, ViolationView, SCHEMA_A2A_VERSION};
use crate::error_code;
use crate::json;
use crate::protocol::{A2AError, A2AErrorView};
use crate::replica::Replica;
use crate::span::Span;
use crate::text;

verus! {

/// What is known of an HTTP request that failed.
#[derive(Debug, PartialEq, Eq)]
pub struct HttpFailure {
    /// Whether the body of the answer could not be decoded.
    pub decode: bool,
    /// The status of the answer, if the failure is its status.
    pub status: Option<u16>,
    /// The failure in words.
    pub reason: String,
}

/// What an [`HttpFailure`] stands for.
#[verifier::ext_equal]
pub struct HttpFailureView {
    pub decode: bool,
    pub status: Option<u16>,
    pub reason: Seq<char>,
}

impl DeepView for HttpFailure {
    type V = HttpFailureView;

    open spec fn deep_view(&self) -> HttpFailureView {
        HttpFailureView { decode: self.decode, status: self.status, reason: self.reason@ }
    }
}

/// Why a command failed.
#[derive(Debug, PartialEq, Eq)]
pub enum CliError {
    /// The agent answered with an error.
    A2A(A2AError),
    /// The agent card could not be fetched.
    Http(HttpFailure),
    /// The output could not be serialized.
    Json(String),
    InvalidInput(String),
    /// A file of a message part could not be read.
    ReadFile { path: String, reason: String },
    /// The task did not settle in time.
    Timeout { task_id: String, timeout: Span },
    /// A local agent card file could not be read.
    CardFile { path: String, reason: String },
    /// A local agent card file does not hold an agent card.
    CardInvalid(String),
    /// The agent card violates the schema.
    CardSchemaInvalid { violations: Vec<Violation> },
    /// The command line could not be understood.
    Usage(String),
}

/// What a [`CliError`] stands for.
#[verifier::ext_equal]
pub enum CliErrorView {
    A2A(A2AErrorView),
    Http(HttpFailureView),
    Json(Seq<char>),
    InvalidInput(Seq<char>),
    ReadFile { path: Seq<char>, reason: Seq<char> },
    Timeout { task_id: Seq<char>, timeout: Span },
    CardFile { path: Seq<char>, reason: Seq<char> },
    CardInvalid(Seq<char>),
    CardSchemaInvalid { violations: Seq<ViolationView> },
    Usage(Seq<char>),
}

impl DeepView for CliError {
    type V = CliErrorView;

    open spec fn deep_view(&self) -> CliErrorView {
        match self {
            CliError::A2A(error) => CliErrorView::A2A(error.deep_view()),
            CliError::Http(failure) => CliErrorView::Http(failure.deep_view()),
            CliError::Json(reason) => CliErrorView::Json(reason@),
            CliError::InvalidInput(reason) => CliErrorView::InvalidInput(reason@),
            CliError::ReadFile { path, reason } => CliErrorView::ReadFile {
                path: path@,
                reason: reason@,
            },
            CliError::Timeout { task_id, timeout } => CliErrorView::Timeout {
                task_id: task_id@,
                timeout: *timeout,
            },
            CliError::CardFile { path, reason } => CliErrorView::CardFile {
                path: path@,
                reason: reason@,
            },
            CliError::CardInvalid(reason) => CliErrorView::CardInvalid(reason@),
            CliError::CardSchemaInvalid { violations } => CliErrorView::CardSchemaInvalid {
                violations: violations.deep_view(),
            },
            CliError::Usage(reason) => CliErrorView::Usage(reason@),
        }
    }
}

/// An invalid input, in words.
pub fn invalid_input(reason: &str) -> (r: CliError)
    ensures
        r.deep_view() == CliErrorView::InvalidInput(reason@),
{
    CliError::InvalidInput(reason.to_string())
}

/// Whether an answer rejects the caller's credentials.
pub open spec fn rejects_credentials(status: u16) -> bool {
    status == 401 || status == 403
}

/// What became of fetching an agent card.
pub enum CardFailure {
    /// What came was no agent card.
    Invalid,
    /// The credentials were rejected.
    Unauthorized,
    /// There was no agent card.
    NotFound,
    /// There was no answer.
    Unreachable,
}

/// What an HTTP failure means: a body that is no card, rejected credentials,
/// any other answer but success, or no answer at all.
pub open spec fn card_failure(failure: HttpFailureView) -> CardFailure {
    if failure.decode {
        CardFailure::Invalid
    } else {
        match failure.status {
            Some(status) => if rejects_credentials(status) {
                CardFailure::Unauthorized
            } else {
                CardFailure::NotFound
            },
            None => CardFailure::Unreachable,
        }
    }
}

/// The exit code of an HTTP failure.
pub fn http_error_exit_code(failure: &HttpFailure) -> (r: i32)
    ensures
        r == (match card_failure(failure.deep_view()) {
            CardFailure::Invalid => 1int,
            CardFailure::Unauthorized => 4,
            CardFailure::NotFound => 3,
            CardFailure::Unreachable => 3,
        }),
{
    if failure.decode {
        return 1;
    }
    match failure.status {
        Some(status) => if status == 401 || status == 403 {
            4
        } else {
            3
        },
        None => 3,
    }
}

/// The symbol of an HTTP failure, and what to do about it.
pub fn http_error_code_and_hint(failure: &HttpFailure) -> (r: (String, Option<String>))
    ensures
        r.0@ == http_symbol(failure.deep_view()),
        r.1.deep_view() == Some(http_hint(failure.deep_view())),
{
    if failure.decode {
        return (
            "A2ACLI_ERR_CARD_INVALID".to_string(),
            Some("the agent card did not match the expected schema".to_string()),
        );
    }
    match failure.status {
        Some(status) => if status == 401 || status == 403 {
            (
                "A2ACLI_ERR_AUTH_FAILED".to_string(),
                Some("credentials were rejected fetching the agent card".to_string()),
            )
        } else {
            (
                "A2ACLI_ERR_CARD_NOT_FOUND".to_string(),
                Some("check --agent-card/--base-url resolves to a valid agent".to_string()),
            )
        },
        None => (
            "A2ACLI_ERR_UNREACHABLE".to_string(),
            Some("check --agent-card/--endpoint and network connectivity".to_string()),
        ),
    }
}

/// The symbol of an HTTP failure.
pub open spec fn http_symbol(failure: HttpFailureView) -> Seq<char> {
    match card_failure(failure) {
        CardFailure::Invalid => "A2ACLI_ERR_CARD_INVALID"@,
        CardFailure::Unauthorized => "A2ACLI_ERR_AUTH_FAILED"@,
        CardFailure::NotFound => "A2ACLI_ERR_CARD_NOT_FOUND"@,
        CardFailure::Unreachable => "A2ACLI_ERR_UNREACHABLE"@,
    }
}

/// What to do about an HTTP failure.
pub open spec fn http_hint(failure: HttpFailureView) -> Seq<char> {
    match card_failure(failure) {
        CardFailure::Invalid => "the agent card did not match the expected schema"@,
        CardFailure::Unauthorized => "credentials were rejected fetching the agent card"@,
        CardFailure::NotFound => "check --agent-card/--base-url resolves to a valid agent"@,
        CardFailure::Unreachable => "check --agent-card/--endpoint and network connectivity"@,
    }
}

/// The exit code of a failure. Success alone is 0.
pub open spec fn exit_status(error: CliErrorView) -> int {
    match error {
        CliErrorView::A2A(_) => 1,
        CliErrorView::Http(failure) => match card_failure(failure) {
            CardFailure::Invalid => 1,
            CardFailure::Unauthorized => 4,
            CardFailure::NotFound => 3,
            CardFailure::Unreachable => 3,
        },
        CliErrorView::Json(_) => 1,
        CliErrorView::InvalidInput(_) => 2,
        CliErrorView::ReadFile { path, reason } => 2,
        CliErrorView::Timeout { task_id, timeout } => 5,
        CliErrorView::CardFile { path, reason } => 3,
        CliErrorView::CardInvalid(_) => 1,
        CliErrorView::CardSchemaInvalid { violations } => 1,
        CliErrorView::Usage(_) => 2,
    }
}

/// The symbol of a failure: the protocol's own name for an error of the
/// agent, and one of the command line's for anything else.
pub open spec fn symbol(error: CliErrorView) -> Seq<char> {
    match error {
        CliErrorView::A2A(error) => error_code::reason(error.code),
        CliErrorView::Http(failure) => http_symbol(failure),
        CliErrorView::Json(_) => "A2ACLI_ERR_INTERNAL"@,
        CliErrorView::InvalidInput(_) => "A2ACLI_ERR_USAGE"@,
        CliErrorView::ReadFile { path, reason } => "A2ACLI_ERR_USAGE"@,
        CliErrorView::Timeout { task_id, timeout } => "A2ACLI_ERR_TIMEOUT"@,
        CliErrorView::CardFile { path, reason } => "A2ACLI_ERR_CARD_NOT_FOUND"@,
        CliErrorView::CardInvalid(_) => "A2ACLI_ERR_CARD_INVALID"@,
        CliErrorView::CardSchemaInvalid { violations } => "A2ACLI_ERR_CARD_INVALID"@,
        CliErrorView::Usage(_) => "A2ACLI_ERR_USAGE"@,
    }
}

/// What to do about a failure.
pub open spec fn hint(error: CliErrorView) -> Option<Seq<char>> {
    match error {
        CliErrorView::A2A(_) => None,
        CliErrorView::Http(failure) => Some(http_hint(failure)),
        CliErrorView::Json(_) => None,
        CliErrorView::InvalidInput(_) => None,
        CliErrorView::ReadFile { path, reason } => Some(
            "check that the --file-part/--data-part path exists and is readable"@,
        ),
        CliErrorView::Timeout { task_id, timeout } => Some(
            "increase --timeout/--poll-interval, or check the task later with `task get <id> --wait`"@,
        ),
        CliErrorView::CardFile { path, reason } => Some(
            "check that the --agent-card path exists and is readable"@,
        ),
        CliErrorView::CardInvalid(_) => Some("the agent card did not match the expected schema"@),
        CliErrorView::CardSchemaInvalid { violations } => Some(
            "against the A2A JSON schema, version "@ + SCHEMA_A2A_VERSION@ + "; see `details`"@,
        ),
        CliErrorView::Usage(_) => Some("run `a2acli --help`, or `a2acli <command> --help`"@),
    }
}

/// The failure in words.
pub open spec fn message(error: CliErrorView) -> Seq<char> {
    match error {
        CliErrorView::A2A(error) => error.message,
        CliErrorView::Http(failure) => "http request failed: "@ + failure.reason,
        CliErrorView::Json(reason) => "failed to serialize output: "@ + reason,
        CliErrorView::InvalidInput(reason) => "invalid input: "@ + reason,
        CliErrorView::ReadFile { path, reason } => "failed to read "@ + path + ": "@ + reason,
        CliErrorView::Timeout { task_id, timeout } => "timed out after "@ + timeout.text()
            + " waiting for task "@ + task_id + " to settle"@,
        CliErrorView::CardFile { path, reason } => "failed to read agent card file "@ + path
            + ": "@ + reason,
        CliErrorView::CardInvalid(reason) => "agent card file is not a valid agent card: "@
            + reason,
        CliErrorView::CardSchemaInvalid { violations } => "agent card failed schema validation ("@
            + text::decimal(violations.len()) + " violation(s))"@,
        CliErrorView::Usage(reason) => reason,
    }
}

/// The code of the agent's error, if it is one.
pub open spec fn protocol_code(error: CliErrorView) -> Option<i64> {
    match error {
        CliErrorView::A2A(error) => Some(error.code as i64),
        _ => None,
    }
}

/// The violations that a failure reports one by one.
pub open spec fn violation_details(error: CliErrorView) -> Option<Seq<ViolationView>> {
    match error {
        CliErrorView::CardSchemaInvalid { violations } => Some(violations),
        _ => None,
    }
}

/// A failure as it is reported.
#[derive(Debug, PartialEq, Eq)]
pub struct ErrorDetail {
    pub code: String,
    pub message: String,
    pub hint: Option<String>,
    pub a2a_code: Option<i64>,
    pub details: Option<Vec<Violation>>,
}

/// What an [`ErrorDetail`] stands for.
#[verifier::ext_equal]
pub struct ErrorDetailView {
    pub code: Seq<char>,
    pub message: Seq<char>,
    pub hint: Option<Seq<char>>,
    pub a2a_code: Option<i64>,
    pub details: Option<Seq<ViolationView>>,
}

impl DeepView for ErrorDetail {
    type V = ErrorDetailView;

    open spec fn deep_view(&self) -> ErrorDetailView {
        ErrorDetailView {
            code: self.code@,
            message: self.message@,
            hint: self.hint.deep_view(),
            a2a_code: self.a2a_code,
            details: self.details.deep_view(),
        }
    }
}

/// How `error` is reported.
pub open spec fn error_detail(error: CliErrorView) -> ErrorDetailView {
    ErrorDetailView {
        code: symbol(error),
        message: message(error),
        hint: hint(error),
        a2a_code: protocol_code(error),
        details: violation_details(error),
    }
}

fn prefixed(prefix: &str, rest: &str) -> (r: String)
    ensures
        r@ == prefix@ + rest@,
{
    let mut out = prefix.to_string();
    out.append(rest);
    out
}

impl CliError {
    /// Whether every length of time in the failure is well formed.
    pub open spec fn well_formed(self) -> bool {
        self matches CliError::Timeout { task_id, timeout } ==> timeout.well_formed()
    }

    /// The exit code of this failure.
    pub fn exit_code(&self) -> (r: i32)
        ensures
            r == exit_status(self.deep_view()),
            r != 0,
    {
        match self {
            CliError::A2A(_) => 1,
            CliError::Http(failure) => http_error_exit_code(failure),
            CliError::Json(_) => 1,
            CliError::InvalidInput(_) => 2,
            CliError::ReadFile { path, reason } => 2,
            CliError::Timeout { task_id, timeout } => 5,
            CliError::CardFile { path, reason } => 3,
            CliError::CardInvalid(_) => 1,
            CliError::CardSchemaInvalid { violations } => 1,
            CliError::Usage(_) => 2,
        }
    }

    /// The failure in words.
    pub fn to_text(&self) -> (r: String)
        requires
            self.well_formed(),
        ensures
            r@ == message(self.deep_view()),
    {
        match self {
            CliError::A2A(error) => error.message.clone(),
            CliError::Http(failure) => prefixed("http request failed: ", failure.reason.as_str()),
            CliError::Json(reason) => prefixed("failed to serialize output: ", reason.as_str()),
            CliError::InvalidInput(reason) => prefixed("invalid input: ", reason.as_str()),
            CliError::ReadFile { path, reason } => {
                let mut out = prefixed("failed to read ", path.as_str());
                out.append(": ");
                out.append(reason.as_str());
                out
            },
            CliError::Timeout { task_id, timeout } => {
                let span = timeout.to_text();
                let mut out = prefixed("timed out after ", span.as_str());
                out.append(" waiting for task ");
                out.append(task_id.as_str());
                out.append(" to settle");
                out
            },
            CliError::CardFile { path, reason } => {
                let mut out = prefixed("failed to read agent card file ", path.as_str());
                out.append(": ");
                out.append(reason.as_str());
                out
            },
            CliError::CardInvalid(reason) => prefixed(
                "agent card file is not a valid agent card: ",
                reason.as_str(),
            ),
            CliError::CardSchemaInvalid { violations } => {
                let count = text::to_decimal(violations.len() as u64);
                assert(violations@.len() == violations.deep_view().len());
                let mut out = prefixed("agent card failed schema validation (", count.as_str());
                out.append(" violation(s))");
                out
            },
            CliError::Usage(reason) => reason.clone(),
        }
    }

    fn code_and_hint(&self) -> (r: (String, Option<String>))
        ensures
            r.0@ == symbol(self.deep_view()),
            r.1.deep_view() == hint(self.deep_view()),
    {
        match self {
            CliError::A2A(error) => (error_code::error_reason(error.code).to_string(), None),
            CliError::Http(failure) => http_error_code_and_hint(failure),
            CliError::Json(_) => ("A2ACLI_ERR_INTERNAL".to_string(), None),
            CliError::InvalidInput(_) => ("A2ACLI_ERR_USAGE".to_string(), None),
            CliError::ReadFile { path, reason } => (
                "A2ACLI_ERR_USAGE".to_string(),
                Some(
                    "check that the --file-part/--data-part path exists and is readable".to_string(),
                ),
            ),
            CliError::CardFile { path, reason } => (
                "A2ACLI_ERR_CARD_NOT_FOUND".to_string(),
                Some("check that the --agent-card path exists and is readable".to_string()),
            ),
            CliError::Usage(_) => (
                "A2ACLI_ERR_USAGE".to_string(),
                Some("run `a2acli --help`, or `a2acli <command> --help`".to_string()),
            ),
            CliError::CardInvalid(_) => (
                "A2ACLI_ERR_CARD_INVALID".to_string(),
                Some("the agent card did not match the expected schema".to_string()),
            ),
            CliError::CardSchemaInvalid { violations } => {
                let mut advice = prefixed(
                    "against the A2A JSON schema, version ",
                    SCHEMA_A2A_VERSION,
                );
                advice.append("; see `details`");
                ("A2ACLI_ERR_CARD_INVALID".to_string(), Some(advice))
            },
            CliError::Timeout { task_id, timeout } => (
                "A2ACLI_ERR_TIMEOUT".to_string(),
                Some(
                    "increase --timeout/--poll-interval, or check the task later with `task get <id> --wait`".to_string(),
                ),
            ),
        }
    }

    /// The error envelope of this failure.
    pub fn envelope(&self) -> (r: ErrorDetail)
        requires
            self.well_formed(),
        ensures
            r.deep_view() == error_detail(self.deep_view()),
    {
        let (code, hint) = self.code_and_hint();
        let a2a_code: Option<i64> = match self {
            CliError::A2A(error) => Some(error.code as i64),
            _ => None,
        };
        let details = match self {
            CliError::CardSchemaInvalid { violations } => Some(violations.replica()),
            _ => None,
        };
        ErrorDetail { code, message: self.to_text(), hint, a2a_code, details }
    }

    /// The error envelope of this failure, as one line of JSON.
    pub fn report(&self) -> (r: String)
        requires
            self.well_formed(),
        ensures
            r@ == envelope_text(error_detail(self.deep_view())),
    {
        self.envelope().to_json()
    }
}

/// A violation in JSON.
pub open spec fn violation_text(violation: ViolationView) -> Seq<char> {
    "{\"path\":"@ + json::quoted(violation.path) + ",\"message\":"@ + json::quoted(
        violation.message,
    ) + "}"@
}

/// Violations in JSON.
pub open spec fn violations_text(violations: Seq<ViolationView>) -> Seq<char> {
    text::joined(violations.map_values(|v: ViolationView| violation_text(v)), ","@)
}

/// The error envelope in JSON: what is absent is left out.
pub open spec fn envelope_text(detail: ErrorDetailView) -> Seq<char> {
    "{\"error\":{\"code\":"@ + json::quoted(detail.code) + ",\"message\":"@ + json::quoted(
        detail.message,
    ) + (match detail.hint {
        Some(hint) => ",\"hint\":"@ + json::quoted(hint),
        None => Seq::empty(),
    }) + (match detail.a2a_code {
        Some(code) => ",\"a2aCode\":"@ + text::signed_decimal(code as int),
        None => Seq::empty(),
    }) + (match detail.details {
        Some(violations) => ",\"details\":["@ + violations_text(violations) + "]"@,
        None => Seq::empty(),
    }) + "}}"@
}

fn write_violations(violations: &Vec<Violation>) -> (r: String)
    ensures
        r@ == violations_text(violations.deep_view()),
{
    let ghost goal = violations.deep_view().map_values(|v: ViolationView| violation_text(v));
    let mut items: Vec<String> = Vec::new();
    let mut i: usize = 0;
    while i < violations.len()
        invariant
            i <= violations@.len(),
            goal == violations.deep_view().map_values(|v: ViolationView| violation_text(v)),
            items.deep_view() == goal.take(i as int),
        decreases violations@.len() - i,
    {
        let path = json::quote(violations[i].path.as_str());
        let message = json::quote(violations[i].message.as_str());
        let mut item = prefixed("{\"path\":", path.as_str());
        item.append(",\"message\":");
        item.append(message.as_str());
        item.append("}");
        let ghost view = item@;
        let ghost before = items.deep_view();
        items.push(item);
        proof {
            assert(violations.deep_view()[i as int] == violations@[i as int].deep_view());
            assert(view == goal[i as int]);
            assert(items.deep_view() =~= before.push(view));
            assert(goal.take(i + 1) =~= goal.take(i as int).push(goal[i as int]));
        }
        i += 1;
    }
    assert(goal.take(i as int) =~= goal);
    text::join(&items, ",")
}

impl ErrorDetail {
    /// The envelope as one line of JSON.
    pub fn to_json(&self) -> (r: String)
        ensures
            r@ == envelope_text(self.deep_view()),
    {
        let code = json::quote(self.code.as_str());
        let message = json::quote(self.message.as_str());
        let mut out = prefixed("{\"error\":{\"code\":", code.as_str());
        out.append(",\"message\":");
        out.append(message.as_str());
        let ghost first = out@;
        if let Some(hint) = &self.hint {
            let quoted = json::quote(hint.as_str());
            let piece = prefixed(",\"hint\":", quoted.as_str());
            out.append(piece.as_str());
        } else {
            assert(first + Seq::<char>::empty() =~= first);
        }
        let ghost second = out@;
        if let Some(number) = self.a2a_code {
            let spelled = text::to_signed_decimal(number);
            let piece = prefixed(",\"a2aCode\":", spelled.as_str());
            out.append(piece.as_str());
        } else {
            assert(second + Seq::<char>::empty() =~= second);
        }
        let ghost third = out@;
        if let Some(violations) = &self.details {
            let list = write_violations(violations);
            let mut piece = prefixed(",\"details\":[", list.as_str());
            piece.append("]");
            out.append(piece.as_str());
        } else {
            assert(third + Seq::<char>::empty() =~= third);
        }
        out.append("}}");
        out
    }
}

/// The lines of `lines` up to the first blank one, trimmed.
pub open spec fn first_block(lines: Seq<Seq<char>>) -> Seq<Seq<char>>
    decreases lines.len(),
{
    if lines.len() == 0 || text::trimmed(lines[0]).len() == 0 {
        Seq::empty()
    } else {
        seq![text::trimmed(lines[0])] + first_block(lines.drop_first())
    }
}

/// What went wrong with a command line, as one line: the first block of what
/// was printed about it, without the usage that follows.
pub open spec fn flattened(rendered: Seq<char>) -> Seq<char> {
    let joined = text::joined(first_block(text::lines_of(rendered)), " "@);
    let message = if joined.len() == 0 {
        text::trimmed(rendered)
    } else {
        joined
    };
    match text::without_prefix(message, "error: "@) {
        Some(rest) => rest,
        None => message,
    }
}

fn take_first_block(lines: &Vec<String>) -> (r: Vec<String>)
    ensures
        r.deep_view() == first_block(lines.deep_view()),
{
    let ghost all = lines.deep_view();
    let mut out: Vec<String> = Vec::new();
    let mut i: usize = 0;
    assert(all.skip(0) =~= all);
    assert(out.deep_view() + first_block(all) =~= first_block(all));
    while i < lines.len()
        invariant
            i <= lines@.len(),
            all == lines.deep_view(),
            first_block(all) == out.deep_view() + first_block(all.skip(i as int)),
        decreases lines@.len() - i,
    {
        let line = text::trim(lines[i].as_str());
        let ghost rest = all.skip(i as int);
        assert(rest[0] == lines@[i as int]@);
        if line.as_str().unicode_len() == 0 {
            assert(out.deep_view() + Seq::<Seq<char>>::empty() =~= out.deep_view());
            return out;
        }
        let ghost before = out.deep_view();
        let ghost view = line@;
        out.push(line);
        proof {
            assert(rest.drop_first() =~= all.skip(i + 1));
            assert(out.deep_view() =~= before + seq![view]);
            assert(before + (seq![view] + first_block(all.skip(i + 1))) =~= (before + seq![view])
                + first_block(all.skip(i + 1)));
        }
        i += 1;
    }
    assert(all.skip(i as int) =~= Seq::<Seq<char>>::empty());
    assert(out.deep_view() + Seq::<Seq<char>>::empty() =~= out.deep_view());
    out
}

/// Reduces what was printed about a command line to one line.
pub fn flatten_clap_message(rendered: &str) -> (r: String)
    ensures
        r@ == flattened(rendered@),
{
    let lines = text::lines(rendered);
    let block = take_first_block(&lines);
    let joined = text::join(&block, " ");
    let message = if joined.as_str().unicode_len() == 0 {
        text::trim(rendered)
    } else {
        joined
    };
    match text::strip_prefix(message.as_str(), "error: ") {
        Some(rest) => rest,
        None => message,
    }
}

/// What a command line that was not run comes to. A request for help or for
/// the version is no failure; anything else is a usage error.
pub fn clap_error_to_cli_error(asks_for_output: bool, rendered: &str) -> (r: Option<CliError>)
    ensures
        r.deep_view() == (if asks_for_output {
            None
        } else {
            Some(CliErrorView::Usage(flattened(rendered@)))
        }),
{
    if asks_for_output {
        None
    } else {
        Some(CliError::Usage(flatten_clap_message(rendered)))
    }
}

/// Scripts can tell failures apart: the exit code follows from the symbol,
/// except that the agent's own errors all exit with 1.
pub proof fn exit_codes_follow_symbols(a: CliErrorView, b: CliErrorView)
    requires
        a !is A2A,
        b !is A2A,
        symbol(a) == symbol(b),
    ensures
        exit_status(a) == exit_status(b),
{
    reveal_strlit("A2ACLI_ERR_INTERNAL");
    reveal_strlit("A2ACLI_ERR_USAGE");
    reveal_strlit("A2ACLI_ERR_TIMEOUT");
    reveal_strlit("A2ACLI_ERR_CARD_NOT_FOUND");
    reveal_strlit("A2ACLI_ERR_CARD_INVALID");
    reveal_strlit("A2ACLI_ERR_AUTH_FAILED");
    reveal_strlit("A2ACLI_ERR_UNREACHABLE");
    assert("A2ACLI_ERR_INTERNAL"@[11] == 'I');
    assert("A2ACLI_ERR_USAGE"@[11] == 'U');
    assert("A2ACLI_ERR_TIMEOUT"@[11] == 'T');
    assert("A2ACLI_ERR_CARD_NOT_FOUND"@[11] == 'C');
    assert("A2ACLI_ERR_CARD_INVALID"@[11] == 'C');
    assert("A2ACLI_ERR_AUTH_FAILED"@[11] == 'A');
    assert("A2ACLI_ERR_UNREACHABLE"@[11] == 'U');
    assert("A2ACLI_ERR_USAGE"@.len() == 16);
    assert("A2ACLI_ERR_UNREACHABLE"@.len() == 22);
    assert("A2ACLI_ERR_CARD_NOT_FOUND"@.len() == 25);
    assert("A2ACLI_ERR_CARD_INVALID"@.len() == 23);
}

/// Whether a text holds no line feed.
pub open spec fn is_one_line(s: Seq<char>) -> bool {
    forall|i: int| 0 <= i < s.len() ==> s[i] != '\n'
}

proof fn lemma_trimmed_line(s: Seq<char>)
    requires
        is_one_line(s),
    ensures
        is_one_line(text::trimmed_start(s)),
        is_one_line(text::trimmed_end(s)),
    decreases s.len(),
{
    if s.len() > 0 {
        assert(is_one_line(s.drop_first()));
        assert(is_one_line(s.drop_last()));
        lemma_trimmed_line(s.drop_first());
        lemma_trimmed_line(s.drop_last());
    }
}

proof fn lemma_lines(s: Seq<char>)
    ensures
        forall|i: int| 0 <= i < text::lines_of(s).len() ==> is_one_line(#[trigger] text::lines_of(s)[i]),
    decreases s.len(),
{
    if s.len() > 0 {
        let end = text::before_first(s, '\n');
        text::lemma_before_first_bounds(s, '\n');
        assert forall|i: int| 0 <= i < end implies s[i] != '\n' by {
            if s[i] == '\n' {
                text::lemma_before_first_finds(s, '\n', i);
            }
        }
        if end < s.len() {
            let line = text::without_carriage_return(s.take(end));
            let rest = text::lines_of(s.skip(end + 1));
            lemma_lines(s.skip(end + 1));
            assert(is_one_line(line));
            assert forall|i: int| 0 <= i < text::lines_of(s).len() implies is_one_line(
                #[trigger] text::lines_of(s)[i],
            ) by {
                if i > 0 {
                    assert(text::lines_of(s)[i] == rest[i - 1]);
                }
            }
        }
    }
}

proof fn lemma_first_block(lines: Seq<Seq<char>>)
    requires
        forall|i: int| 0 <= i < lines.len() ==> is_one_line(#[trigger] lines[i]),
    ensures
        forall|i: int|
            0 <= i < first_block(lines).len() ==> is_one_line(#[trigger] first_block(lines)[i]),
    decreases lines.len(),
{
    if lines.len() > 0 && text::trimmed(lines[0]).len() > 0 {
        let rest = lines.drop_first();
        assert forall|i: int| 0 <= i < rest.len() implies is_one_line(#[trigger] rest[i]) by {
            assert(rest[i] == lines[i + 1]);
        }
        lemma_first_block(rest);
        lemma_trimmed_line(lines[0]);
        lemma_trimmed_line(text::trimmed_start(lines[0]));
        assert forall|i: int| 0 <= i < first_block(lines).len() implies is_one_line(
            #[trigger] first_block(lines)[i],
        ) by {
            if i > 0 {
                assert(first_block(lines)[i] == first_block(rest)[i - 1]);
            }
        }
    }
}

proof fn lemma_joined_lines(parts: Seq<Seq<char>>)
    requires
        parts.len() > 0,
        parts[0].len() > 0,
        forall|i: int| 0 <= i < parts.len() ==> is_one_line(#[trigger] parts[i]),
    ensures
        text::joined(parts, " "@).len() > 0,
        is_one_line(text::joined(parts, " "@)),
    decreases parts.len(),
{
    if parts.len() > 1 {
        let init = parts.drop_last();
        assert forall|i: int| 0 <= i < init.len() implies is_one_line(#[trigger] init[i]) by {
            assert(init[i] == parts[i]);
        }
        lemma_joined_lines(init);
        reveal_strlit(" ");
        let before = text::joined(init, " "@);
        let whole = text::joined(parts, " "@);
        assert(is_one_line(parts.last()));
        assert forall|i: int| 0 <= i < whole.len() implies whole[i] != '\n' by {
            if i > before.len() {
                assert(whole[i] == parts.last()[i - before.len() - 1]);
            }
        }
    }
}

/// What went wrong with a command line fits on one line, unless what was
/// printed about it starts with a blank one.
pub proof fn flattened_messages_are_one_line(rendered: Seq<char>)
    requires
        text::lines_of(rendered).len() > 0,
        text::trimmed(text::lines_of(rendered)[0]).len() > 0,
    ensures
        is_one_line(flattened(rendered)),
{
    let lines = text::lines_of(rendered);
    lemma_lines(rendered);
    lemma_first_block(lines);
    let block = first_block(lines);
    assert(block[0] == text::trimmed(lines[0]));
    lemma_joined_lines(block);
}

/// Exit codes: the agent's own errors, output that cannot be written and cards
/// that are none exit with 1, the caller's mistakes with 2, cards that cannot
/// be had with 3, rejected credentials with 4 and a wait that was too long
/// with 5.
pub proof fn exit_codes_are_these(error: CliError, r: i32)
    requires
        call_ensures(CliError::exit_code, (&error,), r),
    ensures
        error is A2A || error is Json || error is CardInvalid || error is CardSchemaInvalid ==> r
            == 1,
        error is InvalidInput || error is ReadFile || error is Usage ==> r == 2,
        error is CardFile ==> r == 3,
        error is Timeout ==> r == 5,
        error matches CliError::Http(failure) ==> {
            &&& failure.decode ==> r == 1
            &&& !failure.decode && failure.status is None ==> r == 3
            &&& !failure.decode ==> (failure.status matches Some(status) ==> {
                &&& status == 401 || status == 403 ==> r == 4
                &&& status != 401 && status != 403 ==> r == 3
            })
        },
{
}

/// The envelope of a failure carries the code of the agent's error exactly
/// where the agent answered with one, the violations exactly where the schema
/// was violated, and in both cases these very ones; the symbol of the agent's
/// error is the protocol's own.
pub proof fn envelopes_carry_the_cause(error: CliError, r: ErrorDetail)
    requires
        call_ensures(CliError::envelope, (&error,), r),
    ensures
        r.a2a_code is Some <==> error is A2A,
        error matches CliError::A2A(cause) ==> {
            &&& r.a2a_code == Some(cause.code as i64)
            &&& r.code@ == error_code::reason(cause.code)
            &&& r.message@ == cause.message@
            &&& r.hint is None
        },
        r.details is Some <==> error is CardSchemaInvalid,
        error matches CliError::CardSchemaInvalid { violations } ==> (r.details matches Some(told)
            && told.deep_view() == violations.deep_view()),
        error is Json || error is InvalidInput ==> r.hint is None,
        error is Http || error is ReadFile || error is Timeout || error is CardFile
            || error is CardInvalid || error is CardSchemaInvalid || error is Usage
            ==> r.hint is Some,
        error matches CliError::InvalidInput(reason) ==> r.message@ == "invalid input: "@ + reason@,
        error matches CliError::ReadFile { path, reason } ==> r.message@ == "failed to read "@
            + path@ + ": "@ + reason@,
        error matches CliError::CardFile { path, reason } ==> r.message@
            == "failed to read agent card file "@ + path@ + ": "@ + reason@,
        error matches CliError::Timeout { task_id, timeout } ==> r.message@ == "timed out after "@
            + timeout.text() + " waiting for task "@ + task_id@ + " to settle"@,
        error matches CliError::Usage(reason) ==> r.message@ == reason@,
{
}

/// An envelope has its code and its message, and of the hint, the agent's code
/// and the details exactly those that there are, each whatever the others are.
pub proof fn envelopes_leave_out_what_is_absent(detail: ErrorDetailView)
    ensures
        ({
            let head = "{\"error\":{\"code\":"@ + json::quoted(detail.code) + ",\"message\":"@
                + json::quoted(detail.message);
            let hint = if detail.hint is Some {
                ",\"hint\":"@ + json::quoted(detail.hint->0)
            } else {
                Seq::empty()
            };
            let code = if detail.a2a_code is Some {
                ",\"a2aCode\":"@ + text::signed_decimal(detail.a2a_code->0 as int)
            } else {
                Seq::empty()
            };
            let details = if detail.details is Some {
                ",\"details\":["@ + violations_text(detail.details->0) + "]"@
            } else {
                Seq::empty()
            };
            envelope_text(detail) == head + hint + code + details + "}}"@
        }),
{
}

/// Violations are listed in order, each with its path and its message.
pub proof fn violations_are_listed(violations: Seq<ViolationView>, violation: ViolationView)
    ensures
        violations_text(seq![violation]) == "{\"path\":"@ + json::quoted(violation.path)
            + ",\"message\":"@ + json::quoted(violation.message) + "}"@,
        violations.len() > 0 ==> violations_text(violations.push(violation)) == violations_text(
            violations,
        ) + ","@ + violations_text(seq![violation]),
        violations_text(Seq::empty()).len() == 0,
{
    let show = |v: ViolationView| violation_text(v);
    assert(seq![violation].map_values(show) =~= seq![violation_text(violation)]);
    if violations.len() > 0 {
        assert(violations.push(violation).map_values(show) =~= violations.map_values(show).push(
            violation_text(violation),
        ));
        text::joins_put_the_separator_between(
            violations.map_values(show),
            violation_text(violation),
            ","@,
        );
    }
    assert(Seq::<ViolationView>::empty().map_values(show) =~= Seq::<Seq<char>>::empty());
}

/// A command line that cannot be understood is a mistake of its caller, unless
/// it asked for what was printed; what is told of it ends at the first blank
/// line, and is trimmed line by line.
pub proof fn usage_is_told_up_to_the_first_blank_line(
    lines: Seq<Seq<char>>,
    blank: Seq<char>,
    rest: Seq<Seq<char>>,
)
    requires
        forall|i: int| 0 <= i < lines.len() ==> text::trimmed(#[trigger] lines[i]).len() > 0,
        text::trimmed(blank).len() == 0,
    ensures
        first_block(lines + seq![blank] + rest) == first_block(lines),
        first_block(lines).len() == lines.len(),
        forall|i: int|
            0 <= i < lines.len() ==> #[trigger] first_block(lines)[i] == text::trimmed(lines[i]),
    decreases lines.len(),
{
    let all = lines + seq![blank] + rest;
    if lines.len() == 0 {
        assert(all[0] == blank);
    } else {
        let tail = lines.drop_first();
        assert(text::trimmed(lines[0]).len() > 0);
        assert forall|i: int| 0 <= i < tail.len() implies text::trimmed(
            #[trigger] tail[i],
        ).len() > 0 by {
            assert(tail[i] == lines[i + 1]);
        }
        usage_is_told_up_to_the_first_blank_line(tail, blank, rest);
        assert(all.drop_first() =~= tail + seq![blank] + rest);
        assert(all[0] == lines[0]);
        assert forall|i: int| 0 <= i < lines.len() implies #[trigger] first_block(lines)[i]
            == text::trimmed(lines[i]) by {
            if i > 0 {
                assert(first_block(lines)[i] == first_block(tail)[i - 1]);
            }
        }
    }
}

/// What the parser printed is an error exactly where nobody asked for it.
pub proof fn help_is_no_error(asks_for_output: bool, rendered: &str, r: Option<CliError>)
    requires
        call_ensures(clap_error_to_cli_error, (asks_for_output, rendered), r),
    ensures
        r is Some <==> !asks_for_output,
        r matches Some(error) ==> (error matches CliError::Usage(reason) && reason@ == flattened(
            rendered@,
        )),
{
}

/// The symbol of a failure, by which scripts tell failures apart: the agent's
/// own name for its errors, and one of the command line's for everything else.
pub proof fn symbols_are_these(error: CliErrorView)
    ensures
        match error {
            CliErrorView::A2A(cause) => symbol(error) == error_code::reason(cause.code),
            CliErrorView::Http(failure) => {
                let rejected = failure.status == Some(401u16) || failure.status == Some(403u16);
                &&& failure.decode ==> symbol(error) == "A2ACLI_ERR_CARD_INVALID"@
                &&& !failure.decode && rejected ==> symbol(error) == "A2ACLI_ERR_AUTH_FAILED"@
                &&& !failure.decode && !rejected && failure.status is Some ==> symbol(error)
                    == "A2ACLI_ERR_CARD_NOT_FOUND"@
                &&& !failure.decode && failure.status is None ==> symbol(error)
                    == "A2ACLI_ERR_UNREACHABLE"@
            },
            CliErrorView::Json(_) => symbol(error) == "A2ACLI_ERR_INTERNAL"@,
            CliErrorView::InvalidInput(_) => symbol(error) == "A2ACLI_ERR_USAGE"@,
            CliErrorView::ReadFile { .. } => symbol(error) == "A2ACLI_ERR_USAGE"@,
            CliErrorView::Timeout { .. } => symbol(error) == "A2ACLI_ERR_TIMEOUT"@,
            CliErrorView::CardFile { .. } => symbol(error) == "A2ACLI_ERR_CARD_NOT_FOUND"@,
            CliErrorView::CardInvalid(_) => symbol(error) == "A2ACLI_ERR_CARD_INVALID"@,
            CliErrorView::CardSchemaInvalid { .. } => symbol(error) == "A2ACLI_ERR_CARD_INVALID"@,
            CliErrorView::Usage(_) => symbol(error) == "A2ACLI_ERR_USAGE"@,
        },
        match error {
            CliErrorView::Http(failure) => message(error) == "http request failed: "@
                + failure.reason,
            CliErrorView::Json(reason) => message(error) == "failed to serialize output: "@
                + reason,
            CliErrorView::CardInvalid(reason) => message(error)
                == "agent card file is not a valid agent card: "@ + reason,
            CliErrorView::CardSchemaInvalid { violations } => message(error)
                == "agent card failed schema validation ("@ + text::decimal(violations.len())
                + " violation(s))"@,
            _ => true,
        },
{
}

/// What is told of a command line has lost a leading `error: ` and nothing
/// else; without a first block it is all that was printed, trimmed.
pub proof fn told_usage_is_what_was_printed(rendered: Seq<char>)
    ensures
        ({
            let joined = text::joined(first_block(text::lines_of(rendered)), " "@);
            let told = flattened(rendered);
            let all = if joined.len() > 0 {
                joined
            } else {
                text::trimmed(rendered)
            };
            &&& "error: "@.is_prefix_of(all) ==> all == "error: "@ + told
            &&& !"error: "@.is_prefix_of(all) ==> told == all
        }),
{
    let joined = text::joined(first_block(text::lines_of(rendered)), " "@);
    let told = flattened(rendered);
    let all = if joined.len() > 0 {
        joined
    } else {
        text::trimmed(rendered)
    };
    if "error: "@.is_prefix_of(all) {
        let n = "error: "@.len() as int;
        assert(all.subrange(0, n) =~= "error: "@);
        assert(all =~= all.subrange(0, n) + all.skip(n));
    }
}

/// What to do about a failed request for a card is told by what went wrong:
/// the body, the credentials, the place, or the connection.
pub proof fn hints_fit_the_failure(failure: HttpFailure, r: (String, Option<String>))
    requires
        call_ensures(http_error_code_and_hint, (&failure,), r),
    ensures
        ({
            let rejected = failure.status == Some(401u16) || failure.status == Some(403u16);
            &&& r.1 is Some
            &&& failure.decode ==> r.1->0@ == "the agent card did not match the expected schema"@
            &&& !failure.decode && rejected ==> r.1->0@
                == "credentials were rejected fetching the agent card"@
            &&& !failure.decode && !rejected && failure.status is Some ==> r.1->0@
                == "check --agent-card/--base-url resolves to a valid agent"@
            &&& !failure.decode && failure.status is None ==> r.1->0@
                == "check --agent-card/--endpoint and network connectivity"@
            &&& r.0@ == symbol(CliErrorView::Http(failure.deep_view()))
        }),
{
}

} // verus!
