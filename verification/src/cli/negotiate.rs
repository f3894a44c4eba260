//! What is agreed with the agent: the protocol version, and which operations
//! its card declares.

use vstd::prelude::*;

use crate::cli::error::{CliError, CliErrorView};
use crate::error_code::{PUSH_NOTIFICATION_NOT_SUPPORTED, UNSUPPORTED_OPERATION};
use crate::handler::ServiceParams;
use crate::protocol::{
    A2AError, A2AErrorView, AgentCapabilities, AgentCapabilitiesView, SVC_PARAM_VERSION, VERSION,
};
use crate::text;

verus! {

/// A capability that an operation depends on.
#[derive(Debug, Clone, Copy, PartialEq, Eq, Structural)]
pub enum Capability {
    Streaming,
    PushNotifications,
    ExtendedCard,
}

/// Whether a card that declares `value` declares the capability: what is
/// absent is not declared.
pub open spec fn is_declared(value: Option<bool>) -> bool {
    value == Some(true)
}

impl Capability {
    /// Whether `capabilities` declare the capability.
    pub open spec fn spec_declared_in(self, capabilities: AgentCapabilitiesView) -> bool {
        match self {
            Capability::Streaming => is_declared(capabilities.streaming),
            Capability::PushNotifications => is_declared(capabilities.push_notifications),
            Capability::ExtendedCard => is_declared(capabilities.extended_agent_card),
        }
    }

    /// Whether `capabilities` declare the capability.
    pub fn declared_in(self, capabilities: &AgentCapabilities) -> (r: bool)
        ensures
            r == self.spec_declared_in(capabilities.deep_view()),
    {
        let value = match self {
            Capability::Streaming => capabilities.streaming,
            Capability::PushNotifications => capabilities.push_notifications,
            Capability::ExtendedCard => capabilities.extended_agent_card,
        };
        match value {
            Some(declared) => declared,
            None => false,
        }
    }

    /// What the card calls the capability.
    pub open spec fn spec_field(self) -> Seq<char> {
        match self {
            Capability::Streaming => "streaming"@,
            Capability::PushNotifications => "pushNotifications"@,
            Capability::ExtendedCard => "extendedAgentCard"@,
        }
    }

    /// What the card calls the capability.
    pub fn field(self) -> (r: &'static str)
        ensures
            r@ == self.spec_field(),
    {
        match self {
            Capability::Streaming => "streaming",
            Capability::PushNotifications => "pushNotifications",
            Capability::ExtendedCard => "extendedAgentCard",
        }
    }

    /// The error that the agent itself would have answered with.
    pub open spec fn undeclared(self) -> A2AErrorView {
        A2AErrorView {
            code: match self {
                Capability::PushNotifications => PUSH_NOTIFICATION_NOT_SUPPORTED,
                Capability::Streaming => UNSUPPORTED_OPERATION,
                Capability::ExtendedCard => UNSUPPORTED_OPERATION,
            },
            message: "the agent card does not declare "@ + self.spec_field(),
        }
    }

    /// The error that the agent itself would have answered with, so that
    /// answering without it changes no code that a caller looks at.
    pub fn undeclared_error(self) -> (r: A2AError)
        ensures
            r.deep_view() == self.undeclared(),
    {
        let mut message = "the agent card does not declare ".to_string();
        message.append(self.field());
        match self {
            Capability::PushNotifications => A2AError::new(
                PUSH_NOTIFICATION_NOT_SUPPORTED,
                message,
            ),
            Capability::Streaming => A2AError::unsupported_operation(message.as_str()),
            Capability::ExtendedCard => A2AError::unsupported_operation(message.as_str()),
        }
    }
}

/// What is known of the agent's capabilities.
#[derive(Debug, PartialEq, Eq)]
pub enum DeclaredCapabilities {
    /// They were read from its card.
    Card(AgentCapabilities),
    /// No card was read, so nothing can be concluded.
    NoCard,
}

impl DeclaredCapabilities {
    /// Whether the capability may be relied on.
    pub open spec fn spec_declares(&self, capability: Capability) -> bool {
        match self {
            DeclaredCapabilities::Card(capabilities) => capability.spec_declared_in(
                capabilities.deep_view(),
            ),
            DeclaredCapabilities::NoCard => true,
        }
    }

    /// Whether the capability may be relied on: the card declares it, or none
    /// was read and the agent answers for itself.
    pub fn declares(&self, capability: Capability) -> (r: bool)
        ensures
            r == self.spec_declares(capability),
    {
        match self {
            DeclaredCapabilities::Card(capabilities) => capability.declared_in(capabilities),
            DeclaredCapabilities::NoCard => true,
        }
    }

    /// Refuses an operation that the card says will not work.
    pub fn require(&self, capability: Capability) -> (r: Result<(), CliError>)
        ensures
            r is Ok == self.spec_declares(capability),
            r matches Err(error) ==> error.deep_view() == CliErrorView::A2A(capability.undeclared()),
    {
        if self.declares(capability) {
            Ok(())
        } else {
            Err(CliError::A2A(capability.undeclared_error()))
        }
    }
}

/// The major and the minor number that `value` spells. What follows the minor
/// number is ignored, and without a minor number it is zero.
pub open spec fn protocol_version(value: Seq<char>) -> Option<(nat, nat)> {
    let parts = text::pieces(text::trimmed(value), '.');
    match text::parsed(parts[0], u32::MAX as nat) {
        None => None,
        Some(major) => if parts.len() < 2 {
            Some((major, 0))
        } else {
            match text::parsed(parts[1], u32::MAX as nat) {
                None => None,
                Some(minor) => Some((major, minor)),
            }
        },
    }
}

/// What a pair of machine numbers stands for.
pub open spec fn pair(value: Option<(u32, u32)>) -> Option<(nat, nat)> {
    match value {
        Some((major, minor)) => Some((major as nat, minor as nat)),
        None => None,
    }
}

/// Reads a protocol version.
pub fn parse_protocol_version(value: &str) -> (r: Option<(u32, u32)>)
    ensures
        pair(r) == protocol_version(value@),
{
    let trimmed = text::trim(value);
    let parts = text::split(trimmed.as_str(), '.');
    let ghost all = text::pieces(text::trimmed(value@), '.');
    assert(parts@.len() == all.len());
    assert(all[0] == parts@[0]@);
    let major: u32 = match text::parse_u32(parts[0].as_str()) {
        Some(major) => major,
        None => return None,
    };
    if parts.len() < 2 {
        return Some((major, 0));
    }
    assert(all[1] == parts@[1]@);
    match text::parse_u32(parts[1].as_str()) {
        Some(minor) => Some((major, minor)),
        None => None,
    }
}

/// The version that this program speaks.
pub open spec fn own_version() -> (nat, nat) {
    match protocol_version(VERSION@) {
        Some(version) => version,
        None => (1, 0),
    }
}

/// The version that this program speaks.
pub fn supported_protocol_version() -> (r: (u32, u32))
    ensures
        (r.0 as nat, r.1 as nat) == own_version(),
{
    match parse_protocol_version(VERSION) {
        Some(version) => version,
        None => (1, 0),
    }
}

/// How a version is spelled.
pub open spec fn version_label(version: (nat, nat)) -> Seq<char> {
    text::decimal(version.0) + "."@ + text::decimal(version.1)
}

fn spell_version(version: (u32, u32)) -> (r: String)
    ensures
        r@ == version_label((version.0 as nat, version.1 as nat)),
{
    let mut out = text::to_decimal(version.0 as u64);
    out.append(".");
    let minor = text::to_decimal(version.1 as u64);
    out.append(minor.as_str());
    out
}

/// The version to signal, and what to tell about it.
#[derive(Debug, PartialEq, Eq)]
pub struct NegotiatedVersion {
    pub version: String,
    /// Why the version is not simply this program's own.
    pub note: Option<String>,
}

/// What a [`NegotiatedVersion`] stands for.
#[verifier::ext_equal]
pub struct NegotiatedVersionView {
    pub version: Seq<char>,
    pub note: Option<Seq<char>>,
}

impl DeepView for NegotiatedVersion {
    type V = NegotiatedVersionView;

    open spec fn deep_view(&self) -> NegotiatedVersionView {
        NegotiatedVersionView { version: self.version@, note: self.note.deep_view() }
    }
}

/// Whether version `a` comes before version `b`.
pub open spec fn older(a: (nat, nat), b: (nat, nat)) -> bool {
    a.0 < b.0 || (a.0 == b.0 && a.1 < b.1)
}

/// The version to signal: the one that was asked for, else the highest that
/// both sides know within the first major version.
pub open spec fn negotiated(
    explicit: Option<Seq<char>>,
    declared: Seq<char>,
    supported: (nat, nat),
) -> NegotiatedVersionView {
    let own = version_label(supported);
    match explicit {
        Some(requested) => NegotiatedVersionView {
            version: requested,
            note: if protocol_version(requested) != Some(supported) {
                Some("signaling A2A-Version "@ + requested + " (a2acli supports "@ + own + ")"@)
            } else {
                None
            },
        },
        None => match protocol_version(declared) {
            None => NegotiatedVersionView {
                version: own,
                note: Some(
                    "agent card declares an unparseable protocol version ("@ + declared
                        + "); signaling "@ + own,
                ),
            },
            Some(theirs) => if theirs.0 != 1 {
                NegotiatedVersionView {
                    version: own,
                    note: Some(
                        "agent card declares protocol version "@ + declared
                            + ", which is outside 1.x; signaling "@ + own
                            + " rather than negotiating below 1.0"@,
                    ),
                }
            } else if older(theirs, supported) {
                NegotiatedVersionView {
                    version: version_label(theirs),
                    note: Some(
                        "negotiated A2A-Version down to "@ + version_label(theirs)
                            + " (agent card declares "@ + version_label(theirs)
                            + ", a2acli supports "@ + own + ")"@,
                    ),
                }
            } else {
                NegotiatedVersionView { version: own, note: None }
            },
        },
    }
}

/// Settles on the version to signal to an agent whose interface declares
/// `declared`.
pub fn negotiate_a2a_version(
    explicit: Option<&str>,
    declared: &str,
    supported: (u32, u32),
) -> (r: NegotiatedVersion)
    ensures
        r.deep_view() == negotiated(
            explicit.deep_view(),
            declared@,
            (supported.0 as nat, supported.1 as nat),
        ),
{
    let own = spell_version(supported);
    if let Some(requested) = explicit {
        let agrees = match parse_protocol_version(requested) {
            Some((major, minor)) => major == supported.0 && minor == supported.1,
            None => false,
        };
        let note = if agrees {
            None
        } else {
            let mut note = "signaling A2A-Version ".to_string();
            note.append(requested);
            note.append(" (a2acli supports ");
            note.append(own.as_str());
            note.append(")");
            Some(note)
        };
        return NegotiatedVersion { version: requested.to_string(), note };
    }
    let theirs = match parse_protocol_version(declared) {
        Some(theirs) => theirs,
        None => {
            let mut note = "agent card declares an unparseable protocol version (".to_string();
            note.append(declared);
            note.append("); signaling ");
            note.append(own.as_str());
            return NegotiatedVersion { version: own, note: Some(note) };
        },
    };
    if theirs.0 != 1 {
        let mut note = "agent card declares protocol version ".to_string();
        note.append(declared);
        note.append(", which is outside 1.x; signaling ");
        note.append(own.as_str());
        note.append(" rather than negotiating below 1.0");
        return NegotiatedVersion { version: own, note: Some(note) };
    }
    if theirs.0 < supported.0 || (theirs.0 == supported.0 && theirs.1 < supported.1) {
        let version = spell_version(theirs);
        let mut note = "negotiated A2A-Version down to ".to_string();
        note.append(version.as_str());
        note.append(" (agent card declares ");
        note.append(version.as_str());
        note.append(", a2acli supports ");
        note.append(own.as_str());
        note.append(")");
        return NegotiatedVersion { version, note: Some(note) };
    }
    NegotiatedVersion { version: own, note: None }
}

/// Why a version cannot be signaled, if it cannot.
pub open spec fn version_objection(requested: Seq<char>) -> Option<Seq<char>> {
    match protocol_version(requested) {
        Some(version) => if version.0 == 1 {
            None
        } else {
            Some(
                "--a2a-version must be 1.x, got "@ + requested
                    + ": A2A reads an empty or pre-1.0 version as 0.3, and a2acli never signals below 1.0"@,
            )
        },
        None => Some("--a2a-version must be a version like 1.0, got "@ + requested),
    }
}

/// Refuses a version that cannot be signaled.
pub fn validate_a2a_version(value: Option<&str>) -> (r: Result<(), CliError>)
    ensures
        match (value.deep_view(), r) {
            (None, r) => r is Ok,
            (Some(requested), Ok(_)) => version_objection(requested) is None,
            (Some(requested), Err(error)) => {
                &&& version_objection(requested) is Some
                &&& error.deep_view() == CliErrorView::InvalidInput(version_objection(requested)->0)
            },
        },
{
    let requested = match value {
        Some(requested) => requested,
        None => return Ok(()),
    };
    match parse_protocol_version(requested) {
        Some((major, _)) => if major == 1 {
            Ok(())
        } else {
            let mut message = "--a2a-version must be 1.x, got ".to_string();
            message.append(requested);
            message.append(
                ": A2A reads an empty or pre-1.0 version as 0.3, and a2acli never signals below 1.0",
            );
            Err(CliError::InvalidInput(message))
        },
        None => {
            let mut message = "--a2a-version must be a version like 1.0, got ".to_string();
            message.append(requested);
            Err(CliError::InvalidInput(message))
        },
    }
}

/// Signals exactly one version: it takes the place of any that `params` held.
pub fn signal_version(version: &str, params: &mut ServiceParams)
    ensures
        final(params)@ == old(params)@.insert(SVC_PARAM_VERSION@, seq![version@]),
{
    let mut values: Vec<String> = Vec::new();
    values.push(version.to_string());
    assert(values.deep_view() =~= seq![version@]);
    params.insert(SVC_PARAM_VERSION.to_string(), values);
}

proof fn lemma_label_reads_back(version: (nat, nat))
    requires
        version.0 <= u32::MAX,
        version.1 <= u32::MAX,
    ensures
        protocol_version(version_label(version)) == Some(version),
{
    reveal_strlit(".");
    let a = text::decimal(version.0);
    let b = text::decimal(version.1);
    let s = version_label(version);
    text::lemma_decimal_digits(version.0);
    text::lemma_decimal_digits(version.1);
    text::decimal_round_trip(version.0, u32::MAX as nat);
    text::decimal_round_trip(version.1, u32::MAX as nat);
    assert(text::is_digit(a[0]));
    assert(text::is_digit(b.last()));
    assert(s[0] == a[0]);
    assert(s.last() == b.last());
    assert(text::trimmed(s) == s);
    assert forall|k: int| 0 <= k < a.len() implies s[k] != '.' by {
        assert(text::is_digit(a[k]));
        assert(s[k] == a[k]);
    }
    assert(s[a.len() as int] == '.');
    text::lemma_before_first(s, '.', a.len() as int);
    let rest = s.skip(a.len() as int + 1);
    assert(rest =~= b);
    assert(s.take(a.len() as int) =~= a);
    assert forall|k: int| 0 <= k < b.len() implies b[k] != '.' by {
        assert(text::is_digit(b[k]));
    }
    text::lemma_before_first(b, '.', b.len() as int);
    assert(text::pieces(b, '.') =~= seq![b]);
    assert(text::pieces(s, '.') =~= seq![a, b]);
}

/// Without a version that was asked for, the version signaled is within the
/// first major version, no higher than either side knows, and no lower than
/// the lower of the two; where it is not this program's own, a note says so.
pub proof fn negotiation_stays_within_the_first_major_version(declared: Seq<char>, minor: nat)
    requires
        minor <= u32::MAX,
    ensures
        ({
            let r = negotiated(None, declared, (1, minor));
            let lower = match protocol_version(declared) {
                Some(theirs) => if theirs.0 == 1 && theirs.1 < minor {
                    theirs.1
                } else {
                    minor
                },
                None => minor,
            };
            &&& protocol_version(r.version) == Some((1nat, lower))
            &&& lower != minor ==> r.note is Some
        }),
{
    lemma_label_reads_back((1, minor));
    if let Some(theirs) = protocol_version(declared) {
        if theirs.0 == 1 && theirs.1 < minor {
            lemma_label_reads_back(theirs);
        }
    }
}

/// A version that was asked for and accepted is signaled as it was written,
/// and is within the first major version.
pub proof fn accepted_versions_are_signaled_as_given(
    requested: Seq<char>,
    declared: Seq<char>,
    supported: (nat, nat),
)
    requires
        version_objection(requested) is None,
    ensures
        negotiated(Some(requested), declared, supported).version == requested,
        match protocol_version(requested) {
            Some(version) => version.0 == 1,
            None => false,
        },
{
}

/// A version is read as the numbers before and behind its first dot; without a
/// dot the minor number is zero, and what follows a second dot is ignored.
pub proof fn versions_are_read_by_their_first_two_numbers(
    major: nat,
    minor: nat,
    patch: nat,
)
    requires
        major <= u32::MAX,
        minor <= u32::MAX,
    ensures
        protocol_version(text::decimal(major)) == Some((major, 0nat)),
        protocol_version(text::decimal(major) + seq!['.'] + text::decimal(minor)) == Some(
            (major, minor),
        ),
        protocol_version(
            text::decimal(major) + seq!['.'] + text::decimal(minor) + seq!['.'] + text::decimal(
                patch,
            ),
        ) == Some((major, minor)),
{
    reveal_strlit(".");
    let a = text::decimal(major);
    let b = text::decimal(minor);
    let c = text::decimal(patch);
    assert("."@ =~= seq!['.']);
    assert(version_label((major, minor)) =~= a + seq!['.'] + b);
    lemma_label_reads_back((major, minor));
    text::lemma_decimal_digits(major);
    text::lemma_decimal_digits(minor);
    text::lemma_decimal_digits(patch);
    text::decimal_round_trip(major, u32::MAX as nat);
    text::decimal_round_trip(minor, u32::MAX as nat);
    assert(text::is_digit(a[0]) && text::is_digit(a.last()));
    assert(text::trimmed(a) == a);
    assert forall|k: int| 0 <= k < a.len() implies a[k] != '.' by {
        assert(text::is_digit(a[k]));
    }
    text::lemma_before_first(a, '.', a.len() as int);
    assert(text::pieces(a, '.') =~= seq![a]);
    let s = a + seq!['.'] + b + seq!['.'] + c;
    assert(text::is_digit(c.last()));
    assert(s[0] == a[0] && s.last() == c.last());
    assert(text::trimmed(s) == s);
    assert forall|k: int| 0 <= k < a.len() implies s[k] != '.' by {
        assert(s[k] == a[k]);
    }
    text::lemma_before_first(s, '.', a.len() as int);
    assert(s.take(a.len() as int) =~= a);
    let rest = s.skip(a.len() as int + 1);
    assert(rest =~= b + seq!['.'] + c);
    assert forall|k: int| 0 <= k < b.len() implies rest[k] != '.' by {
        assert(text::is_digit(b[k]));
        assert(rest[k] == b[k]);
    }
    text::lemma_before_first(rest, '.', b.len() as int);
    assert(rest.take(b.len() as int) =~= b);
    assert(text::pieces(rest, '.')[0] == b);
    assert(text::pieces(s, '.')[0] == a);
    assert(text::pieces(s, '.')[1] == b);
}

/// There is a note exactly where the version that is signaled is not simply the
/// one that both sides have: where another one was asked for than this program
/// speaks, where what the agent declares is no version or none of the first
/// major version, and where the agent's is the older one.
pub proof fn notes_tell_of_every_deviation(
    explicit: Option<&str>,
    declared: &str,
    supported: (u32, u32),
    r: NegotiatedVersion,
)
    requires
        call_ensures(negotiate_a2a_version, (explicit, declared, supported), r),
        supported.0 == 1,
    ensures
        explicit matches Some(requested) ==> {
            &&& r.version@ == requested@
            &&& r.note is None <==> protocol_version(requested@) == Some(
                (supported.0 as nat, supported.1 as nat),
            )
        },
        explicit is None ==> {
            let theirs = protocol_version(declared@);
            let agrees = theirs is Some && (theirs->0).0 == 1 && (theirs->0).1 >= supported.1;
            let lower = theirs is Some && (theirs->0).0 == 1 && (theirs->0).1 < supported.1;
            &&& r.note is None <==> agrees
            &&& lower ==> r.version@ == text::decimal(1) + "."@ + text::decimal((theirs->0).1)
            &&& !lower ==> r.version@ == text::decimal(1) + "."@ + text::decimal(
                supported.1 as nat,
            )
        },
{
}

/// A version can be asked for exactly where it is one of the first major
/// version; asking for none is fine.
pub proof fn only_the_first_major_version_can_be_asked_for(
    value: Option<&str>,
    r: Result<(), CliError>,
)
    requires
        call_ensures(validate_a2a_version, (value,), r),
    ensures
        r is Ok <==> (value matches Some(requested) ==> (protocol_version(requested@) matches Some(
            version,
        ) && version.0 == 1)),
        r matches Err(error) ==> error is InvalidInput,
{
}

/// An operation is refused exactly where a card was read that does not declare
/// the capability that it needs: for streaming, push notifications and the
/// extended card each its own field counts, and no other.
pub proof fn each_capability_has_its_field(
    declared: DeclaredCapabilities,
    streaming: Result<(), CliError>,
    push: Result<(), CliError>,
    extended: Result<(), CliError>,
)
    requires
        call_ensures(DeclaredCapabilities::require, (&declared, Capability::Streaming), streaming),
        call_ensures(DeclaredCapabilities::require, (&declared, Capability::PushNotifications), push),
        call_ensures(DeclaredCapabilities::require, (&declared, Capability::ExtendedCard), extended),
    ensures
        streaming is Ok <==> (declared matches DeclaredCapabilities::Card(card) ==> card.streaming
            == Some(true)),
        push is Ok <==> (declared matches DeclaredCapabilities::Card(card)
            ==> card.push_notifications == Some(true)),
        extended is Ok <==> (declared matches DeclaredCapabilities::Card(card)
            ==> card.extended_agent_card == Some(true)),
        streaming matches Err(error) ==> (error matches CliError::A2A(told) && told.code
            == UNSUPPORTED_OPERATION && told.message@ == "the agent card does not declare "@
            + "streaming"@),
        push matches Err(error) ==> (error matches CliError::A2A(told) && told.code
            == PUSH_NOTIFICATION_NOT_SUPPORTED && told.message@
            == "the agent card does not declare "@ + "pushNotifications"@),
        extended matches Err(error) ==> (error matches CliError::A2A(told) && told.code
            == UNSUPPORTED_OPERATION && told.message@ == "the agent card does not declare "@
            + "extendedAgentCard"@),
{
}

/// A note names the version that is signaled and, where the agent or the caller
/// named another one, that one too.
pub proof fn notes_name_the_versions(
    requested: Seq<char>,
    declared: Seq<char>,
    supported: (nat, nat),
)
    ensures
        ({
            let own = text::decimal(supported.0) + "."@ + text::decimal(supported.1);
            &&& negotiated(Some(requested), declared, supported).note matches Some(note) ==> note
                == "signaling A2A-Version "@ + requested + " (a2acli supports "@ + own + ")"@
            &&& protocol_version(declared) is None ==> negotiated(None, declared, supported).note
                == Some(
                "agent card declares an unparseable protocol version ("@ + declared
                    + "); signaling "@ + own,
            )
            &&& protocol_version(declared) matches Some(theirs) ==> (theirs.0 != 1 ==> negotiated(
                None,
                declared,
                supported,
            ).note == Some(
                "agent card declares protocol version "@ + declared
                    + ", which is outside 1.x; signaling "@ + own
                    + " rather than negotiating below 1.0"@,
            ))
        }),
{
}

/// This program speaks version 1.0.
pub proof fn the_own_version_is_the_first(r: (u32, u32))
    requires
        call_ensures(supported_protocol_version, (), r),
    ensures
        r.0 == 1,
        r.1 == 0,
{
    reveal_strlit("1.0");
    versions_are_read_by_their_first_two_numbers(1, 0, 0);
    assert(text::decimal(1) =~= seq!['1']);
    assert(text::decimal(0) =~= seq!['0']);
    assert(VERSION@ =~= text::decimal(1) + seq!['.'] + text::decimal(0));
}

/// White space around a version makes no difference.
pub proof fn versions_may_have_white_space_around(value: Seq<char>, c: char)
    requires
        text::is_space(c),
    ensures
        protocol_version(seq![c] + value) == protocol_version(value),
        protocol_version(value.push(c)) == protocol_version(value),
{
    text::white_space_around_makes_no_difference(value, c);
}

} // verus!
