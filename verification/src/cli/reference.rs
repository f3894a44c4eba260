//! How the caller names an agent, and where its card is.

use vstd::prelude::*;

use crate::cli::args::{Binding, Cli};
use crate::cli::error::{CliError, CliErrorView};
use crate::handler;
use crate::net;
use crate::protocol::{
    AgentCapabilities, AgentCard, AgentCardView, AgentInterface, AgentInterfaceView,
    TRANSPORT_PROTOCOL_HTTP_JSON, TRANSPORT_PROTOCOL_JSONRPC, VERSION,
};
use crate::spelling;
use crate::text;

verus! {

/// Where an agent publishes its card, below its origin.
pub const WELL_KNOWN_AGENT_CARD_PATH: &'static str = "/.well-known/agent-card.json";

/// Where an agent card is.
#[derive(Debug, PartialEq, Eq)]
pub enum CardReference {
    File(String),
    Url(String),
}

/// What a [`CardReference`] stands for.
#[verifier::ext_equal]
pub enum CardReferenceView {
    File(Seq<char>),
    Url(Seq<char>),
}

impl DeepView for CardReference {
    type V = CardReferenceView;

    open spec fn deep_view(&self) -> CardReferenceView {
        match self {
            CardReference::File(path) => CardReferenceView::File(path@),
            CardReference::Url(url) => CardReferenceView::Url(url@),
        }
    }
}

/// Whether `s` starts with a drive such as `C:\` or `C:/`. A host with a port
/// does not: a digit follows its colon.
pub open spec fn starts_with_drive(s: Seq<char>) -> bool {
    &&& s.len() >= 3
    &&& ('a' <= s[0] <= 'z') || ('A' <= s[0] <= 'Z')
    &&& s[1] == ':'
    &&& s[2] == '\\' || s[2] == '/'
}

/// Whether `reference` starts with a drive.
pub fn has_windows_drive_prefix(reference: &str) -> (r: bool)
    ensures
        r == starts_with_drive(reference@),
{
    let chars = text::chars_of(reference);
    chars.len() >= 3 && (('a' <= chars[0] && chars[0] <= 'z') || ('A' <= chars[0] && chars[0]
        <= 'Z')) && chars[1] == ':' && (chars[2] == '\\' || chars[2] == '/')
}

/// Whether `reference` has the shape of a path, or names something on disk.
pub open spec fn is_path_like(reference: Seq<char>, exists: bool) -> bool {
    ||| "/"@.is_prefix_of(reference)
    ||| "./"@.is_prefix_of(reference)
    ||| "../"@.is_prefix_of(reference)
    ||| "\\"@.is_prefix_of(reference)
    ||| ".\\"@.is_prefix_of(reference)
    ||| "..\\"@.is_prefix_of(reference)
    ||| starts_with_drive(reference)
    ||| exists
}

/// Whether `reference` is a local file rather than a host or a URL; `exists`
/// says whether it names something on disk.
pub fn looks_like_file_path(reference: &str, exists: bool) -> (r: bool)
    ensures
        r == is_path_like(reference@, exists),
{
    text::starts_with(reference, "/") || text::starts_with(reference, "./") || text::starts_with(
        reference,
        "../",
    ) || text::starts_with(reference, "\\") || text::starts_with(reference, ".\\")
        || text::starts_with(reference, "..\\") || has_windows_drive_prefix(reference) || exists
}

/// Whether `s` spells a loopback address.
pub open spec fn is_loopback_address(s: Seq<char>) -> bool {
    net::ip_address(s) matches Some(ip) && net::is_loopback(ip)
}

/// `host` without its port, and without the brackets of an IPv6 address.
pub open spec fn host_alone(host: Seq<char>) -> Seq<char> {
    match text::without_prefix(host, "["@) {
        Some(rest) => match text::cut(rest, "]"@) {
            Some((inside, _)) => inside,
            None => rest,
        },
        None => match text::cut(host, ":"@) {
            Some((head, _)) => head,
            None => host,
        },
    }
}

/// Whether `host`, with or without a port, is this machine. The colons of an
/// IPv6 address without brackets separate no port.
pub open spec fn is_loopback(host: Seq<char>) -> bool {
    if net::ip_address(host) is Some {
        is_loopback_address(host)
    } else {
        host_alone(host) == "localhost"@ || is_loopback_address(host_alone(host))
    }
}

/// Whether `host`, with or without a port, is this machine.
pub fn is_loopback_host(host: &str) -> (r: bool)
    ensures
        r == is_loopback(host@),
{
    if let Some(ip) = net::parse_ip(host) {
        return net::is_loopback_ip(ip);
    }
    let alone = match text::strip_prefix(host, "[") {
        Some(rest) => match text::split_once(rest.as_str(), "]") {
            Some((inside, _)) => inside,
            None => rest,
        },
        None => match text::split_once(host, ":") {
            Some((head, _)) => head,
            None => host.to_string(),
        },
    };
    if text::same(alone.as_str(), "localhost") {
        return true;
    }
    match net::parse_ip(alone.as_str()) {
        Some(ip) => net::is_loopback_ip(ip),
        None => false,
    }
}

/// Whether a URL says more than an origin.
pub open spec fn has_path(url: Seq<char>) -> bool {
    match text::cut(text::without_trailing(url, '/'), "://"@) {
        Some((_, rest)) => text::found(rest, "/"@) is Some,
        None => false,
    }
}

/// Where the card of `url` is: at the well-known place of an origin, or at
/// the URL itself where it has a path.
pub open spec fn card_url(url: Seq<char>) -> Seq<char> {
    if has_path(url) {
        url
    } else {
        text::without_trailing(url, '/') + WELL_KNOWN_AGENT_CARD_PATH@
    }
}

/// Where the card of `url` is.
pub fn append_well_known_path(url: &str) -> (r: String)
    ensures
        r@ == card_url(url@),
{
    let trimmed = text::trim_end_matches(url, '/');
    let pathed = match text::split_once(trimmed.as_str(), "://") {
        Some((_, rest)) => text::contains(rest.as_str(), "/"),
        None => false,
    };
    if pathed {
        url.to_string()
    } else {
        let mut out = trimmed;
        out.append(WELL_KNOWN_AGENT_CARD_PATH);
        out
    }
}

/// The path of a `file` URL: the slash before a drive belongs to the URL.
pub open spec fn file_url_path(rest: Seq<char>) -> Seq<char> {
    match text::without_prefix(rest, "/"@) {
        Some(path) => if starts_with_drive(path) {
            path
        } else {
            rest
        },
        None => rest,
    }
}

/// Where the card that `reference` names is. `exists` says whether the
/// reference names something on disk.
pub open spec fn card_location(reference: Seq<char>, exists: bool) -> CardReferenceView {
    match text::without_prefix(reference, "file://"@) {
        Some(rest) => CardReferenceView::File(file_url_path(rest)),
        None => if text::found(reference, "://"@) is Some {
            CardReferenceView::Url(card_url(reference))
        } else if is_path_like(reference, exists) {
            CardReferenceView::File(reference)
        } else if is_loopback(reference) {
            CardReferenceView::Url(card_url("http"@ + "://"@ + reference))
        } else {
            CardReferenceView::Url(card_url("https"@ + "://"@ + reference))
        },
    }
}

/// Finds where the card that `reference` names is: a full URL is used as it
/// is, a bare host or origin gets the well-known path, with `http` on this
/// machine and `https` elsewhere, and a path is a file.
pub fn normalize_card_reference(reference: &str, exists: bool) -> (r: CardReference)
    ensures
        r.deep_view() == card_location(reference@, exists),
{
    if let Some(rest) = text::strip_prefix(reference, "file://") {
        let path = match text::strip_prefix(rest.as_str(), "/") {
            Some(path) => if has_windows_drive_prefix(path.as_str()) {
                path
            } else {
                rest
            },
            None => rest,
        };
        return CardReference::File(path);
    }
    if text::contains(reference, "://") {
        return CardReference::Url(append_well_known_path(reference));
    }
    if looks_like_file_path(reference, exists) {
        return CardReference::File(reference.to_string());
    }
    let mut url = if is_loopback_host(reference) {
        "http".to_string()
    } else {
        "https".to_string()
    };
    url.append("://");
    url.append(reference);
    CardReference::Url(append_well_known_path(url.as_str()))
}

/// How the caller named the agent.
#[derive(Debug, PartialEq, Eq)]
pub enum AgentSelection {
    /// By a reference to its card.
    Card(String),
    /// By one interface, without a card.
    Endpoint { url: String, binding: Binding },
}

/// What an [`AgentSelection`] stands for.
#[verifier::ext_equal]
pub enum AgentSelectionView {
    Card(Seq<char>),
    Endpoint { url: Seq<char>, binding: Binding },
}

impl DeepView for AgentSelection {
    type V = AgentSelectionView;

    open spec fn deep_view(&self) -> AgentSelectionView {
        match self {
            AgentSelection::Card(reference) => AgentSelectionView::Card(reference@),
            AgentSelection::Endpoint { url, binding } => AgentSelectionView::Endpoint {
                url: url@,
                binding: *binding,
            },
        }
    }
}

/// The agent that the flags select. An endpoint excludes a card, and needs
/// exactly one transport, since there is no card to declare its binding.
pub open spec fn selected_agent(
    agent_card: Option<Seq<char>>,
    endpoint: Option<Seq<char>>,
    base_url: Seq<char>,
    transport: Seq<Binding>,
) -> Result<AgentSelectionView, CliErrorView> {
    match (agent_card, endpoint) {
        (Some(_), Some(_)) => Err(
            CliErrorView::InvalidInput(
                "--endpoint and --agent-card are mutually exclusive: --endpoint names an interface directly, so there is no card to resolve"@,
            ),
        ),
        (None, Some(url)) => if transport.len() == 1 {
            Ok(AgentSelectionView::Endpoint { url, binding: transport[0] })
        } else {
            Err(
                CliErrorView::InvalidInput(
                    "--endpoint requires exactly one --transport (got "@ + text::decimal(
                        transport.len(),
                    )
                        + "): there is no agent card to declare the interface's protocol binding"@,
                ),
            )
        },
        (Some(reference), None) => Ok(AgentSelectionView::Card(reference)),
        (None, None) => Ok(AgentSelectionView::Card(base_url)),
    }
}

/// What a fallible selection stands for.
pub open spec fn selection_view(selection: Result<AgentSelection, CliError>) -> Result<
    AgentSelectionView,
    CliErrorView,
> {
    match selection {
        Ok(selection) => Ok(selection.deep_view()),
        Err(error) => Err(error.deep_view()),
    }
}

/// The agent that the command line selects.
pub open spec fn cli_selection(cli: Cli) -> Result<AgentSelectionView, CliErrorView> {
    selected_agent(
        cli.agent_card.deep_view(),
        cli.endpoint.deep_view(),
        cli.base_url@,
        cli.transport@,
    )
}

/// Finds the agent that the command line selects.
pub fn resolve_agent_selection(cli: &Cli) -> (r: Result<AgentSelection, CliError>)
    ensures
        selection_view(r) == cli_selection(*cli),
{
    match (&cli.agent_card, &cli.endpoint) {
        (Some(_), Some(_)) => Err(
            CliError::InvalidInput(
                "--endpoint and --agent-card are mutually exclusive: --endpoint names an interface directly, so there is no card to resolve".to_string(),
            ),
        ),
        (None, Some(url)) => if cli.transport.len() == 1 {
            Ok(AgentSelection::Endpoint { url: url.clone(), binding: cli.transport[0] })
        } else {
            let mut message = "--endpoint requires exactly one --transport (got ".to_string();
            let count = text::to_decimal(cli.transport.len() as u64);
            message.append(count.as_str());
            message.append(
                "): there is no agent card to declare the interface's protocol binding",
            );
            Err(CliError::InvalidInput(message))
        },
        (Some(reference), None) => Ok(AgentSelection::Card(reference.clone())),
        (None, None) => Ok(AgentSelection::Card(cli.base_url.clone())),
    }
}

/// The warning about the deprecated way to name an agent: where it was used on
/// the command line, and nothing else names the agent.
pub fn base_url_warning(cli: &Cli, given_as_flag: bool) -> (r: Option<String>)
    ensures
        r.deep_view() == (if cli.agent_card is None && cli.endpoint is None && given_as_flag {
            Some(
                "--base-url is deprecated; use --agent-card, which also accepts a full card URL or a local file path"@,
            )
        } else {
            None
        }),
{
    if cli.agent_card.is_none() && cli.endpoint.is_none() && given_as_flag {
        Some(
            "--base-url is deprecated; use --agent-card, which also accepts a full card URL or a local file path".to_string(),
        )
    } else {
        None
    }
}

/// The card that stands in for one that was not read: it has the one
/// interface that the caller named, and declares nothing.
pub open spec fn endpoint_card(url: Seq<char>, binding: Binding) -> AgentCardView {
    AgentCardView {
        name: url,
        description: "synthesized from --endpoint; no agent card was resolved"@,
        version: VERSION@,
        supported_interfaces: seq![
            AgentInterfaceView {
                url,
                protocol_binding: binding.spec_protocol(),
                protocol_version: VERSION@,
                tenant: None,
            },
        ],
        capabilities: handler::no_capabilities(),
        default_input_modes: Seq::empty(),
        default_output_modes: Seq::empty(),
        skills: Seq::empty(),
        provider: None,
        documentation_url: None,
        icon_url: None,
        security_schemes: None,
        security_requirements: None,
        signatures: None,
    }
}

/// Makes the card that stands in for one that was not read.
pub fn synthesized_endpoint_card(url: &str, binding: Binding) -> (r: AgentCard)
    ensures
        r.deep_view() == endpoint_card(url@, binding),
{
    let mut supported_interfaces: Vec<AgentInterface> = Vec::new();
    supported_interfaces.push(AgentInterface::new(url, binding.protocol()));
    let card = AgentCard {
        name: url.to_string(),
        description: "synthesized from --endpoint; no agent card was resolved".to_string(),
        version: VERSION.to_string(),
        supported_interfaces,
        capabilities: AgentCapabilities::default(),
        default_input_modes: Vec::new(),
        default_output_modes: Vec::new(),
        skills: Vec::new(),
        provider: None,
        documentation_url: None,
        icon_url: None,
        security_schemes: None,
        security_requirements: None,
        signatures: None,
    };
    assert(card.deep_view() =~= endpoint_card(url@, binding)) by {
        let view = card.deep_view();
        let goal = endpoint_card(url@, binding);
        assert(view.supported_interfaces =~= goal.supported_interfaces);
        assert(view.default_input_modes =~= goal.default_input_modes);
        assert(view.default_output_modes =~= goal.default_output_modes);
        assert(view.skills =~= goal.skills);
    }
    card
}

/// Naming a card by the place it was found at finds it there again, for every
/// reference with a scheme and something behind it.
pub proof fn card_urls_are_stable(url: Seq<char>)
    requires
        text::found(text::without_trailing(url, '/'), "://"@) is Some,
    ensures
        card_url(card_url(url)) == card_url(url),
{
    reveal_strlit("/.well-known/agent-card.json");
    reveal_strlit("://");
    reveal_strlit("/");
    if !has_path(url) {
        let trimmed = text::without_trailing(url, '/');
        let path = WELL_KNOWN_AGENT_CARD_PATH@;
        let full = trimmed + path;
        assert(full.last() == path.last());
        assert(path.last() == 'n');
        assert(text::without_trailing(full, '/') == full);
        text::lemma_found_in_longer(trimmed, path, "://"@);
        text::lemma_found_bounds(trimmed, "://"@);
        let i = text::found(trimmed, "://"@)->0;
        let rest = full.skip(i + 3);
        let k = trimmed.len() - (i + 3);
        assert(rest[k] == path[0]);
        assert(rest[k] == '/');
        text::lemma_found_char(rest, '/', k);
        assert("/"@ =~= seq!['/']);
        assert(text::found(rest, "/"@) is Some);
        assert(has_path(full));
    }
}

/// An agent is named in one way: an endpoint with exactly one transport is
/// taken as it is, a card by its reference, and without either the base URL
/// counts. An endpoint together with a card, or without exactly one transport,
/// is refused.
pub proof fn agents_are_named_in_one_way(cli: Cli, r: Result<AgentSelection, CliError>)
    requires
        call_ensures(resolve_agent_selection, (&cli,), r),
    ensures
        cli.endpoint is None ==> {
            &&& cli.agent_card matches Some(card) ==> (r matches Ok(AgentSelection::Card(named))
                && named@ == card@)
            &&& cli.agent_card is None ==> (r matches Ok(AgentSelection::Card(named)) && named@
                == cli.base_url@)
        },
        cli.endpoint matches Some(endpoint) ==> {
            &&& cli.agent_card is None && cli.transport@.len() == 1 ==> (r matches Ok(
                AgentSelection::Endpoint { url, binding },
            ) && url@ == endpoint@ && binding == cli.transport@[0])
            &&& cli.agent_card is Some || cli.transport@.len() != 1 ==> (r matches Err(
                CliError::InvalidInput(_),
            ))
        },
{
}

/// The card that stands in for one that was not read has the one interface
/// that was named, at the newest version and in no tenant, and declares no
/// capability.
pub proof fn endpoints_have_one_interface(url: &str, binding: Binding, r: AgentCard)
    requires
        call_ensures(synthesized_endpoint_card, (url, binding), r),
    ensures
        ({
            let card = r.deep_view();
            &&& card.name == url@
            &&& card.supported_interfaces.len() == 1
            &&& card.supported_interfaces[0].url == url@
            &&& binding == Binding::Jsonrpc ==> card.supported_interfaces[0].protocol_binding
                == TRANSPORT_PROTOCOL_JSONRPC@
            &&& binding == Binding::Rest ==> card.supported_interfaces[0].protocol_binding
                == TRANSPORT_PROTOCOL_HTTP_JSON@
            &&& card.supported_interfaces[0].protocol_version == VERSION@
            &&& card.supported_interfaces[0].tenant is None
            &&& card.capabilities.streaming is None
            &&& card.capabilities.push_notifications is None
            &&& card.capabilities.extended_agent_card is None
            &&& card.skills.len() == 0
        }),
{
}

/// The base URL is warned about exactly where it was given on the command line
/// and is what names the agent.
pub proof fn base_urls_are_warned_about_where_they_count(
    cli: Cli,
    given_as_flag: bool,
    r: Option<String>,
)
    requires
        call_ensures(base_url_warning, (&cli, given_as_flag), r),
    ensures
        r is Some <==> given_as_flag && cli.agent_card is None && cli.endpoint is None,
{
}

proof fn lemma_starts_with(s: Seq<char>, p: Seq<char>)
    ensures
        p.is_prefix_of(s) <==> p.len() <= s.len() && forall|i: int|
            0 <= i < p.len() ==> s[i] == #[trigger] p[i],
{
    if p.len() <= s.len() {
        if p.is_prefix_of(s) {
            assert forall|i: int| 0 <= i < p.len() implies s[i] == #[trigger] p[i] by {
                assert(s.subrange(0, p.len() as int)[i] == p[i]);
            }
        }
        if forall|i: int| 0 <= i < p.len() ==> s[i] == #[trigger] p[i] {
            assert(s.subrange(0, p.len() as int) =~= p);
        }
    }
}

/// A reference is taken for a path exactly where it names something on disk,
/// or starts with a slash of either kind, possibly behind one dot or two, or
/// with a drive.
pub proof fn paths_start_with_a_slash_a_dot_or_a_drive(s: Seq<char>, exists: bool)
    ensures
        is_path_like(s, exists) <==> {
            ||| s.len() >= 1 && (s[0] == '/' || s[0] == '\\')
            ||| s.len() >= 2 && s[0] == '.' && (s[1] == '/' || s[1] == '\\')
            ||| s.len() >= 3 && s[0] == '.' && s[1] == '.' && (s[2] == '/' || s[2] == '\\')
            ||| s.len() >= 3 && ('a' <= s[0] <= 'z' || 'A' <= s[0] <= 'Z') && s[1] == ':' && (s[2]
                == '/' || s[2] == '\\')
            ||| exists
        },
{
    reveal_strlit("/");
    reveal_strlit("./");
    reveal_strlit("../");
    reveal_strlit("\\");
    reveal_strlit(".\\");
    reveal_strlit("..\\");
    lemma_starts_with(s, "/"@);
    lemma_starts_with(s, "./"@);
    lemma_starts_with(s, "../"@);
    lemma_starts_with(s, "\\"@);
    lemma_starts_with(s, ".\\"@);
    lemma_starts_with(s, "..\\"@);
    assert("/"@[0] == '/');
    assert("./"@[0] == '.' && "./"@[1] == '/');
    assert("../"@[0] == '.' && "../"@[1] == '.' && "../"@[2] == '/');
    assert("\\"@[0] == '\\');
    assert(".\\"@[0] == '.' && ".\\"@[1] == '\\');
    assert("..\\"@[0] == '.' && "..\\"@[1] == '.' && "..\\"@[2] == '\\');
}

/// A reference without a scheme that is taken for a path is that file, as it
/// was written.
pub proof fn paths_are_files(reference: Seq<char>, exists: bool)
    requires
        text::found(reference, "://"@) is None,
        is_path_like(reference, exists),
    ensures
        card_location(reference, exists) == CardReferenceView::File(reference),
{
    lemma_no_scheme_no_file_url(reference);
}

proof fn lemma_no_scheme_no_file_url(reference: Seq<char>)
    requires
        text::found(reference, "://"@) is None,
    ensures
        !"file://"@.is_prefix_of(reference),
{
    reveal_strlit("file://");
    reveal_strlit("://");
    if "file://"@.is_prefix_of(reference) {
        lemma_starts_with(reference, "file://"@);
        text::cuts_are_at_the_first_place(reference, "://"@);
        assert(reference[4] == "file://"@[4]);
        assert(reference[5] == "file://"@[5]);
        assert(reference[6] == "file://"@[6]);
        assert(reference.skip(4).subrange(0, 3) =~= "://"@);
        assert("://"@.is_prefix_of(reference.skip(4)));
    }
}

proof fn lemma_scheme_is_found(scheme: Seq<char>, rest: Seq<char>)
    requires
        !scheme.contains(':'),
    ensures
        text::cut(scheme + "://"@ + rest, "://"@) == Some((scheme, rest)),
{
    reveal_strlit("://");
    let s = scheme + "://"@ + rest;
    let n = scheme.len() as int;
    text::cuts_are_at_the_first_place(s, "://"@);
    assert(s.skip(n).subrange(0, 3) =~= "://"@);
    assert("://"@.is_prefix_of(s.skip(n)));
    if let Some((before, after)) = text::cut(s, "://"@) {
        assert(s[before.len() as int] == ':');
        if before.len() < n {
            assert(scheme[before.len() as int] == ':');
            assert(scheme.contains(':'));
        }
        if before.len() > n {
            assert(!"://"@.is_prefix_of(s.skip(n)));
        }
        assert(before =~= s.take(n));
        assert(scheme =~= s.take(n));
        assert(after =~= s.skip(n + 3));
        assert(rest =~= s.skip(n + 3));
    }
}

proof fn lemma_origin_has_no_path(scheme: Seq<char>, host: Seq<char>, slashes: nat)
    requires
        !scheme.contains(':'),
        host.len() > 0,
        !host.contains('/'),
    ensures
        card_url(scheme + "://"@ + host + slashed(slashes)) == scheme + "://"@ + host
            + WELL_KNOWN_AGENT_CARD_PATH@,
{
    reveal_strlit("://");
    reveal_strlit("/");
    let origin = scheme + "://"@ + host;
    assert(host.contains(host.last()));
    assert(origin.last() == host.last());
    lemma_slashes_are_trailing(origin, slashes);
    lemma_scheme_is_found(scheme, host);
    assert("/"@ =~= seq!['/']);
    text::lemma_found_bounds(host, "/"@);
    if let Some(i) = text::found(host, "/"@) {
        assert(host.subrange(i, i + 1)[0] == '/');
        assert(host.contains(host[i]));
    }
}

/// So many slashes.
pub open spec fn slashed(n: nat) -> Seq<char> {
    Seq::new(n, |i: int| '/')
}

proof fn lemma_slashes_are_trailing(s: Seq<char>, n: nat)
    requires
        s.len() > 0,
        s.last() != '/',
    ensures
        text::without_trailing(s + slashed(n), '/') == s,
    decreases n,
{
    let full = s + slashed(n);
    if n == 0 {
        assert(full =~= s);
    } else {
        lemma_slashes_are_trailing(s, (n - 1) as nat);
        assert(full.drop_last() =~= s + slashed((n - 1) as nat));
        assert(full.last() == '/');
    }
}

/// The card of an origin is at the well-known place below it, however many
/// slashes it ends in; a URL with a path is where the card is.
pub proof fn origins_get_the_well_known_place(
    scheme: Seq<char>,
    host: Seq<char>,
    slashes: nat,
    path: Seq<char>,
    exists: bool,
)
    requires
        !scheme.contains(':'),
        scheme != "file"@,
        host.len() > 0,
        !host.contains('/'),
        path.len() > 0,
        path.last() != '/',
    ensures
        card_location(scheme + "://"@ + host + slashed(slashes), exists) == CardReferenceView::Url(
            scheme + "://"@ + host + WELL_KNOWN_AGENT_CARD_PATH@,
        ),
        card_location(scheme + "://"@ + host + seq!['/'] + path, exists) == CardReferenceView::Url(
            scheme + "://"@ + host + seq!['/'] + path,
        ),
{
    reveal_strlit("://");
    reveal_strlit("/");
    lemma_origin_has_no_path(scheme, host, slashes);
    let bare = host + slashed(slashes);
    let origin = scheme + "://"@ + host + slashed(slashes);
    assert(origin =~= scheme + "://"@ + bare);
    lemma_scheme_is_found(scheme, bare);
    lemma_no_file_scheme(scheme, bare);
    let rest = host + seq!['/'] + path;
    let url = scheme + "://"@ + host + seq!['/'] + path;
    assert(url =~= scheme + "://"@ + rest);
    lemma_scheme_is_found(scheme, rest);
    lemma_no_file_scheme(scheme, rest);
    assert(url.last() == path.last());
    assert(text::without_trailing(url, '/') == url);
    assert(rest[host.len() as int] == '/');
    assert("/"@ =~= seq!['/']);
    text::lemma_found_char(rest, '/', host.len() as int);
}

proof fn lemma_no_file_scheme(scheme: Seq<char>, rest: Seq<char>)
    requires
        !scheme.contains(':'),
        scheme != "file"@,
    ensures
        !"file://"@.is_prefix_of(scheme + "://"@ + rest),
{
    reveal_strlit("file://");
    reveal_strlit("file");
    reveal_strlit("://");
    let s = scheme + "://"@ + rest;
    lemma_starts_with(s, "file://"@);
    if "file://"@.is_prefix_of(s) {
        let n = scheme.len() as int;
        assert("file://"@[0] == 'f' && "file://"@[1] == 'i' && "file://"@[2] == 'l'
            && "file://"@[3] == 'e' && "file://"@[4] == ':');
        assert(s[n] == "://"@[0]);
        if n > 4 {
            assert(s[4] == scheme[4]);
            assert(scheme.contains(':'));
        } else if n < 4 {
            assert(s[n] == "file://"@[n]);
        } else {
            assert(scheme =~= "file"@);
        }
    }
}

/// A bare host or origin without a scheme is looked for at the well-known
/// place, by `http` on this machine and by `https` elsewhere.
pub proof fn bare_hosts_get_a_scheme(host: Seq<char>)
    requires
        host.len() > 0,
        !host.contains('/'),
        !is_path_like(host, false),
    ensures
        is_loopback(host) ==> card_location(host, false) == CardReferenceView::Url(
            "http"@ + "://"@ + host + WELL_KNOWN_AGENT_CARD_PATH@,
        ),
        !is_loopback(host) ==> card_location(host, false) == CardReferenceView::Url(
            "https"@ + "://"@ + host + WELL_KNOWN_AGENT_CARD_PATH@,
        ),
{
    reveal_strlit("://");
    reveal_strlit("http");
    reveal_strlit("https");
    text::lemma_found_bounds(host, "://"@);
    if let Some(i) = text::found(host, "://"@) {
        assert(host.subrange(i, i + 3)[1] == '/');
        assert(host.contains(host[i + 1]));
    }
    lemma_no_scheme_no_file_url(host);
    lemma_origin_has_no_path("http"@, host, 0);
    lemma_origin_has_no_path("https"@, host, 0);
    assert("http"@ + "://"@ + host + slashed(0) =~= "http"@ + "://"@ + host);
    assert("https"@ + "://"@ + host + slashed(0) =~= "https"@ + "://"@ + host);
}

/// The path of a `file` URL is what follows the scheme; only the slash before
/// a drive is taken off.
pub proof fn file_urls_name_a_path(path: Seq<char>, exists: bool)
    ensures
        starts_with_drive(path) ==> card_location("file:///"@ + path, exists)
            == CardReferenceView::File(path),
        !starts_with_drive(path) ==> card_location("file:///"@ + path, exists)
            == CardReferenceView::File("/"@ + path),
{
    reveal_strlit("file:///");
    reveal_strlit("file://");
    reveal_strlit("/");
    let s = "file:///"@ + path;
    assert(s.subrange(0, 7) =~= "file://"@);
    assert("file://"@.is_prefix_of(s));
    let rest = s.skip(7);
    assert(rest =~= "/"@ + path);
    assert(rest.subrange(0, 1) =~= "/"@);
    assert("/"@.is_prefix_of(rest));
    assert(rest.skip(1) =~= path);
}

/// A port makes no difference to whether a host is this machine: `localhost`
/// and a loopback address are, with and without one, and no other name is.
pub proof fn ports_do_not_move_a_host(host: Seq<char>, port: Seq<char>)
    requires
        host.len() > 0,
        !host.contains(':'),
        !host.contains('['),
        !port.contains(':'),
    ensures
        is_loopback(host) <==> host == "localhost"@ || is_loopback_address(host),
        is_loopback(host + seq![':'] + port) <==> host == "localhost"@ || is_loopback_address(host),
{
    reveal_strlit("[");
    reveal_strlit(":");
    reveal_strlit("localhost");
    let full = host + seq![':'] + port;
    assert(":"@ =~= seq![':']);
    lemma_starts_with(host, "["@);
    lemma_starts_with(full, "["@);
    assert("["@[0] == '[');
    assert(host.contains(host[0]));
    assert(full[0] == host[0]);
    text::cuts_are_at_the_first_place(host, ":"@);
    if let Some((before, after)) = text::cut(host, ":"@) {
        assert(host[before.len() as int] == ':');
        assert(host.contains(':'));
    }
    text::cuts_are_at_the_first_place(full, ":"@);
    let n = host.len() as int;
    assert(full.skip(n).subrange(0, 1) =~= ":"@);
    assert(":"@.is_prefix_of(full.skip(n)));
    if let Some((before, after)) = text::cut(full, ":"@) {
        assert(full[before.len() as int] == ':');
        if before.len() < n {
            assert(host[before.len() as int] == ':');
            assert(host.contains(':'));
        }
        if before.len() > n {
            assert(!":"@.is_prefix_of(full.skip(n)));
        }
        assert(before =~= full.take(n));
        assert(host =~= full.take(n));
    }
    spelling::lemma_one_colon_is_no_address(host, port);
    assert("localhost"@[0] == 'l');
    net::lemma_ipv4_starts_with_a_digit("localhost"@);
    net::lemma_ipv6_needs_colons("localhost"@);
}

/// The host of a bracketed address is what stands between the brackets,
/// whatever follows them.
pub proof fn brackets_hold_the_host(inner: Seq<char>, rest: Seq<char>)
    requires
        !inner.contains(']'),
    ensures
        host_alone(seq!['['] + inner + seq![']'] + rest) == inner,
{
    reveal_strlit("[");
    reveal_strlit("]");
    let host = seq!['['] + inner + seq![']'] + rest;
    let body = inner + seq![']'] + rest;
    assert(host.subrange(0, 1) =~= "["@);
    assert("["@.is_prefix_of(host));
    assert(host.skip(1) =~= body);
    assert("]"@ =~= seq![']']);
    let n = inner.len() as int;
    text::cuts_are_at_the_first_place(body, "]"@);
    assert(body.skip(n).subrange(0, 1) =~= "]"@);
    assert("]"@.is_prefix_of(body.skip(n)));
    if let Some((before, after)) = text::cut(body, "]"@) {
        assert(body[before.len() as int] == ']');
        if before.len() < n {
            assert(inner[before.len() as int] == ']');
            assert(inner.contains(']'));
        }
        if before.len() > n {
            assert(!"]"@.is_prefix_of(body.skip(n)));
        }
        assert(before =~= body.take(n));
        assert(inner =~= body.take(n));
    }
}

} // verus!
