//! From the command line to a connection: where the card comes from, which
//! interface is used, and what every request carries.

use vstd::prelude::*;

use crate::card_schema;
use crate::cli::args::{Binding, Cli, HeaderArg};
use crate::cli::error::{CliError, CliErrorView};
use crate::cli::negotiate;
use crate::cli::negotiate::{DeclaredCapabilities, NegotiatedVersion};
use crate::cli::reference;
use crate::cli::reference::{
    AgentSelection, AgentSelectionView, CardReference, CardReferenceView,
};
use crate::factory;
use crate::factory::{A2AClientFactory, Candidate, CandidateView, TransportChoice, TransportKeyView};
use crate::json;
use crate::json::Json;
use crate::order;
use crate::protocol::{
    A2AError, A2AErrorView, AgentCard, AgentCardView, AgentInterface, AgentInterfaceView,
    TRANSPORT_PROTOCOL_HTTP_JSON, TRANSPORT_PROTOCOL_JSONRPC, VERSION,
};

verus! {

/// The warning about connections whose certificates are not verified: never
/// without one, and naming the risk to credentials where any are sent.
pub fn warn_if_insecure_with_credentials(cli: &Cli) -> (r: Option<String>)
    ensures
        r.deep_view() == (if !cli.insecure {
            None
        } else if cli.bearer is Some || cli.api_key is Some {
            Some(
                "--insecure disables TLS certificate verification, and a credential (--bearer/--api-key) is being sent over this connection \u{2014} use only against a trusted development endpoint"@,
            )
        } else {
            Some(
                "--insecure disables TLS certificate verification \u{2014} use only against a trusted development endpoint"@,
            )
        }),
{
    if !cli.insecure {
        None
    } else if cli.bearer.is_some() || cli.api_key.is_some() {
        Some(
            "--insecure disables TLS certificate verification, and a credential (--bearer/--api-key) is being sent over this connection \u{2014} use only against a trusted development endpoint".to_string(),
        )
    } else {
        Some(
            "--insecure disables TLS certificate verification \u{2014} use only against a trusted development endpoint".to_string(),
        )
    }
}

/// Where the agent card comes from.
#[derive(Debug, PartialEq, Eq)]
pub enum CardSource {
    /// It stands in for one that is not read.
    Synthesized(AgentCard),
    File(String),
    Url(String),
}

/// What a [`CardSource`] stands for.
#[verifier::ext_equal]
pub enum CardSourceView {
    Synthesized(AgentCardView),
    File(Seq<char>),
    Url(Seq<char>),
}

impl DeepView for CardSource {
    type V = CardSourceView;

    open spec fn deep_view(&self) -> CardSourceView {
        match self {
            CardSource::Synthesized(card) => CardSourceView::Synthesized(card.deep_view()),
            CardSource::File(path) => CardSourceView::File(path@),
            CardSource::Url(url) => CardSourceView::Url(url@),
        }
    }
}

/// Where the agent card comes from.
pub open spec fn card_source(cli: Cli, exists: bool) -> Result<CardSourceView, CliErrorView> {
    match reference::cli_selection(cli) {
        Err(error) => Err(error),
        Ok(AgentSelectionView::Endpoint { url, binding }) => Ok(
            CardSourceView::Synthesized(reference::endpoint_card(url, binding)),
        ),
        Ok(AgentSelectionView::Card(named)) => Ok(
            match reference::card_location(named, exists) {
                CardReferenceView::File(path) => CardSourceView::File(path),
                CardReferenceView::Url(url) => CardSourceView::Url(url),
            },
        ),
    }
}

/// Finds where the agent card comes from. `exists` says whether the reference
/// to it names something on disk.
pub fn resolve_agent_card(cli: &Cli, exists: bool) -> (r: Result<CardSource, CliError>)
    ensures
        match r {
            Ok(source) => card_source(*cli, exists) == Ok::<CardSourceView, CliErrorView>(
                source.deep_view(),
            ),
            Err(error) => card_source(*cli, exists) == Err::<CardSourceView, CliErrorView>(
                error.deep_view(),
            ),
        },
{
    match reference::resolve_agent_selection(cli) {
        Err(error) => Err(error),
        Ok(AgentSelection::Endpoint { url, binding }) => Ok(
            CardSource::Synthesized(reference::synthesized_endpoint_card(url.as_str(), binding)),
        ),
        Ok(AgentSelection::Card(named)) => match reference::normalize_card_reference(
            named.as_str(),
            exists,
        ) {
            CardReference::File(path) => Ok(CardSource::File(path)),
            CardReference::Url(url) => Ok(CardSource::Url(url)),
        },
    }
}

/// A document that was read but holds no agent card.
pub fn invalid_card(place: &str, reason: &str) -> (r: CliError)
    ensures
        r.deep_view() == CliErrorView::CardInvalid(place@ + ": "@ + reason@),
{
    let mut message = place.to_string();
    message.append(": ");
    message.append(reason);
    CliError::CardInvalid(message)
}

/// Reads an agent card from the contents of the file at `path`, or from the
/// reason why there are none.
pub fn read_agent_card_file(path: &str, contents: Result<String, String>) -> (r: Result<
    Json,
    CliError,
>)
    ensures
        match contents {
            Err(reason) => r matches Err(error) && error.deep_view() == (CliErrorView::CardFile {
                path: path@,
                reason: reason@,
            }),
            Ok(text) => match json::read_json(text@) {
                Ok(document) => r matches Ok(json) && json.deep_view() == document,
                Err(reason) => r matches Err(error) && error.deep_view()
                    == CliErrorView::CardInvalid(path@ + ": "@ + reason),
            },
        },
{
    let text = match contents {
        Ok(text) => text,
        Err(reason) => {
            return Err(CliError::CardFile { path: path.to_string(), reason });
        },
    };
    match json::parse_json(text.as_str()) {
        Ok(document) => Ok(document),
        Err(reason) => Err(invalid_card(path, reason.as_str())),
    }
}

/// Refuses a card that violates the schema in `bundle`, with every violation.
pub fn validate_card_or_fail(card: &Json, bundle: &str) -> (r: Result<(), CliError>)
    ensures
        match card_schema::card_schema_text(bundle@) {
            Err(reason) => r matches Err(error) && error.deep_view() == CliErrorView::CardInvalid(
                "schema could not be loaded: "@ + reason,
            ),
            Ok(schema) => match card_schema::applied_report(schema, card.deep_view()) {
                None => r matches Err(error) && exists|reason: Seq<char>|
                    #![trigger card_schema::inapplicable(schema, card.deep_view(), reason)]
                    card_schema::inapplicable(schema, card.deep_view(), reason)
                        && error.deep_view() == CliErrorView::CardInvalid(
                        "schema could not be loaded: "@ + reason,
                    ),
                Some(report) => exists|found: Seq<(Seq<char>, Seq<char>)>| #[trigger]
                    found.to_multiset() == report && match r {
                        Ok(_) => card_schema::ordered_report(found).len() == 0,
                        Err(error) => {
                            &&& card_schema::ordered_report(found).len() > 0
                            &&& error.deep_view() == (CliErrorView::CardSchemaInvalid {
                                violations: card_schema::ordered_report(found),
                            })
                        },
                    },
            },
        },
{
    match card_schema::validate_agent_card(card, bundle) {
        Ok(violations) => if violations.len() == 0 {
            assert(violations.deep_view().len() == 0);
            Ok(())
        } else {
            assert(violations.deep_view().len() > 0);
            Err(CliError::CardSchemaInvalid { violations })
        },
        Err(reason) => {
            let mut message = "schema could not be loaded: ".to_string();
            message.append(reason.as_str());
            Err(CliError::CardInvalid(message))
        },
    }
}

/// The bearer token as the value of a header.
pub open spec fn bearer_value(token: Seq<char>) -> Seq<char> {
    "Bearer "@ + token
}

/// The name and the value of each header, in the order in which they were
/// given.
pub open spec fn param_headers(params: Seq<HeaderArg>) -> Seq<(Seq<char>, Seq<char>)> {
    params.map_values(|param: HeaderArg| (param.name@, param.value@))
}

/// The headers that a request for the agent card carries.
pub open spec fn card_headers(cli: Cli) -> Seq<(Seq<char>, Seq<char>)> {
    (match cli.bearer {
        Some(token) => seq![("Authorization"@, bearer_value(token@))],
        None => Seq::empty(),
    }) + (match cli.api_key {
        Some(key) => seq![("X-API-Key"@, key@)],
        None => Seq::empty(),
    }) + param_headers(cli.svc_params@)
}

fn add_header(headers: &mut Vec<(String, String)>, name: &str, value: String)
    ensures
        final(headers).deep_view() == old(headers).deep_view().push((name@, value@)),
{
    let ghost before = headers.deep_view();
    let ghost view = (name@, value@);
    headers.push((name.to_string(), value));
    assert(headers.deep_view() =~= before.push(view));
}

/// The headers that a request for the agent card carries.
pub fn apply_request_auth(cli: &Cli) -> (r: Vec<(String, String)>)
    ensures
        r.deep_view() == card_headers(*cli),
{
    let mut headers: Vec<(String, String)> = Vec::new();
    assert(headers.deep_view() =~= Seq::<(Seq<char>, Seq<char>)>::empty());
    if let Some(token) = &cli.bearer {
        let mut value = "Bearer ".to_string();
        value.append(token.as_str());
        add_header(&mut headers, "Authorization", value);
    }
    if let Some(key) = &cli.api_key {
        add_header(&mut headers, "X-API-Key", key.clone());
    }
    let ghost start = headers.deep_view();
    let ghost rest = param_headers(cli.svc_params@);
    let mut i: usize = 0;
    assert(headers.deep_view() =~= start + rest.take(0));
    while i < cli.svc_params.len()
        invariant
            i <= cli.svc_params@.len(),
            rest == param_headers(cli.svc_params@),
            headers.deep_view() == start + rest.take(i as int),
        decreases cli.svc_params@.len() - i,
    {
        let param = &cli.svc_params[i];
        add_header(&mut headers, param.name.as_str(), param.value.clone());
        proof {
            assert(rest.take(i + 1) =~= rest.take(i as int).push(rest[i as int]));
            assert(headers.deep_view() =~= start + rest.take(i + 1));
        }
        i += 1;
    }
    assert(rest.take(i as int) =~= rest);
    assert(headers.deep_view() =~= card_headers(*cli));
    headers
}

/// What is added to every call.
#[derive(Debug, PartialEq, Eq)]
pub enum CallInterceptor {
    /// A parameter, with the value that it gets.
    Param { name: String, value: String },
    /// The call is logged.
    Logging,
    /// The protocol version is signaled.
    Version(String),
}

/// What a [`CallInterceptor`] stands for.
#[verifier::ext_equal]
pub enum CallInterceptorView {
    Param { name: Seq<char>, value: Seq<char> },
    Logging,
    Version(Seq<char>),
}

impl DeepView for CallInterceptor {
    type V = CallInterceptorView;

    open spec fn deep_view(&self) -> CallInterceptorView {
        match self {
            CallInterceptor::Param { name, value } => CallInterceptorView::Param {
                name: name@,
                value: value@,
            },
            CallInterceptor::Logging => CallInterceptorView::Logging,
            CallInterceptor::Version(version) => CallInterceptorView::Version(version@),
        }
    }
}

/// What is added to every call: what the request for the card carried, the
/// logging that was asked for, and last the version that was settled on.
pub open spec fn call_interceptors(cli: Cli, version: Seq<char>) -> Seq<CallInterceptorView> {
    card_headers(cli).map_values(
        |header: (Seq<char>, Seq<char>)|
            CallInterceptorView::Param { name: header.0, value: header.1 },
    ) + (if cli.debug {
        seq![CallInterceptorView::Logging]
    } else {
        Seq::empty()
    }) + seq![CallInterceptorView::Version(version)]
}

/// Lists what is added to every call.
pub fn client_interceptors(cli: &Cli, version: String) -> (r: Vec<CallInterceptor>)
    ensures
        r.deep_view() == call_interceptors(*cli, version@),
{
    let headers = apply_request_auth(cli);
    let ghost all = card_headers(*cli);
    let ghost version_view = version@;
    let mut out: Vec<CallInterceptor> = Vec::new();
    let mut i: usize = 0;
    while i < headers.len()
        invariant
            i <= headers@.len(),
            all == headers.deep_view(),
            out@.len() == i,
            forall|k: int|
                0 <= k < i ==> (#[trigger] out@[k]).deep_view() == (CallInterceptorView::Param {
                    name: all[k].0,
                    value: all[k].1,
                }),
        decreases headers@.len() - i,
    {
        assert(all[i as int] == headers@[i as int].deep_view());
        out.push(
            CallInterceptor::Param { name: headers[i].0.clone(), value: headers[i].1.clone() },
        );
        i += 1;
    }
    if cli.debug {
        out.push(CallInterceptor::Logging);
    }
    out.push(CallInterceptor::Version(version));
    assert(out.deep_view() =~= call_interceptors(*cli, version_view));
    out
}

/// The bindings that the command line prefers, the first one most.
pub open spec fn preferred_protocols(transport: Seq<Binding>) -> Seq<Seq<char>> {
    transport.map_values(|binding: Binding| binding.spec_protocol())
}

/// The transports that there are: the ones numbered `jsonrpc` and `rest`, which
/// verify no certificates, take the place of the built-in ones where that was
/// asked for.
pub open spec fn cli_transports(insecure: bool, jsonrpc: u64, rest: u64) -> Map<
    TransportKeyView,
    TransportChoice,
> {
    let none = Map::<TransportKeyView, TransportChoice>::empty();
    factory::with_defaults(
        if insecure {
            none.insert(
                factory::transport_key(TRANSPORT_PROTOCOL_JSONRPC@, VERSION@),
                TransportChoice::Registered(jsonrpc),
            ).insert(
                factory::transport_key(TRANSPORT_PROTOCOL_HTTP_JSON@, VERSION@),
                TransportChoice::Registered(rest),
            )
        } else {
            none
        },
    )
}

/// Makes the factory that the command line asks for.
pub fn client_factory(cli: &Cli, jsonrpc: u64, rest: u64) -> (r: A2AClientFactory)
    ensures
        r.factories@ == cli_transports(cli.insecure, jsonrpc, rest),
        cli.transport@.len() > 0 ==> r.preferred_bindings.deep_view() == preferred_protocols(
            cli.transport@,
        ),
        cli.transport@.len() == 0 ==> r.preferred_bindings.deep_view() == seq![
            TRANSPORT_PROTOCOL_JSONRPC@,
            TRANSPORT_PROTOCOL_HTTP_JSON@,
        ],
        r.interceptors@.len() == 0,
{
    let mut builder = A2AClientFactory::builder();
    if cli.transport.len() > 0 {
        let mut preferred: Vec<String> = Vec::new();
        let mut i: usize = 0;
        while i < cli.transport.len()
            invariant
                i <= cli.transport@.len(),
                preferred@.len() == i,
                forall|k: int|
                    0 <= k < i ==> (#[trigger] preferred@[k])@ == cli.transport@[k].spec_protocol(),
            decreases cli.transport@.len() - i,
        {
            preferred.push(cli.transport[i].protocol().to_string());
            i += 1;
        }
        assert(preferred.deep_view() =~= preferred_protocols(cli.transport@));
        builder = builder.preferred_bindings(preferred);
    }
    if cli.insecure {
        builder = builder.register(TRANSPORT_PROTOCOL_JSONRPC, jsonrpc).register(
            TRANSPORT_PROTOCOL_HTTP_JSON,
            rest,
        );
    }
    builder.build()
}

/// The interface to connect to after the attempts that failed with
/// `failures`: in the order that the command line prefers, and without a
/// preference in the card's own order.
pub open spec fn interface_choice(
    cli: Cli,
    factories: Map<TransportKeyView, TransportChoice>,
    preferred: Seq<Seq<char>>,
    interfaces: Seq<AgentInterfaceView>,
    failures: Seq<A2AErrorView>,
) -> Result<CandidateView, A2AErrorView> {
    let found = factory::card_candidates(factories, preferred, interfaces);
    if found.len() == 0 {
        Err(factory::no_transport())
    } else if cli.transport@.len() == 0 {
        factory::next_candidate(found, failures)
    } else {
        factory::next_candidate(order::sorted::<Candidate>(found), failures)
    }
}

/// Chooses the interface to connect to after the attempts that failed with
/// `failures`.
pub fn choose_interface(
    cli: &Cli,
    factory: &A2AClientFactory,
    card: &AgentCard,
    failures: &Vec<A2AError>,
) -> (r: Result<Candidate, A2AError>)
    ensures
        factory::candidate_answer(r) == interface_choice(
            *cli,
            factory.factories@,
            factory.preferred_bindings.deep_view(),
            card.supported_interfaces.deep_view(),
            failures.deep_view(),
        ),
{
    if cli.transport.len() == 0 {
        match factory.supported_interfaces(card) {
            Ok(candidates) => factory::choose_candidate(candidates, failures),
            Err(error) => Err(error),
        }
    } else {
        factory.create_from_card_with_interface(card, failures)
    }
}

/// The tenant that requests carry: exactly the one that the interface
/// declares, and the one on the command line only where it declares none.
pub open spec fn request_tenant(flag: Option<Seq<char>>, interface: AgentInterfaceView) -> Option<
    Seq<char>,
> {
    match factory::declared_tenant(interface) {
        Some(tenant) => Some(tenant),
        None => flag,
    }
}

/// What is known of a connection.
#[derive(Debug, PartialEq, Eq)]
pub struct ResolvedClient {
    /// What is added to every call.
    pub interceptors: Vec<CallInterceptor>,
    /// What to tell about the version that was settled on.
    pub note: Option<String>,
    /// The tenant that requests carry.
    pub tenant: Option<String>,
    pub capabilities: DeclaredCapabilities,
}

/// Settles what every call over `interface` of `card` carries, and what may be
/// called.
pub fn resolve_client(cli: &Cli, card: &AgentCard, interface: &AgentInterface) -> (r: Result<
    ResolvedClient,
    CliError,
>)
    ensures
        match (reference::cli_selection(*cli), r) {
            (Err(expected), Err(error)) => error.deep_view() == expected,
            (Ok(selection), Ok(client)) => {
                let version = negotiate::negotiated(
                    cli.a2a_version.deep_view(),
                    interface.protocol_version@,
                    negotiate::own_version(),
                );
                &&& client.interceptors.deep_view() == call_interceptors(*cli, version.version)
                &&& client.note.deep_view() == version.note
                &&& client.tenant.deep_view() == request_tenant(
                    cli.tenant.deep_view(),
                    interface.deep_view(),
                )
                &&& match (selection, client.capabilities) {
                    (AgentSelectionView::Card(_), DeclaredCapabilities::Card(declared)) =>
                        declared.deep_view() == card.capabilities.deep_view(),
                    (
                        AgentSelectionView::Endpoint { .. },
                        DeclaredCapabilities::NoCard,
                    ) => true,
                    _ => false,
                }
            },
            _ => false,
        },
{
    let capabilities = match reference::resolve_agent_selection(cli) {
        Ok(AgentSelection::Endpoint { .. }) => DeclaredCapabilities::NoCard,
        Ok(AgentSelection::Card(_)) => DeclaredCapabilities::Card(card.capabilities.clone()),
        Err(error) => {
            return Err(error);
        },
    };
    let explicit = match &cli.a2a_version {
        Some(version) => Some(version.as_str()),
        None => None,
    };
    let negotiated = negotiate::negotiate_a2a_version(
        explicit,
        interface.protocol_version.as_str(),
        negotiate::supported_protocol_version(),
    );
    let tenant = match factory::interface_tenant(interface) {
        Some(tenant) => Some(tenant),
        None => match &cli.tenant {
            Some(tenant) => Some(tenant.clone()),
            None => None,
        },
    };
    Ok(
        ResolvedClient {
            interceptors: client_interceptors(cli, negotiated.version),
            note: negotiated.note,
            tenant,
            capabilities,
        },
    )
}

/// A tenant that an interface declares is never displaced by the one on the
/// command line.
pub proof fn declared_tenants_are_not_displaced(
    flag: Option<Seq<char>>,
    other: Option<Seq<char>>,
    interface: AgentInterfaceView,
)
    requires
        factory::declared_tenant(interface) is Some,
    ensures
        request_tenant(flag, interface) == factory::declared_tenant(interface),
        request_tenant(flag, interface) == request_tenant(other, interface),
{
}

/// Every call signals exactly one version, behind everything else that is
/// added to it.
pub proof fn every_call_signals_one_version(cli: Cli, version: Seq<char>, i: int)
    requires
        0 <= i < call_interceptors(cli, version).len(),
    ensures
        call_interceptors(cli, version)[i] is Version <==> i == call_interceptors(
            cli,
            version,
        ).len() - 1,
        call_interceptors(cli, version).last() == CallInterceptorView::Version(version),
{
}

/// A request for the card carries the bearer token where there is one, the API
/// key where there is one, each whatever the other is, and every service
/// parameter as it was given, in order; and nothing else.
pub proof fn card_requests_carry_every_credential(cli: Cli, r: Vec<(String, String)>, i: int)
    requires
        call_ensures(apply_request_auth, (&cli,), r),
    ensures
        ({
            let headers = r.deep_view();
            let given = cli.svc_params@;
            let first: int = if cli.bearer is Some {
                1
            } else {
                0
            };
            let second: int = if cli.api_key is Some {
                1
            } else {
                0
            };
            &&& headers.len() == first + second + given.len()
            &&& cli.bearer matches Some(token) ==> headers[0] == (
                "Authorization"@,
                "Bearer "@ + token@,
            )
            &&& cli.api_key matches Some(key) ==> headers[first] == ("X-API-Key"@, key@)
            &&& 0 <= i < given.len() ==> headers[first + second + i] == (
                given[i].name@,
                given[i].value@,
            )
        }),
{
    let headers = r.deep_view();
    assert(headers == card_headers(cli));
}

/// Every call carries what the request for the card carried, in that order, is
/// logged exactly where that was asked for, and signals the version last.
pub proof fn calls_carry_what_the_card_request_carried(
    cli: Cli,
    version: String,
    headers: Vec<(String, String)>,
    r: Vec<CallInterceptor>,
    i: int,
)
    requires
        call_ensures(apply_request_auth, (&cli,), headers),
        call_ensures(client_interceptors, (&cli, version), r),
    ensures
        ({
            let sent = headers.deep_view();
            let added = r.deep_view();
            &&& 0 <= i < sent.len() ==> added[i] == (CallInterceptorView::Param {
                name: sent[i].0,
                value: sent[i].1,
            })
            &&& cli.debug ==> added.len() == sent.len() + 2 && added[sent.len() as int] is Logging
            &&& !cli.debug ==> added.len() == sent.len() + 1
            &&& added.last() == CallInterceptorView::Version(version@)
        }),
{
    assert(r.deep_view() == call_interceptors(cli, version@));
}

/// The factory of a command line has transports for both bindings and no
/// other: the given ones where certificates are not verified, and the built-in
/// ones otherwise. It prefers the bindings in the order that they were given
/// in, if any were.
pub proof fn insecure_transports_are_used_only_on_request(
    cli: Cli,
    jsonrpc: u64,
    rest: u64,
    r: A2AClientFactory,
    key: TransportKeyView,
    i: int,
)
    requires
        call_ensures(client_factory, (&cli, jsonrpc, rest), r),
    ensures
        ({
            let major = factory::version_part(VERSION@, 0, 1);
            let known = key.major_version == major && (key.protocol == TRANSPORT_PROTOCOL_JSONRPC@
                || key.protocol == TRANSPORT_PROTOCOL_HTTP_JSON@);
            &&& r.factories@.contains_key(key) <==> known
            &&& known && cli.insecure && key.protocol == TRANSPORT_PROTOCOL_JSONRPC@
                ==> r.factories@[key] == TransportChoice::Registered(jsonrpc)
            &&& known && cli.insecure && key.protocol == TRANSPORT_PROTOCOL_HTTP_JSON@
                ==> r.factories@[key] == TransportChoice::Registered(rest)
            &&& known && !cli.insecure && key.protocol == TRANSPORT_PROTOCOL_JSONRPC@
                ==> r.factories@[key] == TransportChoice::JsonRpc
            &&& known && !cli.insecure && key.protocol == TRANSPORT_PROTOCOL_HTTP_JSON@
                ==> r.factories@[key] == TransportChoice::Rest
        }),
        cli.transport@.len() > 0 ==> r.preferred_bindings@.len() == cli.transport@.len(),
        0 <= i < cli.transport@.len() ==> {
            &&& cli.transport@[i] == Binding::Jsonrpc ==> r.preferred_bindings@[i]@
                == TRANSPORT_PROTOCOL_JSONRPC@
            &&& cli.transport@[i] == Binding::Rest ==> r.preferred_bindings@[i]@
                == TRANSPORT_PROTOCOL_HTTP_JSON@
        },
{
    reveal_strlit("JSONRPC");
    reveal_strlit("HTTP+JSON");
    assert(TRANSPORT_PROTOCOL_JSONRPC@.len() == 7);
    assert(TRANSPORT_PROTOCOL_HTTP_JSON@.len() == 9);
    if cli.transport@.len() > 0 {
        let preferred = r.preferred_bindings.deep_view();
        assert(preferred.len() == r.preferred_bindings@.len());
        if 0 <= i < cli.transport@.len() {
            assert(preferred[i] == r.preferred_bindings@[i]@);
        }
    }
}

/// Requests carry the tenant that the interface declares where it declares one
/// that is not empty, and otherwise the one on the command line.
pub proof fn tenants_come_from_the_interface_first(
    cli: Cli,
    card: AgentCard,
    interface: AgentInterface,
    client: ResolvedClient,
)
    requires
        call_ensures(resolve_client, (&cli, &card, &interface), Ok(client)),
    ensures
        ({
            let declares = interface.tenant is Some && interface.tenant->0@.len() > 0;
            &&& declares ==> client.tenant is Some && client.tenant->0@ == interface.tenant->0@
            &&& !declares ==> client.tenant.deep_view() == cli.tenant.deep_view()
        }),
{
}

/// What may be called is what the card declares, and without a card, which is
/// exactly where an endpoint was named, nothing is known of it. A command line
/// that names both, or an endpoint without exactly one transport, is refused.
pub proof fn cards_decide_about_capabilities(
    cli: Cli,
    card: AgentCard,
    interface: AgentInterface,
    r: Result<ResolvedClient, CliError>,
)
    requires
        call_ensures(resolve_client, (&cli, &card, &interface), r),
    ensures
        r is Err <==> cli.endpoint is Some && (cli.agent_card is Some || cli.transport@.len() != 1),
        r matches Err(error) ==> error is InvalidInput,
        r matches Ok(client) ==> {
            &&& client.capabilities is NoCard <==> cli.endpoint is Some
            &&& client.capabilities matches DeclaredCapabilities::Card(declared) ==> {
                &&& declared.streaming == card.capabilities.streaming
                &&& declared.push_notifications == card.capabilities.push_notifications
                &&& declared.extended_agent_card == card.capabilities.extended_agent_card
            }
        },
{
}

/// The version that a connection settles on is what every call signals; one
/// that was asked for is signaled as it was written.
pub proof fn settled_versions_are_signaled(
    cli: Cli,
    card: AgentCard,
    interface: AgentInterface,
    own: (u32, u32),
    settled: NegotiatedVersion,
    explicit: Option<&str>,
    declared: &str,
    client: ResolvedClient,
)
    requires
        call_ensures(resolve_client, (&cli, &card, &interface), Ok(client)),
        call_ensures(negotiate::supported_protocol_version, (), own),
        declared@ == interface.protocol_version@,
        explicit.deep_view() == cli.a2a_version.deep_view(),
        call_ensures(negotiate::negotiate_a2a_version, (explicit, declared, own), settled),
    ensures
        client.interceptors.deep_view().last() == CallInterceptorView::Version(settled.version@),
        client.note.deep_view() == settled.note.deep_view(),
        cli.a2a_version matches Some(version) ==> client.interceptors.deep_view().last()
            == CallInterceptorView::Version(version@),
{
}

/// Without a preference the first interface on the card that there is a
/// transport for is the one to connect to, and with one it is the one that the
/// factory prefers.
pub proof fn interfaces_are_chosen_by_the_card_or_the_preference(
    cli: Cli,
    factory: A2AClientFactory,
    card: AgentCard,
    failures: Vec<A2AError>,
    preferred: Result<Candidate, A2AError>,
    r: Result<Candidate, A2AError>,
    k: int,
)
    requires
        call_ensures(choose_interface, (&cli, &factory, &card, &failures), r),
        call_ensures(
            A2AClientFactory::create_from_card_with_interface,
            (&factory, &card, &failures),
            preferred,
        ),
    ensures
        cli.transport@.len() > 0 ==> factory::candidate_answer(r) == factory::candidate_answer(
            preferred,
        ),
        ({
            let interfaces = card.supported_interfaces.deep_view();
            let usable = |interface: AgentInterfaceView|
                factory.factories@.contains_key(
                    factory::transport_key(interface.protocol_binding, interface.protocol_version),
                );
            cli.transport@.len() == 0 && failures@.len() == 0 && 0 <= k < interfaces.len() && usable(
                interfaces[k],
            ) && (forall|j: int| 0 <= j < k ==> !usable(#[trigger] interfaces[j])) ==> (
            r matches Ok(chosen) && chosen.interface.deep_view() == interfaces[k])
        }),
{
    let interfaces = card.supported_interfaces.deep_view();
    let usable = |interface: AgentInterfaceView|
        factory.factories@.contains_key(
            factory::transport_key(interface.protocol_binding, interface.protocol_version),
        );
    assert(failures.deep_view().len() == failures@.len());
    if 0 <= k < interfaces.len() && usable(interfaces[k]) && (forall|j: int|
        0 <= j < k ==> !usable(#[trigger] interfaces[j])) {
        lemma_first_candidate(
            factory.factories@,
            factory.preferred_bindings.deep_view(),
            interfaces,
            k,
        );
    }
}

proof fn lemma_first_candidate(
    factories: Map<TransportKeyView, TransportChoice>,
    preferred: Seq<Seq<char>>,
    interfaces: Seq<AgentInterfaceView>,
    k: int,
)
    requires
        0 <= k <= interfaces.len(),
        k < interfaces.len() ==> factory::candidate(factories, preferred, interfaces[k]) is Some,
        forall|j: int|
            0 <= j < k ==> factory::candidate(factories, preferred, #[trigger] interfaces[j])
                is None,
    ensures
        k < interfaces.len() ==> factory::card_candidates(factories, preferred, interfaces).len()
            > 0 && factory::card_candidates(factories, preferred, interfaces)[0].interface
            == interfaces[k],
        k == interfaces.len() ==> factory::card_candidates(factories, preferred, interfaces).len()
            == 0,
    decreases interfaces.len(),
{
    if interfaces.len() > 0 {
        let init = interfaces.drop_last();
        assert forall|j: int| 0 <= j < init.len() implies init[j] == interfaces[j] by {}
        if k < interfaces.len() {
            lemma_first_candidate(factories, preferred, init, k);
        } else {
            lemma_first_candidate(factories, preferred, init, k - 1);
            assert(factory::candidate(factories, preferred, interfaces[k - 1]) is None);
        }
    }
}

/// Connections whose certificates are not verified are warned about, whatever
/// else was asked for, and no other connection is. The warning is another one
/// where a credential is sent, of either kind.
pub proof fn insecure_connections_are_warned_about(
    cli: Cli,
    other: Cli,
    r: Option<String>,
    warning: Option<String>,
)
    requires
        call_ensures(warn_if_insecure_with_credentials, (&cli,), r),
        call_ensures(warn_if_insecure_with_credentials, (&other,), warning),
    ensures
        r is Some <==> cli.insecure,
        cli.insecure && other.insecure ==> (r.deep_view() == warning.deep_view() <==> (
        cli.bearer is Some || cli.api_key is Some) == (other.bearer is Some || other.api_key is Some)),
{
    reveal_strlit(
        "--insecure disables TLS certificate verification, and a credential (--bearer/--api-key) is being sent over this connection \u{2014} use only against a trusted development endpoint",
    );
    reveal_strlit(
        "--insecure disables TLS certificate verification \u{2014} use only against a trusted development endpoint",
    );
    assert("--insecure disables TLS certificate verification, and a credential (--bearer/--api-key) is being sent over this connection \u{2014} use only against a trusted development endpoint"@.len()
        > "--insecure disables TLS certificate verification \u{2014} use only against a trusted development endpoint"@.len());
}

/// Without a preference the interfaces are tried one after the other, in the
/// order in which the card can be connected to.
pub proof fn interfaces_are_tried_in_the_order_of_the_card(
    cli: Cli,
    factory: A2AClientFactory,
    card: AgentCard,
    failures: Vec<A2AError>,
    candidates: Vec<Candidate>,
    chosen: Result<Candidate, A2AError>,
    r: Result<Candidate, A2AError>,
)
    requires
        cli.transport@.len() == 0,
        call_ensures(choose_interface, (&cli, &factory, &card, &failures), r),
        call_ensures(A2AClientFactory::supported_interfaces, (&factory, &card), Ok(candidates)),
        call_ensures(factory::choose_candidate, (candidates, &failures), chosen),
    ensures
        factory::candidate_answer(r) == factory::candidate_answer(chosen),
{
}

/// Where the card comes from: from the named file or URL, and where an
/// endpoint was named from nowhere, with that endpoint as its one interface.
pub proof fn cards_come_from_what_was_named(cli: Cli, exists: bool, r: Result<CardSource, CliError>)
    requires
        call_ensures(resolve_agent_card, (&cli, exists), r),
    ensures
        cli.endpoint is None ==> {
            let named = if cli.agent_card is Some {
                cli.agent_card->0@
            } else {
                cli.base_url@
            };
            match reference::card_location(named, exists) {
                CardReferenceView::File(path) => r matches Ok(CardSource::File(place)) && place@
                    == path,
                CardReferenceView::Url(url) => r matches Ok(CardSource::Url(place)) && place@
                    == url,
            }
        },
        cli.endpoint matches Some(endpoint) ==> {
            let usable = cli.agent_card is None && cli.transport@.len() == 1;
            &&& !usable ==> (r matches Err(CliError::InvalidInput(_)))
            &&& usable ==> (r matches Ok(CardSource::Synthesized(card)) && {
                let interfaces = card.deep_view().supported_interfaces;
                &&& interfaces.len() == 1
                &&& interfaces[0].url == endpoint@
                &&& interfaces[0].protocol_binding == cli.transport@[0].spec_protocol()
            })
        },
{
}

/// A card file that cannot be read fails with its path and the reason; one
/// that is no JSON is no card; and any other is the document that it holds.
pub proof fn card_files_hold_documents(
    path: &str,
    contents: Result<String, String>,
    r: Result<Json, CliError>,
)
    requires
        call_ensures(read_agent_card_file, (path, contents), r),
    ensures
        contents matches Err(reason) ==> (r matches Err(CliError::CardFile {
            path: named,
            reason: told,
        }) && named@ == path@ && told@ == reason@),
        contents matches Ok(text) ==> {
            &&& json::read_json(text@) is Err ==> (r matches Err(CliError::CardInvalid(_)))
            &&& json::read_json(text@) matches Ok(document) ==> (r matches Ok(held)
                && held.deep_view() == document)
        },
{
}

} // verus!
