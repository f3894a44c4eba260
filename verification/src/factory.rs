//! Which of an agent's interfaces to connect to, and in which order to try.

use vstd::prelude::*;

use crate::error_code;
use crate::order;
use crate::order::Ranked;
use crate::protocol::{
    A2AError, A2AErrorView, AgentCard, AgentInterface, AgentInterfaceView,
    TRANSPORT_PROTOCOL_HTTP_JSON, TRANSPORT_PROTOCOL_JSONRPC, VERSION,
};
use crate::replica::Replica;
use crate::text;

verus! {

/// The number that the dotted part `i` of `version` spells, or `fallback`.
pub open spec fn version_part(version: Seq<char>, i: int, fallback: u64) -> u64 {
    let parts = text::pieces(version, '.');
    if i < parts.len() {
        match text::parsed(parts[i], u64::MAX as nat) {
            Some(n) => n as u64,
            None => fallback,
        }
    } else {
        fallback
    }
}

fn read_version_part(version: &str, i: usize, fallback: u64) -> (r: u64)
    ensures
        r == version_part(version@, i as int, fallback),
{
    let parts = text::split(version, '.');
    assert(parts@.len() == text::pieces(version@, '.').len());
    if i < parts.len() {
        assert(text::pieces(version@, '.')[i as int] == parts@[i as int]@);
        match text::parse_unsigned(parts[i].as_str(), u64::MAX) {
            Some(n) => n,
            None => fallback,
        }
    } else {
        fallback
    }
}

/// What transports are known by: a protocol binding, and the major version of
/// the protocol.
#[derive(Debug, PartialEq, Eq)]
pub struct TransportKey {
    pub protocol: String,
    pub major_version: u64,
}

/// What a [`TransportKey`] stands for.
#[verifier::ext_equal]
pub struct TransportKeyView {
    pub protocol: Seq<char>,
    pub major_version: u64,
}

impl DeepView for TransportKey {
    type V = TransportKeyView;

    open spec fn deep_view(&self) -> TransportKeyView {
        TransportKeyView { protocol: self.protocol@, major_version: self.major_version }
    }
}

/// The key of a protocol binding in a protocol version; a version that is not
/// spelled like one counts as 1.
pub open spec fn transport_key(protocol: Seq<char>, version: Seq<char>) -> TransportKeyView {
    TransportKeyView { protocol, major_version: version_part(version, 0, 1) }
}

impl TransportKey {
    /// The key of an interface.
    pub fn from_interface(iface: &AgentInterface) -> (r: TransportKey)
        ensures
            r.deep_view() == transport_key(iface.protocol_binding@, iface.protocol_version@),
    {
        TransportKey {
            protocol: iface.protocol_binding.clone(),
            major_version: read_version_part(iface.protocol_version.as_str(), 0, 1),
        }
    }

    /// The key of a protocol binding in a protocol version.
    pub fn from_protocol(protocol: &str, version: &str) -> (r: TransportKey)
        ensures
            r.deep_view() == transport_key(protocol@, version@),
    {
        TransportKey {
            protocol: protocol.to_string(),
            major_version: read_version_part(version, 0, 1),
        }
    }

    fn same(&self, other: &TransportKey) -> (r: bool)
        ensures
            r == (self.deep_view() == other.deep_view()),
    {
        self.major_version == other.major_version && self.protocol == other.protocol
    }
}

/// A way to make connections.
#[derive(Debug, Clone, Copy, PartialEq, Eq, Structural)]
pub enum TransportChoice {
    /// The built-in JSON-RPC transport.
    JsonRpc,
    /// The built-in HTTP+JSON transport.
    Rest,
    /// The transport that was registered under this number.
    Registered(u64),
}

impl DeepView for TransportChoice {
    type V = TransportChoice;

    open spec fn deep_view(&self) -> TransportChoice {
        *self
    }
}

/// Transports by key.
pub struct Registry {
    entries: Vec<(TransportKey, TransportChoice)>,
}

spec fn registry_holds(
    entries: Seq<(TransportKey, TransportChoice)>,
    key: TransportKeyView,
) -> bool {
    exists|i: int| 0 <= i < entries.len() && (#[trigger] entries[i]).0.deep_view() == key
}

spec fn registry_slot(
    entries: Seq<(TransportKey, TransportChoice)>,
    key: TransportKeyView,
) -> int {
    choose|i: int| 0 <= i < entries.len() && (#[trigger] entries[i]).0.deep_view() == key
}

spec fn registry_distinct(entries: Seq<(TransportKey, TransportChoice)>) -> bool {
    forall|i: int, j: int|
        0 <= i < j < entries.len() ==> (#[trigger] entries[i]).0.deep_view() != (
        #[trigger] entries[j]).0.deep_view()
}

impl View for Registry {
    type V = Map<TransportKeyView, TransportChoice>;

    closed spec fn view(&self) -> Map<TransportKeyView, TransportChoice> {
        Map::new(
            |key: TransportKeyView| registry_holds(self.entries@, key),
            |key: TransportKeyView| self.entries@[registry_slot(self.entries@, key)].1,
        )
    }
}

impl Registry {
    #[verifier::type_invariant]
    spec fn well_formed(self) -> bool {
        registry_distinct(self.entries@)
    }

    /// How many keys there are.
    pub closed spec fn size(self) -> nat {
        self.entries@.len()
    }

    fn new() -> (r: Self)
        ensures
            r@ == Map::<TransportKeyView, TransportChoice>::empty(),
            r.size() == 0,
    {
        let r = Registry { entries: Vec::new() };
        assert(r@ =~= Map::<TransportKeyView, TransportChoice>::empty());
        r
    }

    /// How many keys there are.
    pub fn len(&self) -> (r: usize)
        ensures
            r == self.size(),
            r == 0 <==> self@ == Map::<TransportKeyView, TransportChoice>::empty(),
    {
        proof {
            if self.entries@.len() > 0 {
                let key = self.entries@[0].0.deep_view();
                assert(registry_holds(self.entries@, key));
                assert(self@.contains_key(key));
            } else {
                assert(self@ =~= Map::<TransportKeyView, TransportChoice>::empty());
            }
        }
        self.entries.len()
    }

    fn position(&self, key: &TransportKey) -> (r: Option<usize>)
        ensures
            r.is_some() == self@.contains_key(key.deep_view()),
            r matches Some(i) ==> i < self.entries@.len() && self.entries@[i as int].0.deep_view()
                == key.deep_view() && self.entries@[i as int].1 == self@[key.deep_view()],
    {
        proof {
            use_type_invariant(self);
        }
        let mut i: usize = 0;
        while i < self.entries.len()
            invariant
                i <= self.entries@.len(),
                registry_distinct(self.entries@),
                forall|k: int|
                    0 <= k < i ==> (#[trigger] self.entries@[k]).0.deep_view() != key.deep_view(),
            decreases self.entries@.len() - i,
        {
            if self.entries[i].0.same(key) {
                proof {
                    let j = registry_slot(self.entries@, key.deep_view());
                    assert(self.entries@[i as int].0.deep_view() == key.deep_view());
                    assert(self.entries@[j].0.deep_view() == key.deep_view());
                    assert(i == j);
                }
                return Some(i);
            }
            i += 1;
        }
        None
    }

    /// The transport of `key`.
    pub fn get(&self, key: &TransportKey) -> (r: Option<TransportChoice>)
        ensures
            r == (if self@.contains_key(key.deep_view()) {
                Some(self@[key.deep_view()])
            } else {
                None
            }),
    {
        match self.position(key) {
            Some(i) => Some(self.entries[i].1),
            None => None,
        }
    }

    fn insert(&mut self, key: TransportKey, choice: TransportChoice)
        ensures
            final(self)@ == old(self)@.insert(key.deep_view(), choice),
            final(self).size() == old(self).size() + (if old(self)@.contains_key(
                key.deep_view(),
            ) {
                0int
            } else {
                1
            }),
    {
        let known = self.position(&key);
        proof {
            use_type_invariant(&*self);
        }
        let mut entries: Vec<(TransportKey, TransportChoice)> = Vec::new();
        std::mem::swap(&mut entries, &mut self.entries);
        let ghost before = entries@;
        let ghost k = key.deep_view();
        let ghost map = old(self)@;
        match known {
            Some(i) => {
                entries.set(i, (key, choice));
                proof {
                    assert forall|a: int| 0 <= a < before.len() implies (
                    #[trigger] entries@[a]).0.deep_view() == before[a].0.deep_view() by {}
                    assert(registry_distinct(entries@)) by {
                        assert forall|a: int, b: int| 0 <= a < b < entries@.len() implies (
                        #[trigger] entries@[a]).0.deep_view() != (
                        #[trigger] entries@[b]).0.deep_view() by {
                            assert(before[a].0.deep_view() != before[b].0.deep_view());
                        }
                    }
                }
            },
            None => {
                entries.push((key, choice));
                proof {
                    assert forall|a: int| 0 <= a < before.len() implies (
                    #[trigger] before[a]).0.deep_view() != k by {
                        if before[a].0.deep_view() == k {
                            assert(registry_holds(before, k));
                        }
                    }
                    assert(registry_distinct(entries@)) by {
                        assert forall|a: int, b: int| 0 <= a < b < entries@.len() implies (
                        #[trigger] entries@[a]).0.deep_view() != (
                        #[trigger] entries@[b]).0.deep_view() by {
                            assert(entries@[a] == before[a]);
                            if b < before.len() {
                                assert(entries@[b] == before[b]);
                            }
                        }
                    }
                }
            },
        }
        self.entries = entries;
        proof {
            let after = self.entries@;
            let goal = map.insert(k, choice);
            let at = match known {
                Some(i) => i as int,
                None => before.len() as int,
            };
            assert(after[at].0.deep_view() == k);
            assert forall|x: TransportKeyView| self@.contains_key(x) == goal.contains_key(x) by {
                if registry_holds(after, x) {
                    let a = registry_slot(after, x);
                    if a < before.len() {
                        assert(before[a].0.deep_view() == x);
                    }
                }
                if registry_holds(before, x) {
                    let a = registry_slot(before, x);
                    assert(after[a].0.deep_view() == x);
                }
            }
            assert forall|x: TransportKeyView| self@.contains_key(x) implies self@[x]
                == goal[x] by {
                let a = registry_slot(after, x);
                assert(after[a].0.deep_view() == x);
                if x == k {
                    assert(a == at);
                } else {
                    assert(a != at);
                    assert(before[a].0.deep_view() == x);
                    let b = registry_slot(before, x);
                    assert(before[b].0.deep_view() == x);
                    assert(a == b);
                }
            }
            assert(self@ =~= goal);
        }
    }
}

/// An interface that can be connected to.
pub struct Candidate {
    pub interface: AgentInterface,
    pub transport: TransportChoice,
    /// The place of its binding among the preferred ones; the last place of
    /// all when it is not among them.
    pub priority: usize,
    pub major: u64,
    pub minor: u64,
}

/// What a [`Candidate`] stands for.
#[verifier::ext_equal]
pub struct CandidateView {
    pub interface: AgentInterfaceView,
    pub transport: TransportChoice,
    pub priority: usize,
    pub major: u64,
    pub minor: u64,
}

impl DeepView for Candidate {
    type V = CandidateView;

    open spec fn deep_view(&self) -> CandidateView {
        CandidateView {
            interface: self.interface.deep_view(),
            transport: self.transport,
            priority: self.priority,
            major: self.major,
            minor: self.minor,
        }
    }
}

/// Whether version `a` is newer than version `b`.
pub open spec fn is_newer(a: (u64, u64), b: (u64, u64)) -> bool {
    a.0 > b.0 || (a.0 == b.0 && a.1 > b.1)
}

impl Ranked for Candidate {
    /// The client's preference comes first, then the newer version.
    open spec fn ranks(a: CandidateView, b: CandidateView) -> bool {
        if a.priority == b.priority {
            !is_newer((b.major, b.minor), (a.major, a.minor))
        } else {
            a.priority < b.priority
        }
    }

    proof fn ranks_total(a: CandidateView, b: CandidateView) {
    }

    proof fn ranks_transitive(a: CandidateView, b: CandidateView, c: CandidateView) {
    }

    fn may_precede(&self, other: &Self) -> (r: bool) {
        if self.priority == other.priority {
            !(other.major > self.major || (other.major == self.major && other.minor > self.minor))
        } else {
            self.priority < other.priority
        }
    }
}

/// Where `binding` stands among the preferred ones.
pub open spec fn preference(preferred: Seq<Seq<char>>, binding: Seq<char>) -> usize
    decreases preferred.len(),
{
    if preferred.len() == 0 {
        usize::MAX
    } else if preference(preferred.drop_last(), binding) < usize::MAX {
        preference(preferred.drop_last(), binding)
    } else if preferred.last() == binding {
        (preferred.len() - 1) as usize
    } else {
        usize::MAX
    }
}

fn find_preference(preferred: &Vec<String>, binding: &str) -> (r: usize)
    ensures
        r == preference(preferred.deep_view(), binding@),
{
    let ghost all = preferred.deep_view();
    let mut r: usize = usize::MAX;
    let mut i: usize = 0;
    assert(all.take(0) =~= Seq::<Seq<char>>::empty());
    while i < preferred.len()
        invariant
            i <= preferred@.len(),
            all == preferred.deep_view(),
            r == preference(all.take(i as int), binding@),
        decreases preferred@.len() - i,
    {
        assert(all.take(i + 1).drop_last() =~= all.take(i as int));
        assert(all.take(i + 1).last() == preferred@[i as int]@);
        if r == usize::MAX && text::same(preferred[i].as_str(), binding) {
            r = i;
        }
        i += 1;
    }
    assert(all.take(i as int) =~= all);
    r
}

/// The interface as a candidate, if a transport is registered for it.
pub open spec fn candidate(
    factories: Map<TransportKeyView, TransportChoice>,
    preferred: Seq<Seq<char>>,
    interface: AgentInterfaceView,
) -> Option<CandidateView> {
    let key = transport_key(interface.protocol_binding, interface.protocol_version);
    if factories.contains_key(key) {
        Some(
            CandidateView {
                interface,
                transport: factories[key],
                priority: preference(preferred, interface.protocol_binding),
                major: version_part(interface.protocol_version, 0, 1),
                minor: version_part(interface.protocol_version, 1, 0),
            },
        )
    } else {
        None
    }
}

/// The interfaces that can be connected to, in the order of the card.
pub open spec fn card_candidates(
    factories: Map<TransportKeyView, TransportChoice>,
    preferred: Seq<Seq<char>>,
    interfaces: Seq<AgentInterfaceView>,
) -> Seq<CandidateView>
    decreases interfaces.len(),
{
    if interfaces.len() == 0 {
        Seq::empty()
    } else {
        let head = card_candidates(factories, preferred, interfaces.drop_last());
        match candidate(factories, preferred, interfaces.last()) {
            Some(found) => head.push(found),
            None => head,
        }
    }
}

/// The error of a card whose interfaces cannot be connected to.
pub open spec fn no_transport() -> A2AErrorView {
    A2AErrorView {
        code: error_code::UNSUPPORTED_OPERATION,
        message: "no compatible transport found for agent card interfaces"@,
    }
}

/// Makes clients: which transports there are, and which are preferred.
pub struct A2AClientFactory {
    pub factories: Registry,
    pub preferred_bindings: Vec<String>,
    /// The numbers of the call interceptors that every client gets.
    pub interceptors: Vec<u64>,
}

impl A2AClientFactory {
    /// Starts from the built-in transports, JSON-RPC preferred.
    pub fn builder() -> (r: A2AClientFactoryBuilder)
        ensures
            r.factories@ == Map::<TransportKeyView, TransportChoice>::empty(),
            r.preferred_bindings.deep_view() == seq![
                TRANSPORT_PROTOCOL_JSONRPC@,
                TRANSPORT_PROTOCOL_HTTP_JSON@,
            ],
            r.interceptors@.len() == 0,
            r.include_defaults,
    {
        A2AClientFactoryBuilder::new()
    }

    /// The interfaces of `card` that can be connected to, in the order of the
    /// card.
    pub fn supported_interfaces(&self, card: &AgentCard) -> (r: Result<Vec<Candidate>, A2AError>)
        ensures
            ({
                let found = card_candidates(
                    self.factories@,
                    self.preferred_bindings.deep_view(),
                    card.supported_interfaces.deep_view(),
                );
                match r {
                    Ok(candidates) => found.len() > 0 && candidates.deep_view() == found,
                    Err(error) => found.len() == 0 && error.deep_view() == no_transport(),
                }
            }),
    {
        let ghost all = card.supported_interfaces.deep_view();
        let ghost preferred = self.preferred_bindings.deep_view();
        let mut candidates: Vec<Candidate> = Vec::new();
        let mut i: usize = 0;
        assert(all.take(0) =~= Seq::<AgentInterfaceView>::empty());
        assert(candidates.deep_view() =~= Seq::<CandidateView>::empty());
        while i < card.supported_interfaces.len()
            invariant
                i <= card.supported_interfaces@.len(),
                all == card.supported_interfaces.deep_view(),
                preferred == self.preferred_bindings.deep_view(),
                candidates.deep_view() == card_candidates(
                    self.factories@,
                    preferred,
                    all.take(i as int),
                ),
            decreases card.supported_interfaces@.len() - i,
        {
            let iface = &card.supported_interfaces[i];
            proof {
                assert(all.take(i + 1).drop_last() =~= all.take(i as int));
                assert(all.take(i + 1).last() == iface.deep_view());
            }
            let key = TransportKey::from_interface(iface);
            if let Some(transport) = self.factories.get(&key) {
                let ghost before = candidates.deep_view();
                let found = Candidate {
                    interface: iface.clone(),
                    transport,
                    priority: find_preference(
                        &self.preferred_bindings,
                        iface.protocol_binding.as_str(),
                    ),
                    major: key.major_version,
                    minor: read_version_part(iface.protocol_version.as_str(), 1, 0),
                };
                let ghost view = found.deep_view();
                candidates.push(found);
                assert(candidates.deep_view() =~= before.push(view));
            }
            i += 1;
        }
        assert(all.take(i as int) =~= all);
        assert(candidates@.len() == candidates.deep_view().len());
        if candidates.len() == 0 {
            return Err(
                A2AError::unsupported_operation(
                    "no compatible transport found for agent card interfaces",
                ),
            );
        }
        Ok(candidates)
    }

    /// The interfaces of `card` to try, best first: by the client's
    /// preference, then by the newest version, then in the order of the card.
    pub fn create_from_card(&self, card: &AgentCard) -> (r: Result<Vec<Candidate>, A2AError>)
        ensures
            ({
                let found = card_candidates(
                    self.factories@,
                    self.preferred_bindings.deep_view(),
                    card.supported_interfaces.deep_view(),
                );
                match r {
                    Ok(ranked) => found.len() > 0 && ranked.deep_view() == order::sorted::<
                        Candidate,
                    >(found) && ranked@.len() == found.len(),
                    Err(error) => found.len() == 0 && error.deep_view() == no_transport(),
                }
            }),
    {
        let candidates = match self.supported_interfaces(card) {
            Ok(candidates) => candidates,
            Err(error) => {
                return Err(error);
            },
        };
        proof {
            order::sorted_is_ordered_rearrangement::<Candidate>(candidates.deep_view());
        }
        let ranked = order::sort(candidates);
        assert(ranked@.len() == ranked.deep_view().len());
        Ok(ranked)
    }

    /// The interface of `card` to connect to after the attempts that failed
    /// with `failures`, in the order of [`Self::create_from_card`]; once every
    /// attempt failed, the last failure.
    pub fn create_from_card_with_interface(
        &self,
        card: &AgentCard,
        failures: &Vec<A2AError>,
    ) -> (r: Result<Candidate, A2AError>)
        ensures
            ({
                let found = card_candidates(
                    self.factories@,
                    self.preferred_bindings.deep_view(),
                    card.supported_interfaces.deep_view(),
                );
                candidate_answer(r) == if found.len() == 0 {
                    Err(no_transport())
                } else {
                    next_candidate(order::sorted::<Candidate>(found), failures.deep_view())
                }
            }),
    {
        match self.create_from_card(card) {
            Ok(ranked) => choose_candidate(ranked, failures),
            Err(error) => Err(error),
        }
    }
}

/// What the choice of a candidate stands for.
pub open spec fn candidate_answer(r: Result<Candidate, A2AError>) -> Result<
    CandidateView,
    A2AErrorView,
> {
    match r {
        Ok(candidate) => Ok(candidate.deep_view()),
        Err(error) => Err(error.deep_view()),
    }
}

/// The candidate to try after as many as there are failures, or the last
/// failure.
pub open spec fn next_candidate(
    candidates: Seq<CandidateView>,
    failures: Seq<A2AErrorView>,
) -> Result<CandidateView, A2AErrorView> {
    if failures.len() < candidates.len() {
        Ok(candidates[failures.len() as int])
    } else if failures.len() > 0 {
        Err(failures.last())
    } else {
        Err(
            A2AErrorView {
                code: error_code::INTERNAL_ERROR,
                message: "failed to create transport"@,
            },
        )
    }
}

/// Chooses the candidate to try after the attempts that failed with
/// `failures`.
pub fn choose_candidate(candidates: Vec<Candidate>, failures: &Vec<A2AError>) -> (r: Result<
    Candidate,
    A2AError,
>)
    ensures
        candidate_answer(r) == next_candidate(candidates.deep_view(), failures.deep_view()),
{
    let mut candidates = candidates;
    let at: usize = failures.len();
    assert(candidates.deep_view().len() == candidates@.len());
    assert(failures.deep_view().len() == failures@.len());
    if at < candidates.len() {
        assert(candidates.deep_view()[at as int] == candidates@[at as int].deep_view());
        Ok(candidates.remove(at))
    } else if at > 0 {
        assert(failures.deep_view().last() == failures@[at - 1].deep_view());
        Err(failures[at - 1].clone())
    } else {
        Err(A2AError::internal("failed to create transport"))
    }
}

/// The tenant that an interface declares. An empty one is the default of an
/// unset field, so it counts as none.
pub open spec fn declared_tenant(interface: AgentInterfaceView) -> Option<Seq<char>> {
    match interface.tenant {
        Some(tenant) => if tenant.len() > 0 {
            Some(tenant)
        } else {
            None
        },
        None => None,
    }
}

/// The tenant that requests over an interface carry: what it declares.
pub fn interface_tenant(interface: &AgentInterface) -> (r: Option<String>)
    ensures
        r.deep_view() == declared_tenant(interface.deep_view()),
{
    match &interface.tenant {
        Some(tenant) => if tenant.as_str().unicode_len() > 0 {
            Some(tenant.clone())
        } else {
            None
        },
        None => None,
    }
}

/// Prepares an [`A2AClientFactory`].
pub struct A2AClientFactoryBuilder {
    pub factories: Registry,
    pub preferred_bindings: Vec<String>,
    pub interceptors: Vec<u64>,
    pub include_defaults: bool,
}

/// `factories` with the built-in transports where no other is registered.
pub open spec fn with_defaults(factories: Map<TransportKeyView, TransportChoice>) -> Map<
    TransportKeyView,
    TransportChoice,
> {
    let jsonrpc = transport_key(TRANSPORT_PROTOCOL_JSONRPC@, VERSION@);
    let rest = transport_key(TRANSPORT_PROTOCOL_HTTP_JSON@, VERSION@);
    let first = if factories.contains_key(jsonrpc) {
        factories
    } else {
        factories.insert(jsonrpc, TransportChoice::JsonRpc)
    };
    if first.contains_key(rest) {
        first
    } else {
        first.insert(rest, TransportChoice::Rest)
    }
}

impl A2AClientFactoryBuilder {
    fn new() -> (r: Self)
        ensures
            r.factories@ == Map::<TransportKeyView, TransportChoice>::empty(),
            r.preferred_bindings.deep_view() == seq![
                TRANSPORT_PROTOCOL_JSONRPC@,
                TRANSPORT_PROTOCOL_HTTP_JSON@,
            ],
            r.interceptors@.len() == 0,
            r.include_defaults,
    {
        let mut preferred_bindings: Vec<String> = Vec::new();
        preferred_bindings.push(TRANSPORT_PROTOCOL_JSONRPC.to_string());
        preferred_bindings.push(TRANSPORT_PROTOCOL_HTTP_JSON.to_string());
        assert(preferred_bindings.deep_view() =~= seq![
            TRANSPORT_PROTOCOL_JSONRPC@,
            TRANSPORT_PROTOCOL_HTTP_JSON@,
        ]);
        A2AClientFactoryBuilder {
            factories: Registry::new(),
            preferred_bindings,
            interceptors: Vec::new(),
            include_defaults: true,
        }
    }

    /// Registers the transport `number` for a protocol binding.
    pub fn register(self, protocol: &str, number: u64) -> (r: Self)
        ensures
            r.factories@ == self.factories@.insert(
                transport_key(protocol@, VERSION@),
                TransportChoice::Registered(number),
            ),
            r.preferred_bindings == self.preferred_bindings,
            r.interceptors == self.interceptors,
            r.include_defaults == self.include_defaults,
    {
        let mut builder = self;
        let key = TransportKey::from_protocol(protocol, VERSION);
        builder.factories.insert(key, TransportChoice::Registered(number));
        builder
    }

    /// Prefers `bindings`, the first one most.
    pub fn preferred_bindings(self, bindings: Vec<String>) -> (r: Self)
        ensures
            r.preferred_bindings == bindings,
            r.factories@ == self.factories@,
            r.interceptors == self.interceptors,
            r.include_defaults == self.include_defaults,
    {
        let mut builder = self;
        builder.preferred_bindings = bindings;
        builder
    }

    /// Adds the call interceptor `number`.
    pub fn with_interceptor(self, number: u64) -> (r: Self)
        ensures
            r.interceptors@ == self.interceptors@.push(number),
            r.factories@ == self.factories@,
            r.preferred_bindings == self.preferred_bindings,
            r.include_defaults == self.include_defaults,
    {
        let mut builder = self;
        builder.interceptors.push(number);
        builder
    }

    /// Leaves the built-in transports out.
    pub fn no_defaults(self) -> (r: Self)
        ensures
            !r.include_defaults,
            r.factories@ == self.factories@,
            r.preferred_bindings == self.preferred_bindings,
            r.interceptors == self.interceptors,
    {
        let mut builder = self;
        builder.include_defaults = false;
        builder
    }

    /// Finishes the factory. A registered transport takes the place of the
    /// built-in one.
    pub fn build(self) -> (r: A2AClientFactory)
        ensures
            r.factories@ == (if self.include_defaults {
                with_defaults(self.factories@)
            } else {
                self.factories@
            }),
            r.preferred_bindings == self.preferred_bindings,
            r.interceptors == self.interceptors,
    {
        let mut factories = self.factories;
        if self.include_defaults {
            let jsonrpc = TransportKey::from_protocol(TRANSPORT_PROTOCOL_JSONRPC, VERSION);
            if factories.get(&jsonrpc).is_none() {
                factories.insert(jsonrpc, TransportChoice::JsonRpc);
            }
            let rest = TransportKey::from_protocol(TRANSPORT_PROTOCOL_HTTP_JSON, VERSION);
            if factories.get(&rest).is_none() {
                factories.insert(rest, TransportChoice::Rest);
            }
        }
        A2AClientFactory {
            factories,
            preferred_bindings: self.preferred_bindings,
            interceptors: self.interceptors,
        }
    }
}

/// The first interface to try is one that nothing on the card outranks: no
/// interface that can be connected to has a binding that the client prefers,
/// nor an equally preferred one with a newer version.
pub proof fn the_first_attempt_is_the_best(found: Seq<CandidateView>, i: int)
    requires
        0 <= i < found.len(),
    ensures
        order::sorted::<Candidate>(found).len() == found.len(),
        Candidate::ranks(order::sorted::<Candidate>(found)[0], found[i]),
        found.contains(order::sorted::<Candidate>(found)[0]),
{
    let s = order::sorted::<Candidate>(found);
    order::sorted_is_ordered_rearrangement::<Candidate>(found);
    assert(found.contains(found[i]));
    order::lemma_same_multiset_same_members(s, found, found[i]);
    order::lemma_same_multiset_same_members(s, found, s[0]);
    assert(s.contains(s[0]));
    let k = choose|k: int| 0 <= k < s.len() && s[k] == found[i];
    assert(k > 0 ==> Candidate::ranks(s[0], s[k]));
}

proof fn lemma_preference(preferred: Seq<Seq<char>>, binding: Seq<char>)
    requires
        preferred.len() <= usize::MAX,
    ensures
        ({
            let p = preference(preferred, binding);
            &&& p == usize::MAX ==> !preferred.contains(binding)
            &&& p < usize::MAX ==> p < preferred.len() && preferred[p as int] == binding
            &&& forall|k: int| 0 <= k < p && k < preferred.len() ==> #[trigger] preferred[k]
                != binding
        }),
    decreases preferred.len(),
{
    if preferred.len() > 0 {
        let init = preferred.drop_last();
        lemma_preference(init, binding);
        let p = preference(preferred, binding);
        assert forall|k: int| 0 <= k < p && k < preferred.len() implies #[trigger] preferred[k]
            != binding by {
            if k < init.len() {
                assert(init[k] == preferred[k]);
                assert(preference(init, binding) == usize::MAX ==> !init.contains(init[k])
                    || init[k] != binding);
            }
        }
        if p == usize::MAX && preferred.contains(binding) {
            let k = choose|k: int| 0 <= k < preferred.len() && preferred[k] == binding;
            if k < init.len() {
                assert(init[k] == binding);
            }
        }
    }
}

/// How much a binding is preferred is where it first stands among the
/// preferred ones; one that is not among them comes behind all that are.
pub proof fn preference_is_the_first_place(preferred: Seq<Seq<char>>, binding: Seq<char>)
    requires
        preferred.len() < usize::MAX,
    ensures
        preferred.contains(binding) ==> {
            let p = preference(preferred, binding);
            &&& p < preferred.len()
            &&& preferred[p as int] == binding
            &&& forall|k: int| 0 <= k < p ==> #[trigger] preferred[k] != binding
        },
        !preferred.contains(binding) ==> preference(preferred, binding) == usize::MAX,
{
    lemma_preference(preferred, binding);
    let p = preference(preferred, binding);
    if p < usize::MAX {
        assert(preferred.contains(preferred[p as int]));
    }
}

proof fn lemma_card_candidates(
    factories: Map<TransportKeyView, TransportChoice>,
    preferred: Seq<Seq<char>>,
    interfaces: Seq<AgentInterfaceView>,
)
    ensures
        ({
            let found = card_candidates(factories, preferred, interfaces);
            &&& forall|i: int|
                0 <= i < found.len() ==> {
                    let c = #[trigger] found[i];
                    &&& interfaces.contains(c.interface)
                    &&& candidate(factories, preferred, c.interface) == Some(c)
                }
            &&& forall|k: int|
                0 <= k < interfaces.len() && factories.contains_key(
                    transport_key(
                        (#[trigger] interfaces[k]).protocol_binding,
                        interfaces[k].protocol_version,
                    ),
                ) ==> exists|i: int| 0 <= i < found.len() && #[trigger] found[i].interface
                    == interfaces[k]
        }),
    decreases interfaces.len(),
{
    if interfaces.len() > 0 {
        let init = interfaces.drop_last();
        lemma_card_candidates(factories, preferred, init);
        let head = card_candidates(factories, preferred, init);
        let found = card_candidates(factories, preferred, interfaces);
        assert forall|i: int| 0 <= i < found.len() implies {
            let c = #[trigger] found[i];
            &&& interfaces.contains(c.interface)
            &&& candidate(factories, preferred, c.interface) == Some(c)
        } by {
            if i < head.len() {
                assert(found[i] == head[i]);
                let k = choose|k: int| 0 <= k < init.len() && init[k] == head[i].interface;
                assert(interfaces[k] == head[i].interface);
            } else {
                assert(interfaces[interfaces.len() - 1] == found[i].interface);
            }
        }
        assert forall|k: int|
            0 <= k < interfaces.len() && factories.contains_key(
                transport_key(
                    (#[trigger] interfaces[k]).protocol_binding,
                    interfaces[k].protocol_version,
                ),
            ) implies exists|i: int| 0 <= i < found.len() && #[trigger] found[i].interface
            == interfaces[k] by {
            if k < init.len() {
                assert(init[k] == interfaces[k]);
                let i = choose|i: int| 0 <= i < head.len() && #[trigger] head[i].interface
                    == init[k];
                assert(found[i].interface == interfaces[k]);
            } else {
                assert(found[head.len() as int].interface == interfaces[k]);
            }
        }
    }
}

/// The interfaces to try are those of the card that a transport is registered
/// for, each with that transport; none of them is left out. Without any, there
/// is nothing to try.
pub proof fn every_usable_interface_is_tried(
    factory: A2AClientFactory,
    card: AgentCard,
    r: Result<Vec<Candidate>, A2AError>,
)
    requires
        call_ensures(A2AClientFactory::create_from_card, (&factory, &card), r),
    ensures
        ({
            let interfaces = card.supported_interfaces.deep_view();
            let usable = |interface: AgentInterfaceView|
                factory.factories@.contains_key(
                    transport_key(interface.protocol_binding, interface.protocol_version),
                );
            &&& r is Err <==> forall|k: int|
                0 <= k < interfaces.len() ==> !usable(#[trigger] interfaces[k])
            &&& r matches Err(error) ==> error.code == error_code::UNSUPPORTED_OPERATION
            &&& r matches Ok(ranked) ==> {
                &&& forall|i: int|
                    0 <= i < ranked.deep_view().len() ==> {
                        let c = #[trigger] ranked.deep_view()[i];
                        &&& interfaces.contains(c.interface)
                        &&& usable(c.interface)
                        &&& c.transport == factory.factories@[transport_key(
                            c.interface.protocol_binding,
                            c.interface.protocol_version,
                        )]
                    }
                &&& forall|k: int|
                    0 <= k < interfaces.len() && usable(#[trigger] interfaces[k])
                        ==> exists|i: int|
                        0 <= i < ranked.deep_view().len()
                            && #[trigger] ranked.deep_view()[i].interface == interfaces[k]
            }
        }),
{
    let interfaces = card.supported_interfaces.deep_view();
    let preferred = factory.preferred_bindings.deep_view();
    let found = card_candidates(factory.factories@, preferred, interfaces);
    lemma_card_candidates(factory.factories@, preferred, interfaces);
    if found.len() > 0 {
        let c = found[0];
        assert(interfaces.contains(c.interface));
        let k = choose|k: int| 0 <= k < interfaces.len() && interfaces[k] == c.interface;
        assert(interfaces[k] == c.interface);
    }
    if r is Ok {
        let ranked = r->Ok_0.deep_view();
        order::sorted_is_ordered_rearrangement::<Candidate>(found);
        assert forall|i: int| 0 <= i < ranked.len() implies found.contains(
            #[trigger] ranked[i],
        ) by {
            assert(ranked.contains(ranked[i]));
            order::lemma_same_multiset_same_members(ranked, found, ranked[i]);
        }
        assert forall|k: int|
            0 <= k < interfaces.len() && factory.factories@.contains_key(
                transport_key(
                    (#[trigger] interfaces[k]).protocol_binding,
                    interfaces[k].protocol_version,
                ),
            ) implies exists|i: int|
            0 <= i < ranked.len() && #[trigger] ranked[i].interface == interfaces[k] by {
            let j = choose|j: int| 0 <= j < found.len() && #[trigger] found[j].interface
                == interfaces[k];
            assert(found.contains(found[j]));
            order::lemma_same_multiset_same_members(ranked, found, found[j]);
            let i = choose|i: int| 0 <= i < ranked.len() && ranked[i] == found[j];
            assert(ranked[i].interface == interfaces[k]);
        }
    }
}

/// Interfaces are tried by preference, and among equally preferred ones the
/// newer version of the protocol before the older one, first by its major
/// number.
pub proof fn attempts_go_by_preference_and_version(
    factory: A2AClientFactory,
    card: AgentCard,
    ranked: Vec<Candidate>,
    i: int,
    j: int,
)
    requires
        call_ensures(A2AClientFactory::create_from_card, (&factory, &card), Ok(ranked)),
        0 <= i < j < ranked@.len(),
    ensures
        ({
            let a = ranked@[i];
            let b = ranked@[j];
            &&& a.priority <= b.priority
            &&& a.priority == b.priority ==> a.major >= b.major
            &&& a.priority == b.priority && a.major == b.major ==> a.minor >= b.minor
        }),
        ranked@[i].priority == preference(
            factory.preferred_bindings.deep_view(),
            ranked@[i].interface.protocol_binding@,
        ),
        ranked@[i].major == version_part(ranked@[i].interface.protocol_version@, 0, 1),
        ranked@[i].minor == version_part(ranked@[i].interface.protocol_version@, 1, 0),
{
    let found = card_candidates(
        factory.factories@,
        factory.preferred_bindings.deep_view(),
        card.supported_interfaces.deep_view(),
    );
    order::sorted_is_ordered_rearrangement::<Candidate>(found);
    lemma_card_candidates(
        factory.factories@,
        factory.preferred_bindings.deep_view(),
        card.supported_interfaces.deep_view(),
    );
    let views = ranked.deep_view();
    assert(Candidate::ranks(views[i], views[j]));
    assert(views[i] == ranked@[i].deep_view() && views[j] == ranked@[j].deep_view());
    assert(views.contains(views[i]));
    order::lemma_same_multiset_same_members(views, found, views[i]);
}

/// After each failure the next interface is tried; once all have failed the
/// last failure is the answer, and where there was nothing to try there is an
/// error of its own.
pub proof fn failures_lead_to_the_next_attempt(
    candidates: Vec<Candidate>,
    failures: Vec<A2AError>,
    r: Result<Candidate, A2AError>,
)
    requires
        call_ensures(choose_candidate, (candidates, &failures), r),
    ensures
        failures@.len() < candidates@.len() ==> (r matches Ok(chosen) && chosen.deep_view()
            == candidates@[failures@.len() as int].deep_view()),
        failures@.len() >= candidates@.len() && failures@.len() > 0 ==> (r matches Err(error)
            && error.deep_view() == failures@.last().deep_view()),
        failures@.len() == 0 && candidates@.len() == 0 ==> (r matches Err(error) && error.code
            == error_code::INTERNAL_ERROR),
{
    assert(candidates.deep_view().len() == candidates@.len());
    assert(failures.deep_view().len() == failures@.len());
    if failures@.len() < candidates@.len() {
        assert(candidates.deep_view()[failures@.len() as int]
            == candidates@[failures@.len() as int].deep_view());
    } else if failures@.len() > 0 {
        assert(failures.deep_view().last() == failures@.last().deep_view());
    }
}

/// Requests over an interface carry the tenant that it declares, unless that
/// is empty or absent.
pub proof fn declared_tenants_are_carried(interface: AgentInterface, r: Option<String>)
    requires
        call_ensures(interface_tenant, (&interface,), r),
    ensures
        r is Some <==> interface.tenant is Some && interface.tenant->0@.len() > 0,
        r matches Some(tenant) ==> tenant@ == interface.tenant->0@,
{
}

/// A factory has every transport that was registered and, unless they were
/// left out, the built-in ones for the bindings that none was registered for;
/// and no other.
pub proof fn registered_transports_replace_the_built_in(
    builder: A2AClientFactoryBuilder,
    r: A2AClientFactory,
    key: TransportKeyView,
)
    requires
        call_ensures(A2AClientFactoryBuilder::build, (builder,), r),
    ensures
        builder.factories@.contains_key(key) ==> r.factories@.contains_key(key)
            && r.factories@[key] == builder.factories@[key],
        !builder.factories@.contains_key(key) && !builder.include_defaults
            ==> !r.factories@.contains_key(key),
        !builder.factories@.contains_key(key) && builder.include_defaults ==> {
            let major = version_part(VERSION@, 0, 1);
            &&& key.protocol == TRANSPORT_PROTOCOL_JSONRPC@ && key.major_version == major
                ==> r.factories@.contains_key(key) && r.factories@[key] == TransportChoice::JsonRpc
            &&& key.protocol == TRANSPORT_PROTOCOL_HTTP_JSON@ && key.major_version == major
                ==> r.factories@.contains_key(key) && r.factories@[key] == TransportChoice::Rest
            &&& r.factories@.contains_key(key) ==> key.major_version == major && (key.protocol
                == TRANSPORT_PROTOCOL_JSONRPC@ || key.protocol == TRANSPORT_PROTOCOL_HTTP_JSON@)
        },
{
    reveal_strlit("JSONRPC");
    reveal_strlit("HTTP+JSON");
    assert(TRANSPORT_PROTOCOL_JSONRPC@.len() == 7);
    assert(TRANSPORT_PROTOCOL_HTTP_JSON@.len() == 9);
}

/// A transport is known by its binding and by the major version of the
/// protocol: the number before the first dot, and 1 where that is no number.
/// What follows the dot makes no difference.
pub proof fn minor_versions_share_a_transport(
    protocol: Seq<char>,
    major: Seq<char>,
    minor: Seq<char>,
)
    requires
        !major.contains('.'),
    ensures
        transport_key(protocol, major + seq!['.'] + minor) == transport_key(protocol, major),
        transport_key(protocol, major).protocol == protocol,
        text::parsed(major, u64::MAX as nat) matches Some(n) ==> transport_key(
            protocol,
            major,
        ).major_version == n,
        text::parsed(major, u64::MAX as nat) is None ==> transport_key(
            protocol,
            major,
        ).major_version == 1,
{
    let full = major + seq!['.'] + minor;
    assert forall|k: int| 0 <= k < major.len() implies major[k] != '.' by {
        assert(major.contains(major[k]));
    }
    text::lemma_before_first(major, '.', major.len() as int);
    text::lemma_before_first(full, '.', major.len() as int);
    assert(full.take(major.len() as int) =~= major);
}

/// The minor version of an interface is the number between its first two dots,
/// and zero without one.
pub proof fn minor_versions_follow_the_first_dot(
    major: Seq<char>,
    minor: Seq<char>,
    patch: Seq<char>,
)
    requires
        !major.contains('.'),
        !minor.contains('.'),
    ensures
        version_part(major, 1, 0) == 0,
        text::parsed(minor, u64::MAX as nat) matches Some(n) ==> version_part(
            major + seq!['.'] + minor,
            1,
            0,
        ) == n && version_part(major + seq!['.'] + minor + seq!['.'] + patch, 1, 0) == n,
        text::parsed(minor, u64::MAX as nat) is None ==> version_part(
            major + seq!['.'] + minor,
            1,
            0,
        ) == 0,
{
    let two = seq![major, minor];
    let full = major + seq!['.'] + minor;
    assert(two.drop_first() =~= seq![minor]);
    reveal_with_fuel(text::reassembled, 3);
    assert(text::reassembled(two, '.') =~= full);
    text::splitting_undoes_joining(two, '.');
    assert(text::reassembled(seq![major], '.') =~= major);
    text::splitting_undoes_joining(seq![major], '.');
    let all = full + seq!['.'] + patch;
    let rest = minor + seq!['.'] + patch;
    assert(all =~= major + seq!['.'] + rest);
    assert forall|k: int| 0 <= k < major.len() implies major[k] != '.' by {
        assert(major.contains(major[k]));
    }
    assert forall|k: int| 0 <= k < minor.len() implies minor[k] != '.' by {
        assert(minor.contains(minor[k]));
    }
    text::lemma_before_first(all, '.', major.len() as int);
    assert(all.skip(major.len() as int + 1) =~= rest);
    text::lemma_before_first(rest, '.', minor.len() as int);
    assert(rest.take(minor.len() as int) =~= minor);
    assert(text::pieces(rest, '.')[0] == minor);
    assert(text::pieces(all, '.')[1] == minor);
}

/// Candidates stand in the order of the card: those of the first interfaces
/// before those of the following ones.
pub proof fn candidates_follow_the_card(
    factories: Map<TransportKeyView, TransportChoice>,
    preferred: Seq<Seq<char>>,
    first: Seq<AgentInterfaceView>,
    following: Seq<AgentInterfaceView>,
)
    ensures
        card_candidates(factories, preferred, first + following) == card_candidates(
            factories,
            preferred,
            first,
        ) + card_candidates(factories, preferred, following),
    decreases following.len(),
{
    let head = card_candidates(factories, preferred, first);
    if following.len() == 0 {
        assert(first + following =~= first);
        assert(head + card_candidates(factories, preferred, following) =~= head);
    } else {
        candidates_follow_the_card(factories, preferred, first, following.drop_last());
        assert((first + following).drop_last() =~= first + following.drop_last());
        assert(card_candidates(factories, preferred, first + following) =~= head + card_candidates(
            factories,
            preferred,
            following,
        ));
    }
}

} // verus!
