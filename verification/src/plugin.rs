//! The SLIMRPC transport plugin: what it says about itself, its handshake,
//! and what it forwards.

use vstd::prelude::*;

use crate::handler::{ServiceParams, ServiceParamsView};
use crate::json;
use crate::protocol::{TRANSPORT_PROTOCOL_GRPC, VERSION};
use crate::replica::Replica;
use crate::table::Table;
use crate::text;

verus! {

/// The parameter that carries the plugin's own token.
pub const TOKEN_HEADER: &'static str = "a2a-plugin-token";

/// Why the plugin failed.
#[derive(Debug, PartialEq, Eq)]
pub enum PluginError {
    ConfigEnvMissing,
    ConfigRead { path: String, reason: String },
    ConfigParse { path: String, reason: String },
    Auth(String),
    Slim(String),
    Tls(String),
    Bind(String),
    Handshake(String),
    InvalidEndpoint(String),
}

/// What a [`PluginError`] stands for.
#[verifier::ext_equal]
pub enum PluginErrorView {
    ConfigEnvMissing,
    ConfigRead { path: Seq<char>, reason: Seq<char> },
    ConfigParse { path: Seq<char>, reason: Seq<char> },
    Auth(Seq<char>),
    Slim(Seq<char>),
    Tls(Seq<char>),
    Bind(Seq<char>),
    Handshake(Seq<char>),
    InvalidEndpoint(Seq<char>),
}

impl DeepView for PluginError {
    type V = PluginErrorView;

    open spec fn deep_view(&self) -> PluginErrorView {
        match self {
            PluginError::ConfigEnvMissing => PluginErrorView::ConfigEnvMissing,
            PluginError::ConfigRead { path, reason } => PluginErrorView::ConfigRead {
                path: path@,
                reason: reason@,
            },
            PluginError::ConfigParse { path, reason } => PluginErrorView::ConfigParse {
                path: path@,
                reason: reason@,
            },
            PluginError::Auth(reason) => PluginErrorView::Auth(reason@),
            PluginError::Slim(reason) => PluginErrorView::Slim(reason@),
            PluginError::Tls(reason) => PluginErrorView::Tls(reason@),
            PluginError::Bind(reason) => PluginErrorView::Bind(reason@),
            PluginError::Handshake(reason) => PluginErrorView::Handshake(reason@),
            PluginError::InvalidEndpoint(reason) => PluginErrorView::InvalidEndpoint(reason@),
        }
    }
}

/// A failure in words.
pub open spec fn error_text(error: PluginErrorView) -> Seq<char> {
    match error {
        PluginErrorView::ConfigEnvMissing =>
            "config file not found: A2A_SLIMRPC_PLUGIN_CONFIG env var is not set"@,
        PluginErrorView::ConfigRead { path, reason } => "failed to read config file '"@ + path
            + "': "@ + reason,
        PluginErrorView::ConfigParse { path, reason } => "failed to parse config file '"@ + path
            + "': "@ + reason,
        PluginErrorView::Auth(reason) => "auth config error: "@ + reason,
        PluginErrorView::Slim(reason) => "SLIM service error: "@ + reason,
        PluginErrorView::Tls(reason) => "TLS setup error: "@ + reason,
        PluginErrorView::Bind(reason) => "server bind error: "@ + reason,
        PluginErrorView::Handshake(reason) => "handshake write error: "@ + reason,
        PluginErrorView::InvalidEndpoint(reason) => "invalid endpoint: "@ + reason,
    }
}

fn prefixed(prefix: &str, rest: &str) -> (r: String)
    ensures
        r@ == prefix@ + rest@,
{
    let mut out = prefix.to_string();
    out.append(rest);
    out
}

fn about_file(prefix: &str, path: &str, reason: &str) -> (r: String)
    ensures
        r@ == prefix@ + path@ + "': "@ + reason@,
{
    let mut out = prefix.to_string();
    out.append(path);
    out.append("': ");
    out.append(reason);
    out
}

impl PluginError {
    /// The failure in words.
    pub fn to_text(&self) -> (r: String)
        ensures
            r@ == error_text(self.deep_view()),
    {
        match self {
            PluginError::ConfigEnvMissing =>
                "config file not found: A2A_SLIMRPC_PLUGIN_CONFIG env var is not set".to_string(),
            PluginError::ConfigRead { path, reason } => about_file(
                "failed to read config file '",
                path.as_str(),
                reason.as_str(),
            ),
            PluginError::ConfigParse { path, reason } => about_file(
                "failed to parse config file '",
                path.as_str(),
                reason.as_str(),
            ),
            PluginError::Auth(reason) => prefixed("auth config error: ", reason.as_str()),
            PluginError::Slim(reason) => prefixed("SLIM service error: ", reason.as_str()),
            PluginError::Tls(reason) => prefixed("TLS setup error: ", reason.as_str()),
            PluginError::Bind(reason) => prefixed("server bind error: ", reason.as_str()),
            PluginError::Handshake(reason) => prefixed("handshake write error: ", reason.as_str()),
            PluginError::InvalidEndpoint(reason) => prefixed("invalid endpoint: ", reason.as_str()),
        }
    }
}

/// What the plugin says about itself.
#[derive(Debug, Clone, Copy, PartialEq, Eq)]
pub struct Info {
    pub name: &'static str,
    pub version: &'static str,
    pub description: &'static str,
    pub protocol: &'static str,
    pub binding: &'static str,
    pub commit: &'static str,
    pub build_date: &'static str,
}

/// Describes this build of the plugin.
pub fn build_info(version: &'static str, commit: &'static str, build_date: &'static str) -> (r: Info)
    ensures
        r.name@ == "slimrpc"@,
        r.version@ == version@,
        r.description@ == "SLIMRPC transport plugin for a2a-cli"@,
        r.protocol@ == VERSION@,
        r.binding@ == TRANSPORT_PROTOCOL_GRPC@,
        r.commit@ == commit@,
        r.build_date@ == build_date@,
{
    Info {
        name: "slimrpc",
        version,
        description: "SLIMRPC transport plugin for a2a-cli",
        protocol: VERSION,
        binding: TRANSPORT_PROTOCOL_GRPC,
        commit,
        build_date,
    }
}

/// A member of a JSON object, after `before`.
pub open spec fn member_text(before: Seq<char>, value: Seq<char>) -> Seq<char> {
    before + json::quoted(value)
}

fn append_member(out: &mut String, before: &str, value: &str)
    ensures
        final(out)@ == old(out)@ + member_text(before@, value@),
{
    let ghost start = out@;
    let quoted = json::quote(value);
    out.append(before);
    out.append(quoted.as_str());
    assert(out@ =~= start + member_text(before@, value@));
}

/// What the plugin says about itself, as a JSON object.
pub open spec fn info_text(info: Info) -> Seq<char> {
    "{"@ + member_text("\"name\":"@, info.name@) + member_text(",\"version\":"@, info.version@)
        + member_text(",\"description\":"@, info.description@) + member_text(
        ",\"protocol\":"@,
        info.protocol@,
    ) + member_text(",\"binding\":"@, info.binding@) + member_text(",\"commit\":"@, info.commit@)
        + member_text(",\"buildDate\":"@, info.build_date@) + "}"@
}

impl Info {
    /// Writes what the plugin says about itself as a JSON object.
    pub fn to_json(&self) -> (r: String)
        ensures
            r@ == info_text(*self),
    {
        let mut out = "{".to_string();
        append_member(&mut out, "\"name\":", self.name);
        append_member(&mut out, ",\"version\":", self.version);
        append_member(&mut out, ",\"description\":", self.description);
        append_member(&mut out, ",\"protocol\":", self.protocol);
        append_member(&mut out, ",\"binding\":", self.binding);
        append_member(&mut out, ",\"commit\":", self.commit);
        append_member(&mut out, ",\"buildDate\":", self.build_date);
        out.append("}");
        out
    }
}

/// Where the plugin can be reached, and how.
#[derive(Debug, PartialEq, Eq)]
pub struct EndpointPayload {
    pub address: String,
    pub binding: &'static str,
    pub protocol: &'static str,
    pub token: String,
    pub cert_pem: String,
}

/// The plugin's first and only line of output.
#[derive(Debug, PartialEq, Eq)]
pub struct Handshake {
    pub success: bool,
    pub error: Option<String>,
    pub endpoint: Option<EndpointPayload>,
}

/// An endpoint as a JSON object.
pub open spec fn endpoint_text(endpoint: EndpointPayload) -> Seq<char> {
    "{"@ + member_text("\"address\":"@, endpoint.address@) + member_text(
        ",\"binding\":"@,
        endpoint.binding@,
    ) + member_text(",\"protocol\":"@, endpoint.protocol@) + member_text(
        ",\"token\":"@,
        endpoint.token@,
    ) + member_text(",\"certPem\":"@, endpoint.cert_pem@) + "}"@
}

/// A handshake as a JSON object; what is absent is left out.
pub open spec fn handshake_text(handshake: Handshake) -> Seq<char> {
    (if handshake.success {
        "{\"success\":true"@
    } else {
        "{\"success\":false"@
    }) + (match handshake.error {
        Some(error) => member_text(",\"error\":"@, error@),
        None => Seq::empty(),
    }) + (match handshake.endpoint {
        Some(endpoint) => ",\"payload\":"@ + endpoint_text(endpoint),
        None => Seq::empty(),
    }) + "}"@
}

impl EndpointPayload {
    fn to_json(&self) -> (r: String)
        ensures
            r@ == endpoint_text(*self),
    {
        let mut out = "{".to_string();
        append_member(&mut out, "\"address\":", self.address.as_str());
        append_member(&mut out, ",\"binding\":", self.binding);
        append_member(&mut out, ",\"protocol\":", self.protocol);
        append_member(&mut out, ",\"token\":", self.token.as_str());
        append_member(&mut out, ",\"certPem\":", self.cert_pem.as_str());
        out.append("}");
        out
    }
}

/// Writes a handshake as a JSON object.
pub fn write_handshake(handshake: &Handshake) -> (r: String)
    ensures
        r@ == handshake_text(*handshake),
{
    let mut out = if handshake.success {
        "{\"success\":true".to_string()
    } else {
        "{\"success\":false".to_string()
    };
    let ghost first = out@;
    if let Some(error) = &handshake.error {
        append_member(&mut out, ",\"error\":", error.as_str());
    } else {
        assert(first + Seq::<char>::empty() =~= first);
    }
    let ghost second = out@;
    if let Some(endpoint) = &handshake.endpoint {
        let payload = endpoint.to_json();
        let piece = prefixed(",\"payload\":", payload.as_str());
        out.append(piece.as_str());
    } else {
        assert(second + Seq::<char>::empty() =~= second);
    }
    out.append("}");
    out
}

/// Whether a parameter is the plugin's own token, in whatever case its name is
/// written.
pub open spec fn is_token(key: Seq<char>) -> bool {
    text::lower(key) == text::lower(TOKEN_HEADER@)
}

/// The parameters that are forwarded: all but the plugin's own token.
pub open spec fn forwarded(params: ServiceParamsView) -> ServiceParamsView {
    Map::new(|key: Seq<char>| params.contains_key(key) && !is_token(key), |key: Seq<char>| params[key])
}

/// Leaves out the plugin's own token before a call is forwarded.
pub fn forward_params(params: &ServiceParams) -> (r: ServiceParams)
    ensures
        r@ == forwarded(params@),
{
    let mut fwd: ServiceParams = Table::new();
    let count: usize = params.len();
    let ghost keys = params.keys();
    let mut i: usize = 0;
    while i < count
        invariant
            i <= count,
            count == keys.len(),
            keys == params.keys(),
            forall|k: Seq<char>| #[trigger]
                fwd@.contains_key(k) <==> keys.take(i as int).contains(k) && !is_token(k),
            forall|k: Seq<char>| #[trigger]
                fwd@.contains_key(k) ==> params@.contains_key(k) && fwd@[k] == params@[k],
        decreases count - i,
    {
        let (key, value) = params.entry(i);
        proof {
            assert(keys.take(i + 1) =~= keys.take(i as int).push(key@));
            assert forall|k: Seq<char>| #[trigger]
                keys.take(i + 1).contains(k) <==> keys.take(i as int).contains(k) || k == key@ by {
                let head = keys.take(i as int);
                if head.push(key@).contains(k) {
                    let j = choose|j: int| 0 <= j < head.push(key@).len() && head.push(key@)[j] == k;
                    if j < head.len() {
                        assert(head[j] == k);
                    }
                }
                if head.contains(k) {
                    let j = choose|j: int| 0 <= j < head.len() && head[j] == k;
                    assert(head.push(key@)[j] == k);
                }
                assert(head.push(key@)[head.len() as int] == key@);
            }
        }
        let ghost before = fwd@;
        if !text::same_ignoring_case(key.as_str(), TOKEN_HEADER) {
            fwd.insert(key.clone(), value.replica());
        }
        proof {
            assert forall|k: Seq<char>| #[trigger]
                fwd@.contains_key(k) <==> keys.take(i + 1).contains(k) && !is_token(k) by {
                assert(before.contains_key(k) <==> keys.take(i as int).contains(k) && !is_token(k));
                assert(keys.take(i + 1).contains(k) <==> keys.take(i as int).contains(k) || k
                    == key@);
            }
        }
        i += 1;
    }
    assert(keys.take(i as int) =~= keys);
    assert(fwd@ =~= forwarded(params@));
    fwd
}

/// The token never goes further, in whatever case its name is written, and
/// nothing else is changed; forwarding what was forwarded changes nothing.
pub proof fn only_the_token_is_held_back(params: ServiceParamsView, key: Seq<char>)
    ensures
        is_token(key) ==> !forwarded(params).contains_key(key),
        !is_token(key) ==> forwarded(params).contains_key(key) == params.contains_key(key),
        !is_token(key) && params.contains_key(key) ==> forwarded(params)[key] == params[key],
        forwarded(forwarded(params)) == forwarded(params),
{
    assert(forwarded(forwarded(params)) =~= forwarded(params));
}

/// The name of an application in three parts.
#[derive(Debug, PartialEq, Eq)]
pub struct ProtoName {
    pub org: String,
    pub namespace: String,
    pub agent: String,
}

/// What a [`ProtoName`] stands for.
#[verifier::ext_equal]
pub struct ProtoNameView {
    pub org: Seq<char>,
    pub namespace: Seq<char>,
    pub agent: Seq<char>,
}

impl DeepView for ProtoName {
    type V = ProtoNameView;

    open spec fn deep_view(&self) -> ProtoNameView {
        ProtoNameView { org: self.org@, namespace: self.namespace@, agent: self.agent@ }
    }
}

/// The three parts that the first two slashes cut `name` into, none of them
/// empty.
pub open spec fn proto_name(name: Seq<char>) -> Option<ProtoNameView> {
    match text::cut(name, "/"@) {
        None => None,
        Some((org, rest)) => match text::cut(rest, "/"@) {
            None => None,
            Some((namespace, agent)) => if org.len() > 0 && namespace.len() > 0 && agent.len()
                > 0 {
                Some(ProtoNameView { org, namespace, agent })
            } else {
                None
            },
        },
    }
}

/// Reads a name of the form `org/namespace/agent`.
pub fn parse_proto_name(name: &str) -> (r: Result<ProtoName, PluginError>)
    ensures
        match r {
            Ok(parsed) => proto_name(name@) == Some(parsed.deep_view()),
            Err(error) => {
                &&& proto_name(name@) is None
                &&& error.deep_view() == PluginErrorView::InvalidEndpoint(
                    "app.name '"@ + name@ + "' must be 'org/namespace/agent'"@,
                )
            },
        },
{
    if let Some((org, rest)) = text::split_once(name, "/") {
        if let Some((namespace, agent)) = text::split_once(rest.as_str(), "/") {
            if org.as_str().unicode_len() > 0 && namespace.as_str().unicode_len() > 0
                && agent.as_str().unicode_len() > 0 {
                return Ok(ProtoName { org, namespace, agent });
            }
        }
    }
    let mut reason = "app.name '".to_string();
    reason.append(name);
    reason.append("' must be 'org/namespace/agent'");
    Err(PluginError::InvalidEndpoint(reason))
}

proof fn lemma_cut_pieces(s: Seq<char>, p: Seq<char>)
    ensures
        text::cut(s, p) matches Some((head, tail)) ==> s == head + p + tail,
{
    text::lemma_found_bounds(s, p);
    if let Some(i) = text::found(s, p) {
        assert(s =~= s.take(i) + s.subrange(i, i + p.len()) + s.skip(i + p.len()));
    }
}

/// A name is read without losing anything of it: its three segments, joined
/// again, are what was given, so that further slashes belong to the agent.
pub proof fn names_keep_what_was_given(name: Seq<char>)
    ensures
        proto_name(name) matches Some(parsed) ==> name == parsed.org + "/"@ + parsed.namespace
            + "/"@ + parsed.agent,
{
    lemma_cut_pieces(name, "/"@);
    if let Some((org, rest)) = text::cut(name, "/"@) {
        lemma_cut_pieces(rest, "/"@);
        if let Some((namespace, agent)) = text::cut(rest, "/"@) {
            assert(org + "/"@ + (namespace + "/"@ + agent) =~= org + "/"@ + namespace + "/"@
                + agent);
        }
    }
}

/// The certificate and the key that the plugin listens with.
#[derive(Debug, PartialEq, Eq)]
pub struct LoopbackTls {
    /// The certificate in text form.
    pub cert_pem: String,
    /// The certificates to present, in binary form.
    pub certs: Vec<Vec<u8>>,
    /// The private key, in binary form.
    pub key: Vec<u8>,
    /// The protocols to negotiate.
    pub alpn_protocols: Vec<Vec<u8>>,
}

/// What [`LoopbackTls`] stands for.
#[verifier::ext_equal]
pub struct LoopbackTlsView {
    pub cert_pem: Seq<char>,
    pub certs: Seq<Seq<u8>>,
    pub key: Seq<u8>,
    pub alpn_protocols: Seq<Seq<u8>>,
}

impl DeepView for LoopbackTls {
    type V = LoopbackTlsView;

    open spec fn deep_view(&self) -> LoopbackTlsView {
        LoopbackTlsView {
            cert_pem: self.cert_pem@,
            certs: self.certs.deep_view(),
            key: self.key.deep_view(),
            alpn_protocols: self.alpn_protocols.deep_view(),
        }
    }
}

/// What every certificate in text form begins with.
pub const CERTIFICATE_HEAD: &'static str = "-----BEGIN CERTIFICATE-----";

/// What every certificate in text form ends with, but for the line's end.
pub const CERTIFICATE_FOOT: &'static str = "-----END CERTIFICATE-----";

/// Whether a text begins and ends as a certificate does.
pub open spec fn frames_certificate(s: Seq<char>) -> bool {
    &&& CERTIFICATE_HEAD@.is_prefix_of(s)
    &&& {
        ||| (CERTIFICATE_FOOT@ + "\n"@).is_suffix_of(s)
        ||| (CERTIFICATE_FOOT@ + "\r\n"@).is_suffix_of(s)
    }
}

/// The certificates that `rustls_pemfile::certs` reads in a text, or the
/// first of its errors.
pub uninterp spec fn pem_certificates(s: Seq<char>) -> Result<Seq<Seq<u8>>, Seq<char>>;

/// The extension that names one IPv4 address as the only subject alternative
/// name of a certificate, as it stands in the certificate's binary form: the
/// identifier of the extension, and the address under its tag.
pub open spec fn alternative_name(address: Seq<u8>) -> Seq<u8> {
    seq![0x06u8, 0x03, 0x55, 0x1d, 0x11, 0x04, 0x08, 0x30, 0x06, 0x87, 0x04] + address
}

/// Whether there is one certificate, and it holds the extension by which
/// `address` is its only subject alternative name.
pub open spec fn certifies(certs: Seq<Seq<u8>>, address: Seq<u8>) -> bool {
    certs.len() == 1 && exists|i: int|
        0 <= i <= certs[0].len() - alternative_name(address).len() && #[trigger] certs[0].subrange(
            i,
            i + alternative_name(address).len(),
        ) == alternative_name(address)
}

/// The first private key that `rustls_pemfile::private_key` reads in a text,
/// if there is one, or its error.
pub uninterp spec fn pem_private_key(s: Seq<char>) -> Result<Option<Seq<u8>>, Seq<char>>;

/// Whether there is one certificate, and it is for the public half of `key`:
/// the key, in its binary form, ends with the public key, and the certificate
/// holds that as a bit string.
pub open spec fn is_for_key(certs: Seq<Seq<u8>>, key: Seq<u8>) -> bool {
    certs.len() == 1 && key.len() >= 65 && exists|i: int|
        0 <= i <= certs[0].len() - 68 && #[trigger] certs[0].subrange(i, i + 68) == seq![
            0x03u8,
            0x42,
            0x00,
        ] + key.skip(key.len() - 65)
}

/// `rcgen::KeyPair::generate`, then `rcgen::CertificateParams::self_signed`
/// for a certificate without a distinguished name that names the one IPv4
/// address; gives what `Certificate::pem` and `KeyPair::serialize_pem` write,
/// or the error in words. The key is random. What is claimed of every outcome
/// is how the text of the certificate begins and ends, that what
/// `rustls_pemfile::certs` reads in it is one certificate for that address,
/// and that what `rustls_pemfile::private_key` reads in the other text is a
/// key, whose public half that certificate holds.
#[verifier::external_body]
fn self_signed_certificate(address: [u8; 4]) -> (r: Result<(String, String), String>)
    ensures
        r matches Ok((cert_pem, key_pem)) ==> {
            &&& frames_certificate(cert_pem@)
            &&& pem_certificates(cert_pem@) matches Ok(certs) && certifies(certs, address@) && (
            pem_private_key(key_pem@) matches Ok(Some(key)) && is_for_key(certs, key))
        },
{
    let key = rcgen::KeyPair::generate().map_err(|error| error.to_string())?;
    let mut params = rcgen::CertificateParams::default();
    params.distinguished_name = rcgen::DistinguishedName::new();
    params.subject_alt_names = vec![rcgen::SanType::IpAddress(address.into())];
    let cert = params.self_signed(&key).map_err(|error| error.to_string())?;
    Ok((cert.pem(), key.serialize_pem()))
}

/// `rustls_pemfile::certs`. Which certificates there are, and the message of
/// the first error, are functions of the text.
#[verifier::external_body]
fn read_certificates(pem: &str) -> (r: Result<Vec<Vec<u8>>, String>)
    ensures
        match r {
            Ok(certs) => pem_certificates(pem@) == Ok::<Seq<Seq<u8>>, Seq<char>>(certs.deep_view()),
            Err(reason) => pem_certificates(pem@) == Err::<Seq<Seq<u8>>, Seq<char>>(reason@),
        },
{
    rustls_pemfile::certs(&mut pem.as_bytes()).map(
        |found| found.map(|cert| cert.to_vec()).map_err(|error| error.to_string()),
    ).collect()
}

/// `rustls_pemfile::private_key`, with `secret_der` of the key it gives.
/// Whether there is a key, its bytes, and the message of the error are
/// functions of the text.
#[verifier::external_body]
fn read_private_key(pem: &str) -> (r: Result<Option<Vec<u8>>, String>)
    ensures
        match r {
            Ok(key) => pem_private_key(pem@) == Ok::<Option<Seq<u8>>, Seq<char>>(key.deep_view()),
            Err(reason) => pem_private_key(pem@) == Err::<Option<Seq<u8>>, Seq<char>>(reason@),
        },
{
    rustls_pemfile::private_key(&mut pem.as_bytes()).map(
        |found| found.map(|key| key.secret_der().to_vec()),
    ).map_err(|error| error.to_string())
}

/// The name of HTTP/2 in protocol negotiation.
pub open spec fn h2() -> Seq<u8> {
    seq![104u8, 50u8]
}

/// What to listen with, by what was read in the texts of the certificate and
/// the key.
pub open spec fn tls_parts(
    cert_pem: Seq<char>,
    certs: Result<Seq<Seq<u8>>, Seq<char>>,
    key: Result<Option<Seq<u8>>, Seq<char>>,
) -> Result<LoopbackTlsView, PluginErrorView> {
    match (certs, key) {
        (Err(reason), _) => Err(PluginErrorView::Tls("parse cert: "@ + reason)),
        (Ok(_), Err(reason)) => Err(PluginErrorView::Tls("parse key: "@ + reason)),
        (Ok(_), Ok(None)) => Err(PluginErrorView::Tls("no private key in PEM"@)),
        (Ok(certs), Ok(Some(key))) => Ok(
            LoopbackTlsView { cert_pem, certs, key, alpn_protocols: seq![h2()] },
        ),
    }
}

/// What an answer about TLS stands for.
pub open spec fn tls_answer(r: Result<LoopbackTls, PluginError>) -> Result<
    LoopbackTlsView,
    PluginErrorView,
> {
    match r {
        Ok(tls) => Ok(tls.deep_view()),
        Err(error) => Err(error.deep_view()),
    }
}

/// What was read, as plain values.
pub open spec fn read_answer<T: DeepView>(r: Result<T, String>) -> Result<T::V, Seq<char>> {
    match r {
        Ok(value) => Ok(value.deep_view()),
        Err(reason) => Err(reason@),
    }
}

/// Puts together what to listen with from what was read in the texts of the
/// certificate and the key.
pub fn assemble_tls(
    cert_pem: String,
    certs: Result<Vec<Vec<u8>>, String>,
    key: Result<Option<Vec<u8>>, String>,
) -> (r: Result<LoopbackTls, PluginError>)
    ensures
        tls_answer(r) == tls_parts(cert_pem@, read_answer(certs), read_answer(key)),
{
    let certs = match certs {
        Ok(certs) => certs,
        Err(reason) => {
            return Err(PluginError::Tls(prefixed("parse cert: ", reason.as_str())));
        },
    };
    let key = match key {
        Ok(Some(key)) => key,
        Ok(None) => {
            return Err(PluginError::Tls("no private key in PEM".to_string()));
        },
        Err(reason) => {
            return Err(PluginError::Tls(prefixed("parse key: ", reason.as_str())));
        },
    };
    let h2 = vec![104u8, 50u8];
    let alpn_protocols = vec![h2];
    assert(h2.deep_view() =~= self::h2());
    assert(alpn_protocols.deep_view() =~= seq![self::h2()]);
    Ok(LoopbackTls { cert_pem, certs, key, alpn_protocols })
}

/// Reads the texts of a certificate and its key.
pub fn load_tls(cert_pem: String, key_pem: String) -> (r: Result<LoopbackTls, PluginError>)
    ensures
        tls_answer(r) == tls_parts(
            cert_pem@,
            pem_certificates(cert_pem@),
            pem_private_key(key_pem@),
        ),
{
    let certs = read_certificates(cert_pem.as_str());
    let key = read_private_key(key_pem.as_str());
    assemble_tls(cert_pem, certs, key)
}

/// The address that the plugin listens at, which its certificate is for.
pub fn loopback_address() -> (r: [u8; 4])
    ensures
        r@ == seq![127u8, 0, 0, 1],
{
    let address: [u8; 4] = [127, 0, 0, 1];
    assert(address@ =~= seq![127u8, 0, 0, 1]);
    address
}

/// Generates a certificate for [`loopback_address`] that signs itself. The
/// caller of the plugin is told the certificate, so that it trusts no other.
///
/// The key is random, and no claim is made that the machine can make one.
pub fn generate_loopback_tls() -> (r: Result<LoopbackTls, PluginError>)
    ensures
        match r {
            Ok(tls) => {
                &&& frames_certificate(tls.cert_pem@)
                &&& pem_certificates(tls.cert_pem@) == Ok::<Seq<Seq<u8>>, Seq<char>>(
                    tls.certs.deep_view(),
                )
                &&& certifies(tls.certs.deep_view(), seq![127u8, 0, 0, 1])
                &&& is_for_key(tls.certs.deep_view(), tls.key.deep_view())
                &&& tls.alpn_protocols.deep_view() == seq![h2()]
            },
            Err(error) => error is Tls,
        },
{
    match self_signed_certificate(loopback_address()) {
        Ok((cert_pem, key_pem)) => load_tls(cert_pem, key_pem),
        Err(reason) => Err(PluginError::Tls(reason)),
    }
}

/// Three segments with slashes between them are read as the organization, the
/// namespace and the agent; a name without two slashes, or with an empty
/// segment, is refused.
pub proof fn names_have_three_segments(
    org: Seq<char>,
    namespace: Seq<char>,
    agent: Seq<char>,
)
    requires
        !org.contains('/'),
        !namespace.contains('/'),
    ensures
        ({
            let parsed = proto_name(org + seq!['/'] + namespace + seq!['/'] + agent);
            &&& parsed is Some <==> org.len() > 0 && namespace.len() > 0 && agent.len() > 0
            &&& parsed matches Some(name) ==> name.org == org && name.namespace == namespace
                && name.agent == agent
        }),
        proto_name(org) is None,
        proto_name(org + seq!['/'] + namespace) is None,
{
    let rest = namespace + seq!['/'] + agent;
    let name = org + seq!['/'] + namespace + seq!['/'] + agent;
    assert(name =~= org + seq!['/'] + rest);
    lemma_cut_at_slash(org, rest);
    lemma_cut_at_slash(namespace, agent);
    lemma_cut_at_slash(org, namespace);
    lemma_no_slash_no_cut(org);
    lemma_no_slash_no_cut(namespace);
}

proof fn lemma_cut_at_slash(before: Seq<char>, after: Seq<char>)
    requires
        !before.contains('/'),
    ensures
        text::cut(before + seq!['/'] + after, "/"@) == Some((before, after)),
{
    reveal_strlit("/");
    let s = before + seq!['/'] + after;
    let n = before.len() as int;
    text::cuts_are_at_the_first_place(s, "/"@);
    assert(s.skip(n).subrange(0, 1) =~= "/"@);
    assert("/"@.is_prefix_of(s.skip(n)));
    if let Some((head, tail)) = text::cut(s, "/"@) {
        assert(s[head.len() as int] == '/');
        if head.len() < n {
            assert(before[head.len() as int] == '/');
            assert(before.contains('/'));
        }
        if head.len() > n {
            assert(!"/"@.is_prefix_of(s.skip(n)));
        }
        assert(head =~= s.take(n));
        assert(before =~= s.take(n));
        assert(tail =~= s.skip(n + 1));
        assert(after =~= s.skip(n + 1));
    }
}

proof fn lemma_no_slash_no_cut(s: Seq<char>)
    requires
        !s.contains('/'),
    ensures
        text::cut(s, "/"@) is None,
{
    reveal_strlit("/");
    text::cuts_are_at_the_first_place(s, "/"@);
    if let Some((head, tail)) = text::cut(s, "/"@) {
        assert(s[head.len() as int] == '/');
        assert(s.contains('/'));
    }
}

/// The token is recognized in whatever case its name is written: two names that
/// differ in the case of ASCII letters alone are both the token's or neither
/// is.
pub proof fn the_case_of_the_token_is_immaterial(a: Seq<char>, b: Seq<char>)
    requires
        a.len() == b.len(),
        forall|i: int|
            0 <= i < a.len() ==> {
                let x = #[trigger] a[i];
                let y = b[i];
                ||| x == y
                ||| 'A' <= x <= 'Z' && y as u32 == x as u32 + 32
                ||| 'A' <= y <= 'Z' && x as u32 == y as u32 + 32
            },
    ensures
        is_token(a) <==> is_token(b),
        is_token("a2a-plugin-token"@),
{
    assert forall|i: int| 0 <= i < a.len() implies #[trigger] text::lower(a)[i]
        == text::lower(b)[i] by {
        let x = a[i];
        let y = b[i];
    }
    assert(text::lower(a) =~= text::lower(b));
}

/// A handshake tells whether it succeeded, and has an error and an endpoint
/// exactly where there are such, each whatever the other is.
pub proof fn handshakes_leave_out_what_is_absent(handshake: Handshake)
    ensures
        ({
            let head = if handshake.success {
                "{\"success\":true"@
            } else {
                "{\"success\":false"@
            };
            let error = if handshake.error is Some {
                ",\"error\":"@ + json::quoted(handshake.error->0@)
            } else {
                Seq::empty()
            };
            let payload = if handshake.endpoint is Some {
                ",\"payload\":"@ + endpoint_text(handshake.endpoint->0)
            } else {
                Seq::empty()
            };
            handshake_text(handshake) == head + error + payload + "}"@
        }),
{
}

/// What to listen with is what was read: without a certificate that can be
/// read, or without a key, there is nothing to listen with, and the
/// certificate's error counts first.
pub proof fn listening_needs_a_certificate_and_a_key(
    cert_pem: String,
    certs: Result<Vec<Vec<u8>>, String>,
    key: Result<Option<Vec<u8>>, String>,
    r: Result<LoopbackTls, PluginError>,
)
    requires
        call_ensures(assemble_tls, (cert_pem, certs, key), r),
    ensures
        r is Ok <==> certs is Ok && (key matches Ok(Some(_))),
        r matches Err(error) ==> error is Tls,
        r matches Ok(tls) ==> {
            &&& tls.cert_pem@ == cert_pem@
            &&& certs matches Ok(read) && tls.certs.deep_view() == read.deep_view()
            &&& key matches Ok(Some(secret)) && tls.key.deep_view() == secret.deep_view()
            &&& tls.alpn_protocols.deep_view() == seq![seq![104u8, 50u8]]
        },
        certs matches Err(reason) ==> (r matches Err(PluginError::Tls(told)) && told@
            == "parse cert: "@ + reason@),
{
}

/// What the plugin tells of itself and of its endpoint has every field, each
/// under its own name.
pub proof fn objects_have_every_field(info: Info, endpoint: EndpointPayload)
    ensures
        info_text(info) == "{"@ + ("\"name\":"@ + json::quoted(info.name@)) + (",\"version\":"@
            + json::quoted(info.version@)) + (",\"description\":"@ + json::quoted(
            info.description@,
        )) + (",\"protocol\":"@ + json::quoted(info.protocol@)) + (",\"binding\":"@ + json::quoted(
            info.binding@,
        )) + (",\"commit\":"@ + json::quoted(info.commit@)) + (",\"buildDate\":"@ + json::quoted(
            info.build_date@,
        )) + "}"@,
        endpoint_text(endpoint) == "{"@ + ("\"address\":"@ + json::quoted(endpoint.address@)) + (
        ",\"binding\":"@ + json::quoted(endpoint.binding@)) + (",\"protocol\":"@ + json::quoted(
            endpoint.protocol@,
        )) + (",\"token\":"@ + json::quoted(endpoint.token@)) + (",\"certPem\":"@ + json::quoted(
            endpoint.cert_pem@,
        )) + "}"@,
{
}

/// A failure of the plugin is told with its kind and its reason.
pub proof fn failures_are_told_with_their_reason(error: PluginError, r: String)
    requires
        call_ensures(PluginError::to_text, (&error,), r),
    ensures
        match error {
            PluginError::ConfigEnvMissing => r@
                == "config file not found: A2A_SLIMRPC_PLUGIN_CONFIG env var is not set"@,
            PluginError::ConfigRead { path, reason } => r@ == "failed to read config file '"@
                + path@ + "': "@ + reason@,
            PluginError::ConfigParse { path, reason } => r@ == "failed to parse config file '"@
                + path@ + "': "@ + reason@,
            PluginError::Auth(reason) => r@ == "auth config error: "@ + reason@,
            PluginError::Slim(reason) => r@ == "SLIM service error: "@ + reason@,
            PluginError::Tls(reason) => r@ == "TLS setup error: "@ + reason@,
            PluginError::Bind(reason) => r@ == "server bind error: "@ + reason@,
            PluginError::Handshake(reason) => r@ == "handshake write error: "@ + reason@,
            PluginError::InvalidEndpoint(reason) => r@ == "invalid endpoint: "@ + reason@,
        },
{
}

} // verus!
