//! Push notifications: which URLs may be called, and with which headers.

use vstd::prelude::*;

use crate::error_code;
use crate::net;
use crate::protocol::{
    A2AError, A2AErrorView, AuthenticationInfo, AuthenticationInfoView, TaskPushNotificationConfig,
    TaskPushNotificationConfigView,
};
use crate::span::Span;
use crate::text;

verus! {

/// The scheme and the host of the URL that `url::Url::parse` reads in a text.
pub uninterp spec fn url_parts(s: Seq<char>) -> Option<(Seq<char>, Option<Seq<char>>)>;

/// `url::Url::parse`, with `scheme` and `host_str` of the URL it gives. What
/// they are is a function of the text. The host of an `http` or `https` URL
/// is normalized, so that none of its letters is in upper case.
#[verifier::external_body]
fn parse_url(s: &str) -> (r: Option<(String, Option<String>)>)
    ensures
        r.deep_view() == url_parts(s@),
        match r {
            Some((scheme, Some(host))) => scheme@ == "http"@ || scheme@ == "https"@
                ==> text::lower(host@) == host@,
            _ => true,
        },
{
    match url::Url::parse(s) {
        Ok(url) => Some((url.scheme().to_string(), url.host_str().map(|host| host.to_string()))),
        Err(_) => None,
    }
}

/// The lower case that `str::to_lowercase` gives of a text.
pub uninterp spec fn unicode_lower(s: Seq<char>) -> Seq<char>;

/// Whether a text is made of ASCII characters alone.
pub open spec fn is_ascii_text(s: Seq<char>) -> bool {
    forall|i: int| 0 <= i < s.len() ==> (#[trigger] s[i] as u32) < 128
}

/// `str::to_lowercase`. A text of ASCII characters has its letters put in
/// lower case; what becomes of other characters is left unsaid.
#[verifier::external_body]
fn to_unicode_lower(s: &str) -> (r: String)
    ensures
        r@ == unicode_lower(s@),
        is_ascii_text(s@) ==> r@ == text::lower(s@),
{
    s.to_lowercase()
}

/// An error about the parameters of a request.
pub open spec fn bad_params(message: Seq<char>) -> A2AErrorView {
    A2AErrorView { code: error_code::INVALID_PARAMS, message }
}

/// A host without the dot that a fully qualified name may end in.
pub open spec fn bare_host(host: Seq<char>) -> Seq<char> {
    match text::without_suffix(host, "."@) {
        Some(head) => head,
        None => host,
    }
}

/// The names of loopback, unspecified and metadata hosts.
pub open spec fn is_blocked_name(host: Seq<char>) -> bool {
    ||| host == "127.0.0.1"@
    ||| host == "localhost"@
    ||| host == "::1"@
    ||| host == "[::1]"@
    ||| host == "169.254.169.254"@
    ||| host == "metadata.google.internal"@
    ||| host == "metadata.azure.com"@
    ||| host == "metadata.goog"@
    ||| host == "0.0.0.0"@
}

fn names_blocked_host(host: &str) -> (r: bool)
    ensures
        r == is_blocked_name(host@),
{
    text::same(host, "127.0.0.1") || text::same(host, "localhost") || text::same(host, "::1")
        || text::same(host, "[::1]") || text::same(host, "169.254.169.254") || text::same(
        host,
        "metadata.google.internal",
    ) || text::same(host, "metadata.azure.com") || text::same(host, "metadata.goog") || text::same(
        host,
        "0.0.0.0",
    )
}

/// A host without the brackets of an IPv6 address.
pub open spec fn unbracketed(host: Seq<char>) -> Seq<char> {
    match text::without_prefix(host, "["@) {
        Some(rest) => match text::without_suffix(rest, "]"@) {
            Some(inner) => inner,
            None => host,
        },
        None => host,
    }
}

/// Whether `host` spells an IP address that is off limits.
pub open spec fn is_blocked_literal(host: Seq<char>) -> bool {
    net::ip_address(unbracketed(host)) matches Some(ip) && net::blocked(ip)
}

/// Why a URL with this scheme and host must not be called, if it must not.
pub open spec fn url_problem(parts: Option<(Seq<char>, Option<Seq<char>>)>) -> Option<
    A2AErrorView,
> {
    match parts {
        None => Some(bad_params("invalid push notification URL"@)),
        Some((scheme, host)) => if scheme != "http"@ && scheme != "https"@ {
            Some(bad_params("push URL must be http or https"@))
        } else {
            match host {
                None => None,
                Some(host) => if is_blocked_name(bare_host(host)) {
                    Some(bad_params("push URL targets blocked host"@))
                } else if is_blocked_literal(bare_host(host)) {
                    Some(bad_params("push URL targets private/loopback/link-local address"@))
                } else {
                    None
                },
            }
        },
    }
}

/// What a check stands for: its error, if it failed.
pub open spec fn check_view(check: Result<(), A2AError>) -> Option<A2AErrorView> {
    match check {
        Ok(_) => None,
        Err(error) => Some(error.deep_view()),
    }
}

/// Checks the scheme and the host of a URL that was parsed, or could not be.
pub fn check_url_parts(parts: Option<(String, Option<String>)>) -> (r: Result<(), A2AError>)
    ensures
        check_view(r) == url_problem(parts.deep_view()),
{
    let (scheme, host) = match parts {
        Some(parts) => parts,
        None => {
            return Err(A2AError::invalid_params("invalid push notification URL"));
        },
    };
    if !text::same(scheme.as_str(), "http") && !text::same(scheme.as_str(), "https") {
        return Err(A2AError::invalid_params("push URL must be http or https"));
    }
    if let Some(host) = host {
        let bare = match text::strip_suffix(host.as_str(), ".") {
            Some(head) => head,
            None => host,
        };
        if names_blocked_host(bare.as_str()) {
            return Err(A2AError::invalid_params("push URL targets blocked host"));
        }
        let inner = match text::strip_prefix(bare.as_str(), "[") {
            Some(rest) => match text::strip_suffix(rest.as_str(), "]") {
                Some(inner) => inner,
                None => bare,
            },
            None => bare,
        };
        if let Some(ip) = net::parse_ip(inner.as_str()) {
            if net::is_blocked_ip(ip) {
                return Err(
                    A2AError::invalid_params(
                        "push URL targets private/loopback/link-local address",
                    ),
                );
            }
        }
    }
    Ok(())
}

/// Checks that a push notification may be sent to `url`: it is an `http` or
/// `https` URL, and its host is neither a blocked name, in any case and with
/// or without a final dot, nor a literal address that is off limits.
pub fn validate_push_url(url: &str) -> (r: Result<(), A2AError>)
    ensures
        check_view(r) == url_problem(url_parts(url@)),
        r is Ok ==> url_parts(url@) is Some,
        r is Ok ==> match url_parts(url@) {
            Some((scheme, Some(host))) => !is_blocked_name(bare_host(text::lower(host)))
                && !is_blocked_literal(bare_host(host)),
            _ => true,
        },
{
    check_url_parts(parse_url(url))
}

/// A literal address that is off limits is refused, however the URL spells
/// it: what counts is the host that the URL was parsed to.
pub proof fn blocked_literals_are_refused(scheme: Seq<char>, host: Seq<char>)
    requires
        is_blocked_literal(host),
    ensures
        url_problem(Some((scheme, Some(host)))) is Some,
        url_problem(Some((scheme, Some(host + "."@)))) is Some,
{
    reveal_strlit(".");
    let dotted = host + "."@;
    assert(dotted.subrange(dotted.len() - 1, dotted.len() as int) =~= "."@);
    assert(bare_host(dotted) =~= host);
    lemma_literals_end_without_dot(host);
}

proof fn lemma_names_that_spell_addresses(host: Seq<char>)
    requires
        is_blocked_name(host),
    ensures
        net::ip_address(unbracketed(host)) matches Some(ip) ==> net::blocked(ip),
{
    reveal_strlit("[");
    reveal_strlit("]");
    reveal_strlit("127.0.0.1");
    reveal_strlit("localhost");
    reveal_strlit("::1");
    reveal_strlit("[::1]");
    reveal_strlit("169.254.169.254");
    reveal_strlit("metadata.google.internal");
    reveal_strlit("metadata.azure.com");
    reveal_strlit("metadata.goog");
    reveal_strlit("0.0.0.0");
    net::lemma_blocked_literals();
    if host == "[::1]"@ {
        let rest = host.skip(1);
        assert(host.subrange(0, 1) =~= "["@);
        assert("["@.is_prefix_of(host));
        assert(rest.subrange(3, 4) =~= "]"@);
        assert("]"@.is_suffix_of(rest));
        assert(rest.take(3) =~= "::1"@);
    } else {
        if "["@.is_prefix_of(host) {
            assert(host.subrange(0, 1)[0] == '[');
            assert(host[0] == '[');
        }
        assert(unbracketed(host) == host);
        if !(host == "127.0.0.1"@ || host == "169.254.169.254"@ || host == "0.0.0.0"@ || host
            == "::1"@) {
            net::lemma_ipv4_starts_with_a_digit(host);
            net::lemma_ipv6_needs_colons(host);
        }
    }
}

/// Whether a scheme is one that push notifications are sent by.
pub open spec fn is_web_scheme(scheme: Seq<char>) -> bool {
    scheme == "http"@ || scheme == "https"@
}

/// Of a literal address it is the address alone that decides: it is refused,
/// as an invalid parameter, if and only if it is off limits. A final dot and
/// brackets make no difference.
pub proof fn addresses_decide_about_literals(
    scheme: Seq<char>,
    host: Seq<char>,
    ip: net::IpAddrView,
)
    requires
        is_web_scheme(scheme),
        net::ip_address(unbracketed(bare_host(host))) == Some(ip),
    ensures
        url_problem(Some((scheme, Some(host)))) is Some <==> net::blocked(ip),
        url_problem(Some((scheme, Some(host)))) matches Some(error) ==> error.code
            == error_code::INVALID_PARAMS,
{
    if is_blocked_name(bare_host(host)) {
        lemma_names_that_spell_addresses(bare_host(host));
    }
}

/// Two URLs whose hosts spell one address get one verdict, however they spell
/// it.
pub proof fn spellings_of_an_address_share_a_verdict(
    one: Seq<char>,
    other: Seq<char>,
    ip: net::IpAddrView,
)
    requires
        url_parts(one) matches Some((scheme, Some(host))) && is_web_scheme(scheme)
            && net::ip_address(unbracketed(bare_host(host))) == Some(ip),
        url_parts(other) matches Some((scheme, Some(host))) && is_web_scheme(scheme)
            && net::ip_address(unbracketed(bare_host(host))) == Some(ip),
    ensures
        url_problem(url_parts(one)) is Some <==> net::blocked(ip),
        url_problem(url_parts(other)) is Some <==> net::blocked(ip),
{
    if let Some((scheme, Some(host))) = url_parts(one) {
        addresses_decide_about_literals(scheme, host, ip);
    }
    if let Some((scheme, Some(host))) = url_parts(other) {
        addresses_decide_about_literals(scheme, host, ip);
    }
}

proof fn lemma_literals_end_without_dot(host: Seq<char>)
    requires
        is_blocked_literal(host),
    ensures
        bare_host(host) == host,
{
    reveal_strlit(".");
    reveal_strlit("[");
    reveal_strlit("]");
    reveal_strlit("::");
    if "."@.is_suffix_of(host) {
        assert(host.len() >= 1);
        assert(host.subrange(host.len() - 1, host.len() as int)[0] == '.');
        assert(host.last() == '.');
        let inner = unbracketed(host);
        if inner != host {
            let rest = host.skip(1);
            assert("]"@.is_suffix_of(rest));
            assert(rest.subrange(rest.len() - 1, rest.len() as int)[0] == ']');
            assert(rest.last() == host.last());
            assert(false);
        }
        net::lemma_no_address_ends_in_a_dot(host);
        assert(false);
    }
}

/// How notifications are sent.
pub struct HttpPushSenderConfig {
    /// How long a request may take.
    pub timeout: Span,
    /// Whether a failure to notify stops the execution.
    pub fail_on_error: bool,
    /// Whether URLs are checked before and while they are called. Turn this
    /// off only for local webhooks in trusted test environments.
    pub validate_urls: bool,
}

impl Default for HttpPushSenderConfig {
    fn default() -> (r: Self)
        ensures
            r.timeout == (Span { seconds: 30, nanoseconds: 0 }),
            !r.fail_on_error,
            r.validate_urls,
    {
        HttpPushSenderConfig {
            timeout: Span::from_secs(30),
            fail_on_error: false,
            validate_urls: true,
        }
    }
}

/// The rules that notifications are sent by.
pub struct HttpPushSender {
    pub timeout: Span,
    pub fail_on_error: bool,
    pub validate_urls: bool,
}

/// Whether `s` holds a line break.
pub open spec fn has_line_break(s: Seq<char>) -> bool {
    s.contains('\r') || s.contains('\n')
}

fn holds_line_break(s: &str) -> (r: bool)
    ensures
        r == has_line_break(s@),
{
    let chars = text::chars_of(s);
    let mut i: usize = 0;
    while i < chars.len()
        invariant
            i <= chars@.len(),
            chars@ == s@,
            forall|k: int| 0 <= k < i ==> chars@[k] != '\r' && chars@[k] != '\n',
        decreases chars@.len() - i,
    {
        if chars[i] == '\r' || chars[i] == '\n' {
            assert(s@[i as int] == chars@[i as int]);
            return true;
        }
        i += 1;
    }
    false
}

/// The credentials that a configuration carries.
pub open spec fn credentials(config: TaskPushNotificationConfigView) -> Option<Seq<char>> {
    match config.authentication {
        Some(auth) => auth.credentials,
        None => None,
    }
}

/// Why a configuration must not be used, if it must not: first the URL, then
/// line breaks in what would become a header.
pub open spec fn config_problem(
    validate_urls: bool,
    config: TaskPushNotificationConfigView,
) -> Option<A2AErrorView> {
    if validate_urls && url_problem(url_parts(config.url)) is Some {
        url_problem(url_parts(config.url))
    } else if config.token is Some && has_line_break(config.token->0) {
        Some(bad_params("push notification token must not contain CR/LF"@))
    } else if credentials(config) is Some && has_line_break(credentials(config)->0) {
        Some(bad_params("push credentials must not contain CR/LF"@))
    } else {
        None
    }
}

/// The header that authenticates a notification: credentials under a scheme
/// that is known.
pub open spec fn authorization(auth: AuthenticationInfoView) -> Option<Seq<char>> {
    match auth.credentials {
        Some(credentials) => if unicode_lower(auth.scheme) == "bearer"@ {
            Some("Bearer "@ + credentials)
        } else if unicode_lower(auth.scheme) == "basic"@ {
            Some("Basic "@ + credentials)
        } else {
            None
        },
        None => None,
    }
}

/// The headers of a notification.
pub open spec fn push_headers(config: TaskPushNotificationConfigView) -> Seq<
    (Seq<char>, Seq<char>),
> {
    let content = seq![("Content-Type"@, "application/json"@)];
    let token = match config.token {
        Some(token) => content.push(("A2A-Notification-Token"@, token)),
        None => content,
    };
    match config.authentication {
        Some(auth) => match authorization(auth) {
            Some(value) => token.push(("Authorization"@, value)),
            None => token,
        },
        None => token,
    }
}

fn make_authorization(auth: &AuthenticationInfo) -> (r: Option<String>)
    ensures
        r.deep_view() == authorization(auth.deep_view()),
        auth.credentials is Some && is_ascii_text(auth.scheme@) ==> unicode_lower(auth.scheme@)
            == text::lower(auth.scheme@),
{
    match &auth.credentials {
        Some(credentials) => {
            let scheme = to_unicode_lower(auth.scheme.as_str());
            let mut value = if text::same(scheme.as_str(), "bearer") {
                "Bearer ".to_string()
            } else if text::same(scheme.as_str(), "basic") {
                "Basic ".to_string()
            } else {
                return None;
            };
            value.append(credentials.as_str());
            Some(value)
        },
        None => None,
    }
}

/// A notification to send: the event goes in the body.
pub struct PushRequest {
    pub url: String,
    pub headers: Vec<(String, String)>,
}

/// What came of a notification.
pub enum PushOutcome {
    /// The event could not be serialized.
    Unserializable { reason: String },
    /// The endpoint answered.
    Answered { code: u16, status: String },
    /// The endpoint could not be reached.
    Unreachable { reason: String },
}

/// What a failure to notify means for the execution: it is passed over,
/// unless failures stop it.
pub open spec fn failure_result(fail_on_error: bool) -> Option<A2AErrorView> {
    if fail_on_error {
        Some(A2AErrorView { code: error_code::INTERNAL_ERROR, message: "internal error"@ })
    } else {
        None
    }
}

/// What happens next to a notification that was redirected.
#[derive(Debug, Clone, Copy, PartialEq, Eq, Structural)]
pub enum Redirect {
    /// Go no further, and take the redirect itself as the answer.
    Stop,
    /// Fail: the target must not be called.
    Refuse,
    /// Go to the target.
    Follow,
}

/// How many redirects are followed.
pub const MAX_REDIRECTS: usize = 10;

/// Decides on a redirect to `url` after `previous` requests. Every hop is
/// checked like the first URL.
pub fn redirect_decision(previous: usize, url: &str) -> (r: Redirect)
    ensures
        r == (if previous >= MAX_REDIRECTS {
            Redirect::Stop
        } else if url_problem(url_parts(url@)) is Some {
            Redirect::Refuse
        } else {
            Redirect::Follow
        }),
{
    if previous >= MAX_REDIRECTS {
        return Redirect::Stop;
    }
    match validate_push_url(url) {
        Ok(_) => Redirect::Follow,
        Err(_) => Redirect::Refuse,
    }
}

impl HttpPushSender {
    /// Sends by `config`, or by the defaults.
    pub fn new(config: Option<HttpPushSenderConfig>) -> (r: Self)
        ensures
            match config {
                Some(config) => r.timeout == config.timeout && r.fail_on_error
                    == config.fail_on_error && r.validate_urls == config.validate_urls,
                None => r.timeout == (Span { seconds: 30, nanoseconds: 0 }) && !r.fail_on_error
                    && r.validate_urls,
            },
    {
        let config = match config {
            Some(config) => config,
            None => HttpPushSenderConfig::default(),
        };
        HttpPushSender {
            timeout: config.timeout,
            fail_on_error: config.fail_on_error,
            validate_urls: config.validate_urls,
        }
    }

    /// The notification to send for `config`. A configuration that must not be
    /// used is an error, even where failures to notify are passed over.
    pub fn send_push(&self, config: &TaskPushNotificationConfig) -> (r: Result<
        PushRequest,
        A2AError,
    >)
        ensures
            match r {
                Ok(request) => {
                    &&& config_problem(self.validate_urls, config.deep_view()) is None
                    &&& request.url@ == config.url@
                    &&& request.headers.deep_view() == push_headers(config.deep_view())
                    &&& config.authentication matches Some(auth) ==> (auth.credentials is Some
                        && is_ascii_text(auth.scheme@) ==> unicode_lower(auth.scheme@)
                        == text::lower(auth.scheme@))
                },
                Err(error) => config_problem(self.validate_urls, config.deep_view()) == Some(
                    error.deep_view(),
                ),
            },
    {
        if self.validate_urls {
            match validate_push_url(config.url.as_str()) {
                Ok(_) => {},
                Err(error) => {
                    return Err(error);
                },
            }
        }
        if let Some(token) = &config.token {
            if holds_line_break(token.as_str()) {
                return Err(
                    A2AError::invalid_params("push notification token must not contain CR/LF"),
                );
            }
        }
        if let Some(auth) = &config.authentication {
            if let Some(credentials) = &auth.credentials {
                if holds_line_break(credentials.as_str()) {
                    return Err(A2AError::invalid_params("push credentials must not contain CR/LF"));
                }
            }
        }
        let mut headers: Vec<(String, String)> = Vec::new();
        headers.push(("Content-Type".to_string(), "application/json".to_string()));
        assert(headers.deep_view() =~= seq![("Content-Type"@, "application/json"@)]);
        if let Some(token) = &config.token {
            let ghost before = headers.deep_view();
            headers.push(("A2A-Notification-Token".to_string(), token.clone()));
            assert(headers.deep_view() =~= before.push(("A2A-Notification-Token"@, token@)));
        }
        if let Some(auth) = &config.authentication {
            if let Some(value) = make_authorization(auth) {
                let ghost before = headers.deep_view();
                let ghost view = value@;
                headers.push(("Authorization".to_string(), value));
                assert(headers.deep_view() =~= before.push(("Authorization"@, view)));
            }
        }
        Ok(PushRequest { url: config.url.clone(), headers })
    }

    /// What a failure to notify means for the execution, and what to log of
    /// it. The error keeps the reason to itself.
    pub fn handle_error(&self, reason: String) -> (r: (Result<(), A2AError>, Option<String>))
        ensures
            check_view(r.0) == failure_result(self.fail_on_error),
            r.1.deep_view() == Some(reason@),
    {
        if self.fail_on_error {
            (Err(A2AError::internal("internal error")), Some(reason))
        } else {
            (Ok(()), Some(reason))
        }
    }

    /// What `outcome` means for the execution, and what to log of it: an
    /// answer from 200 to 299 is a success, and anything else a failure.
    pub fn finish_push(&self, outcome: &PushOutcome) -> (r: (Result<(), A2AError>, Option<String>))
        ensures
            match outcome {
                PushOutcome::Answered { code, status } => if 200 <= *code <= 299 {
                    r.0 is Ok && r.1 is None
                } else {
                    check_view(r.0) == failure_result(self.fail_on_error) && r.1.deep_view()
                        == Some("push endpoint returned status: "@ + status@)
                },
                PushOutcome::Unserializable { reason } => check_view(r.0) == failure_result(
                    self.fail_on_error,
                ) && r.1.deep_view() == Some("failed to serialize event: "@ + reason@),
                PushOutcome::Unreachable { reason } => check_view(r.0) == failure_result(
                    self.fail_on_error,
                ) && r.1.deep_view() == Some("failed to send push notification: "@ + reason@),
            },
    {
        let mut message = match outcome {
            PushOutcome::Answered { code, status } => {
                if 200 <= *code && *code <= 299 {
                    return (Ok(()), None);
                }
                "push endpoint returned status: ".to_string()
            },
            PushOutcome::Unserializable { reason } => "failed to serialize event: ".to_string(),
            PushOutcome::Unreachable { reason } => "failed to send push notification: ".to_string(),
        };
        match outcome {
            PushOutcome::Answered { code, status } => message.append(status.as_str()),
            PushOutcome::Unserializable { reason } => message.append(reason.as_str()),
            PushOutcome::Unreachable { reason } => message.append(reason.as_str()),
        }
        self.handle_error(message)
    }
}

/// No notification carries a line break in a header, so that neither a token
/// nor credentials can add a header of their own.
pub proof fn headers_hold_no_line_breaks(
    validate_urls: bool,
    config: TaskPushNotificationConfigView,
    i: int,
)
    requires
        config_problem(validate_urls, config) is None,
        0 <= i < push_headers(config).len(),
    ensures
        !has_line_break(push_headers(config)[i].0),
        !has_line_break(push_headers(config)[i].1),
{
    reveal_strlit("Content-Type");
    reveal_strlit("application/json");
    reveal_strlit("A2A-Notification-Token");
    reveal_strlit("Authorization");
    reveal_strlit("Bearer ");
    reveal_strlit("Basic ");
    let (name, value) = push_headers(config)[i];
    if has_line_break(value) {
        let k = choose|k: int| 0 <= k < value.len() && (value[k] == '\r' || value[k] == '\n');
        if name == "Authorization"@ && config.authentication is Some && authorization(
            config.authentication->0,
        ) == Some(value) {
            let creds = credentials(config)->0;
            let lead = value.len() - creds.len();
            if k >= lead {
                assert(creds[k - lead] == value[k]);
            }
        }
    }
}

/// A notification carries the token of its configuration exactly where the
/// configuration has one, whatever its authentication is.
pub proof fn tokens_are_sent_whatever_the_authentication(
    sender: HttpPushSender,
    config: TaskPushNotificationConfig,
    request: PushRequest,
    value: Seq<char>,
)
    requires
        call_ensures(HttpPushSender::send_push, (&sender, &config), Ok(request)),
    ensures
        request.headers.deep_view().contains(("A2A-Notification-Token"@, value)) <==> (
        config.token matches Some(token) && token@ == value),
{
    lemma_header_names();
    let headers = request.headers.deep_view();
    assert(headers == push_headers(config.deep_view()));
    if config.token matches Some(token) && token@ == value {
        assert(headers[1] == ("A2A-Notification-Token"@, value));
    }
}

/// A notification is authorized exactly where its configuration has
/// credentials under a scheme that is known, and with these credentials,
/// whatever its token is.
pub proof fn credentials_are_sent_whatever_the_token(
    sender: HttpPushSender,
    config: TaskPushNotificationConfig,
    request: PushRequest,
    value: Seq<char>,
)
    requires
        call_ensures(HttpPushSender::send_push, (&sender, &config), Ok(request)),
    ensures
        request.headers.deep_view().contains(("Authorization"@, value)) <==> (
        config.authentication matches Some(auth) && auth.credentials matches Some(credentials) && {
            ||| unicode_lower(auth.scheme@) == "bearer"@ && value == "Bearer "@ + credentials@
            ||| unicode_lower(auth.scheme@) == "basic"@ && value == "Basic "@ + credentials@
        }),
        config.authentication matches Some(auth) ==> (auth.credentials is Some && is_ascii_text(
            auth.scheme@,
        ) ==> unicode_lower(auth.scheme@) == text::lower(auth.scheme@)),
{
    lemma_header_names();
    let headers = request.headers.deep_view();
    assert(headers == push_headers(config.deep_view()));
    if config.authentication is Some {
        let auth = config.authentication->0;
        if authorization(auth.deep_view()) is Some {
            assert(headers[headers.len() - 1] == (
                "Authorization"@,
                authorization(auth.deep_view())->0,
            ));
        }
    }
}

/// A notification says that its body is JSON, and it has no headers but that
/// one, its token and its authorization, each at most once. It goes to the
/// address of its configuration.
pub proof fn notifications_carry_no_other_headers(
    sender: HttpPushSender,
    config: TaskPushNotificationConfig,
    request: PushRequest,
)
    requires
        call_ensures(HttpPushSender::send_push, (&sender, &config), Ok(request)),
    ensures
        request.url@ == config.url@,
        request.headers.deep_view().contains(("Content-Type"@, "application/json"@)),
        forall|i: int|
            0 <= i < request.headers.deep_view().len() ==> {
                let name = (#[trigger] request.headers.deep_view()[i]).0;
                ||| name == "Content-Type"@
                ||| name == "A2A-Notification-Token"@
                ||| name == "Authorization"@
            },
        forall|i: int, j: int|
            0 <= i < j < request.headers.deep_view().len() ==> (
            #[trigger] request.headers.deep_view()[i]).0 != (
            #[trigger] request.headers.deep_view()[j]).0,
{
    lemma_header_names();
    let headers = request.headers.deep_view();
    assert(headers == push_headers(config.deep_view()));
    assert(headers[0] == ("Content-Type"@, "application/json"@));
}

proof fn lemma_header_names()
    ensures
        "Content-Type"@ != "A2A-Notification-Token"@,
        "Content-Type"@ != "Authorization"@,
        "A2A-Notification-Token"@ != "Authorization"@,
        "bearer"@ != "basic"@,
{
    reveal_strlit("Content-Type");
    reveal_strlit("A2A-Notification-Token");
    reveal_strlit("Authorization");
    reveal_strlit("bearer");
    reveal_strlit("basic");
    assert("Content-Type"@.len() == 12);
    assert("A2A-Notification-Token"@.len() == 22);
    assert("Authorization"@.len() == 13);
    assert("bearer"@.len() == 6);
    assert("basic"@.len() == 5);
}

/// Whether a character ends a line.
pub open spec fn is_line_break(c: char) -> bool {
    c == '\r' || c == '\n'
}

/// A configuration is refused exactly where its URL is, if URLs are checked,
/// or where its token or its credentials hold a line break; without the check
/// any URL will do. The error is always one about the parameters.
pub proof fn configurations_are_refused_for_a_reason(
    sender: HttpPushSender,
    config: TaskPushNotificationConfig,
    url: &str,
    checked: Result<(), A2AError>,
    r: Result<PushRequest, A2AError>,
)
    requires
        call_ensures(HttpPushSender::send_push, (&sender, &config), r),
        url@ == config.url@,
        call_ensures(validate_push_url, (url,), checked),
    ensures
        r is Err <==> {
            ||| sender.validate_urls && checked is Err
            ||| config.token is Some && exists|k: int|
                0 <= k < config.token->0@.len() && is_line_break(#[trigger] config.token->0@[k])
            ||| config.authentication is Some && config.authentication->0.credentials is Some
                && exists|k: int|
                0 <= k < config.authentication->0.credentials->0@.len() && is_line_break(
                    #[trigger] config.authentication->0.credentials->0@[k],
                )
        },
        sender.validate_urls ==> (checked matches Err(error) ==> (r matches Err(told)
            && told.deep_view() == error.deep_view())),
        r matches Err(error) ==> error.code == error_code::INVALID_PARAMS,
{
    if config.token is Some {
        lemma_line_breaks(config.token->0@);
    }
    if config.authentication is Some && config.authentication->0.credentials is Some {
        lemma_line_breaks(config.authentication->0.credentials->0@);
    }
}

proof fn lemma_line_breaks(s: Seq<char>)
    ensures
        has_line_break(s) <==> exists|k: int| 0 <= k < s.len() && is_line_break(#[trigger] s[k]),
{
    if s.contains('\r') {
        let k = choose|k: int| 0 <= k < s.len() && s[k] == '\r';
        assert(is_line_break(s[k]));
    }
    if s.contains('\n') {
        let k = choose|k: int| 0 <= k < s.len() && s[k] == '\n';
        assert(is_line_break(s[k]));
    }
}

/// A URL may be called exactly where it is an `http` or `https` URL whose host,
/// without a final dot, is neither one of the blocked names nor, without
/// brackets around it, an address that is off limits. A URL that is none is
/// refused, and so is any other scheme.
pub proof fn urls_are_refused_by_scheme_name_and_address(
    url: &str,
    checked: Result<(), A2AError>,
)
    requires
        call_ensures(validate_push_url, (url,), checked),
    ensures
        checked is Ok <==> (url_parts(url@) matches Some((scheme, host)) && {
            &&& scheme == "http"@ || scheme == "https"@
            &&& host matches Some(host) ==> {
                let bare = if host.len() > 0 && host.last() == '.' {
                    host.drop_last()
                } else {
                    host
                };
                let inner = if bare.len() >= 2 && bare[0] == '[' && bare.last() == ']' {
                    bare.subrange(1, bare.len() - 1)
                } else {
                    bare
                };
                &&& bare != "localhost"@
                &&& bare != "127.0.0.1"@
                &&& bare != "0.0.0.0"@
                &&& bare != "::1"@
                &&& bare != "[::1]"@
                &&& bare != "169.254.169.254"@
                &&& bare != "metadata.google.internal"@
                &&& bare != "metadata.azure.com"@
                &&& bare != "metadata.goog"@
                &&& net::ip_address(inner) matches Some(ip) ==> !net::blocked(ip)
            }
        }),
        checked matches Err(error) ==> error.code == error_code::INVALID_PARAMS,
{
    reveal_strlit(".");
    reveal_strlit("[");
    reveal_strlit("]");
    if let Some((scheme, Some(host))) = url_parts(url@) {
        let bare = bare_host(host);
        lemma_one_character_ends(host, '.');
        lemma_one_character_ends(bare.skip(1), ']');
        assert("."@ =~= seq!['.']);
        assert("["@ =~= seq!['[']);
        assert("]"@ =~= seq![']']);
        assert("["@.is_prefix_of(bare) <==> bare.len() > 0 && bare[0] == '[') by {
            if bare.len() > 0 && bare[0] == '[' {
                assert(bare.subrange(0, 1) =~= "["@);
            }
            if "["@.is_prefix_of(bare) {
                assert(bare.subrange(0, 1)[0] == '[');
            }
        }
        if bare.len() >= 2 && bare[0] == '[' && bare.last() == ']' {
            assert(bare.skip(1).last() == bare.last());
            assert(unbracketed(bare) =~= bare.subrange(1, bare.len() - 1));
        } else if bare.len() > 0 && bare[0] == '[' && "]"@.is_suffix_of(bare.skip(1)) {
            assert(bare.skip(1).last() == bare.last());
        }
    }
}

proof fn lemma_one_character_ends(s: Seq<char>, c: char)
    ensures
        seq![c].is_suffix_of(s) <==> s.len() > 0 && s.last() == c,
        s.len() > 0 ==> s.take(s.len() - 1) == s.drop_last(),
{
    if s.len() > 0 {
        assert(s.take(s.len() - 1) =~= s.drop_last());
        let end = s.subrange(s.len() - 1, s.len() as int);
        assert(end[0] == s.last());
        if s.last() == c {
            assert(end =~= seq![c]);
        }
    }
}

/// A redirect is held to what the first URL was held to: as long as there were
/// not too many, it is followed exactly where its target might have been
/// called in the first place.
pub proof fn redirects_are_checked_like_the_first_url(
    previous: usize,
    url: &str,
    checked: Result<(), A2AError>,
    r: Redirect,
)
    requires
        call_ensures(validate_push_url, (url,), checked),
        call_ensures(redirect_decision, (previous, url), r),
    ensures
        previous >= 10 ==> r == Redirect::Stop,
        previous < 10 ==> (r == Redirect::Follow <==> checked is Ok),
        previous < 10 ==> (r == Redirect::Refuse <==> checked is Err),
{
}

/// A notification that was not answered with success stops the execution
/// exactly where failures are to stop it, with an error that tells no reason;
/// the reason is logged either way. Success is neither an error nor logged.
pub proof fn failures_stop_only_who_asked_for_it(
    sender: HttpPushSender,
    outcome: PushOutcome,
    r: (Result<(), A2AError>, Option<String>),
)
    requires
        call_ensures(HttpPushSender::finish_push, (&sender, &outcome), r),
    ensures
        ({
            let success = outcome matches PushOutcome::Answered { code, status } && 200 <= code
                <= 299;
            &&& r.0 is Err <==> sender.fail_on_error && !success
            &&& r.1 is None <==> success
            &&& r.0 matches Err(error) ==> error.code == error_code::INTERNAL_ERROR
                && error.message@ == "internal error"@
        }),
{
}

/// What is told of a refused configuration is the first thing that is wrong
/// with it: the URL, then the token, then the credentials.
pub proof fn refusals_tell_the_first_reason(
    validate_urls: bool,
    config: TaskPushNotificationConfigView,
)
    ensures
        ({
            let problem = config_problem(validate_urls, config);
            let url = validate_urls && url_problem(url_parts(config.url)) is Some;
            let token = config.token is Some && (config.token->0.contains('\r')
                || config.token->0.contains('\n'));
            let secret = config.authentication is Some && config.authentication->0.credentials is Some
                && (config.authentication->0.credentials->0.contains('\r')
                || config.authentication->0.credentials->0.contains('\n'));
            &&& url ==> problem == url_problem(url_parts(config.url))
            &&& !url && token ==> problem is Some && problem->0.message
                == "push notification token must not contain CR/LF"@
            &&& !url && !token && secret ==> problem is Some && problem->0.message
                == "push credentials must not contain CR/LF"@
            &&& !url && !token && !secret ==> problem is None
        }),
        url_problem(None) matches Some(error) && error.message == "invalid push notification URL"@,
{
}

} // verus!
