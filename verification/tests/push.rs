use a2a_kit::error_code;
use a2a_kit::net::{connectable_addrs, is_blocked_ip, is_loopback_ip, parse_ip, IpAddr, SocketAddr};
use a2a_kit::protocol::{AuthenticationInfo, TaskPushNotificationConfig};
use a2a_kit::push::{
    check_url_parts, redirect_decision, validate_push_url, HttpPushSender, HttpPushSenderConfig,
    PushOutcome, Redirect,
};
use a2a_kit::span::Span;

#[test]
fn test_default_config() {
    let config = HttpPushSenderConfig::default();
    assert_eq!(config.timeout, Span::from_secs(30));
    assert!(!config.fail_on_error);
    assert!(config.validate_urls);
}

#[test]
fn test_sender_new_default() {
    let sender = HttpPushSender::new(None);
    assert!(!sender.fail_on_error);
    assert!(sender.validate_urls);
}

#[test]
fn test_sender_new_custom() {
    let config = HttpPushSenderConfig {
        timeout: Span::from_secs(10),
        fail_on_error: true,
        validate_urls: false,
    };
    let sender = HttpPushSender::new(Some(config));
    assert!(sender.fail_on_error);
    assert!(!sender.validate_urls);
    assert_eq!(sender.timeout, Span::from_secs(10));
}

#[test]
fn test_handle_error_fail_on_error() {
    let sender = HttpPushSender::new(Some(HttpPushSenderConfig {
        timeout: Span::from_secs(5),
        fail_on_error: true,
        validate_urls: true,
    }));
    let (result, logged) = sender.handle_error("test error".to_string());
    assert!(result.is_err());
    assert_eq!(logged.as_deref(), Some("test error"));
}

#[test]
fn test_handle_error_ignore() {
    let sender = HttpPushSender::new(None);
    let (result, _) = sender.handle_error("test error".to_string());
    assert!(result.is_ok());
}

fn sample_config(url: &str) -> TaskPushNotificationConfig {
    TaskPushNotificationConfig {
        task_id: String::new(),
        url: url.to_string(),
        id: None,
        token: None,
        authentication: None,
        tenant: None,
    }
}

fn with_auth(scheme: &str, credentials: &str) -> TaskPushNotificationConfig {
    let mut config = sample_config("https://example.com/callback");
    config.authentication = Some(AuthenticationInfo {
        scheme: scheme.to_string(),
        credentials: Some(credentials.to_string()),
    });
    config
}

fn unchecked() -> HttpPushSender {
    HttpPushSender::new(Some(HttpPushSenderConfig {
        validate_urls: false,
        ..Default::default()
    }))
}

fn pair(name: &str, value: &str) -> (String, String) {
    (name.to_string(), value.to_string())
}

#[test]
fn test_send_push_connection_refused_no_fail() {
    let sender = unchecked();
    let mut config = with_auth("bearer", "secret");
    config.url = "http://127.0.0.1:1/callback".to_string();
    config.token = Some("tok".to_string());
    let request = sender.send_push(&config).ok().unwrap();
    assert_eq!(request.url, "http://127.0.0.1:1/callback");
    assert_eq!(
        request.headers,
        vec![
            pair("Content-Type", "application/json"),
            pair("A2A-Notification-Token", "tok"),
            pair("Authorization", "Bearer secret"),
        ]
    );
    let (result, logged) = sender.finish_push(&PushOutcome::Unreachable {
        reason: "connection refused".to_string(),
    });
    assert!(result.is_ok());
    assert_eq!(
        logged.as_deref(),
        Some("failed to send push notification: connection refused")
    );
}

#[test]
fn test_send_push_connection_refused_fail() {
    let sender = HttpPushSender::new(Some(HttpPushSenderConfig {
        timeout: Span::from_millis(100),
        fail_on_error: true,
        validate_urls: false,
    }));
    assert!(sender
        .send_push(&sample_config("http://127.0.0.1:1/callback"))
        .is_ok());
    let (result, _) = sender.finish_push(&PushOutcome::Unreachable {
        reason: "connection refused".to_string(),
    });
    assert_eq!(result.unwrap_err().code, error_code::INTERNAL_ERROR);
}

#[test]
fn test_send_push_with_basic_auth() {
    let request = unchecked()
        .send_push(&with_auth("basic", "dXNlcjpwYXNz"))
        .ok()
        .unwrap();
    assert_eq!(
        request.headers,
        vec![
            pair("Content-Type", "application/json"),
            pair("Authorization", "Basic dXNlcjpwYXNz"),
        ]
    );
}

#[test]
fn test_send_push_with_unknown_auth_scheme() {
    let request = unchecked()
        .send_push(&with_auth("custom", "cred"))
        .ok()
        .unwrap();
    assert_eq!(
        request.headers,
        vec![pair("Content-Type", "application/json")]
    );
}

#[test]
fn auth_schemes_are_told_apart_whatever_their_case() {
    let request = unchecked()
        .send_push(&with_auth("BEARER", "secret"))
        .ok()
        .unwrap();
    assert_eq!(request.headers[1], pair("Authorization", "Bearer secret"));
}

#[test]
fn answers_are_judged_by_their_status() {
    let sender = HttpPushSender::new(Some(HttpPushSenderConfig {
        timeout: Span::from_secs(5),
        fail_on_error: true,
        validate_urls: true,
    }));
    for code in [200u16, 204, 299] {
        let (result, logged) = sender.finish_push(&PushOutcome::Answered {
            code,
            status: String::new(),
        });
        assert!(result.is_ok());
        assert_eq!(logged, None);
    }
    let (result, logged) = sender.finish_push(&PushOutcome::Answered {
        code: 302,
        status: "302 Found".to_string(),
    });
    assert_eq!(result.unwrap_err().message, "internal error");
    assert_eq!(
        logged.as_deref(),
        Some("push endpoint returned status: 302 Found")
    );
    let (result, logged) = sender.finish_push(&PushOutcome::Unserializable {
        reason: "bad".to_string(),
    });
    assert!(result.is_err());
    assert_eq!(logged.as_deref(), Some("failed to serialize event: bad"));
}

#[test]
fn test_validate_push_url_rejects_non_http_schemes() {
    for url in [
        "file:///etc/passwd",
        "ftp://example.com/hook",
        "gopher://example.com/",
    ] {
        let err = validate_push_url(url).unwrap_err();
        assert_eq!(err.code, error_code::INVALID_PARAMS);
    }
}

#[test]
fn test_validate_push_url_rejects_loopback() {
    for url in [
        "http://127.0.0.1:1/callback",
        "http://localhost/callback",
        "http://[::1]/callback",
        "http://0.0.0.0/callback",
    ] {
        assert!(
            validate_push_url(url).is_err(),
            "expected {url} to be rejected"
        );
    }
}

#[test]
fn test_validate_push_url_rejects_private_and_link_local() {
    for url in [
        "http://10.0.0.1/callback",
        "http://192.168.1.1/callback",
        "http://172.16.0.1/callback",
        "http://169.254.169.254/latest/meta-data/",
        "http://169.254.1.1/callback",
        "http://metadata.google.internal/callback",
    ] {
        assert!(
            validate_push_url(url).is_err(),
            "expected {url} to be rejected"
        );
    }
}

#[test]
fn test_validate_push_url_rejects_trailing_dot_hosts() {
    for url in [
        "http://localhost./hook",
        "http://LocalHost./hook",
        "https://localhost./hook",
        "http://metadata.google.internal./hook",
        "http://metadata.azure.com./hook",
    ] {
        assert!(
            validate_push_url(url).is_err(),
            "{url} must be blocked, but was allowed"
        );
    }
}

#[test]
fn test_validate_push_url_rejects_alternate_ipv4_spellings() {
    for url in [
        "http://2130706433/hook",
        "http://0x7f.0.0.1/hook",
        "http://127.1/hook",
        "http://127.0.0.1./hook",
        "http://[::ffff:127.0.0.1]/hook",
    ] {
        assert!(
            validate_push_url(url).is_err(),
            "{url} must be blocked, but was allowed"
        );
    }
}

#[test]
fn test_is_blocked_ip_checks_every_range_through_an_ipv4_mapped_address() {
    for (ip, why) in [
        ("::ffff:169.254.1.1", "link-local"),
        ("::ffff:0.0.0.0", "unspecified"),
        ("::ffff:224.0.0.1", "multicast"),
    ] {
        let addr = parse_ip(ip).unwrap();
        assert!(is_blocked_ip(addr), "{ip} ({why}) should be blocked");
    }
    let public = parse_ip("::ffff:93.184.216.34").unwrap();
    assert!(
        !is_blocked_ip(public),
        "a public mapped address was blocked"
    );
}

#[test]
fn test_validate_push_url_rejects_blocked_hosts_regardless_of_case() {
    for url in [
        "http://LOCALHOST/hook",
        "http://METADATA.GOOGLE.INTERNAL/hook",
        "http://Metadata.Azure.Com/hook",
    ] {
        assert!(
            validate_push_url(url).is_err(),
            "{url} must be blocked, but was allowed"
        );
    }
}

#[test]
fn test_validate_push_url_accepts_public_urls() {
    for url in [
        "http://example.com/callback",
        "https://example.com/callback",
        "https://hooks.example.com/abc?x=1",
    ] {
        assert!(
            validate_push_url(url).is_ok(),
            "expected {url} to be accepted"
        );
    }
}

#[test]
fn test_send_push_rejects_blocked_url_even_without_fail_on_error() {
    let sender = HttpPushSender::new(None);
    let result = sender.send_push(&sample_config("http://127.0.0.1:1/callback"));
    assert_eq!(result.err().unwrap().code, error_code::INVALID_PARAMS);
}

#[test]
fn test_send_push_rejects_crlf_credentials() {
    let sender = HttpPushSender::new(None);
    let result = sender.send_push(&with_auth("bearer", "secret\r\nX-Injected: 1"));
    assert_eq!(result.err().unwrap().code, error_code::INVALID_PARAMS);
}

#[test]
fn test_send_push_rejects_crlf_token() {
    let sender = HttpPushSender::new(None);
    let mut config = sample_config("https://example.com/callback");
    config.token = Some("tok\nX-Injected: 1".to_string());
    let result = sender.send_push(&config);
    assert_eq!(result.err().unwrap().code, error_code::INVALID_PARAMS);
}

#[test]
fn test_validate_push_url_rejects_invalid_url() {
    assert!(validate_push_url("not a url").is_err());
    assert!(validate_push_url("").is_err());
    assert!(validate_push_url("http://").is_err());
}

#[test]
fn test_validate_push_url_rejects_ipv6_restricted_ranges() {
    for url in [
        "http://[fc00::1]/cb",
        "http://[fd12:3456:789a::1]/cb",
        "http://[fe80::1]/cb",
        "http://[ff02::1]/cb",
        "http://[::]/cb",
    ] {
        let result = validate_push_url(url);
        assert!(result.is_err(), "expected {url} to be rejected");
        assert_eq!(result.unwrap_err().code, error_code::INVALID_PARAMS);
    }
}

#[test]
fn test_validate_push_url_rejects_ipv4_mapped_ipv6() {
    for url in [
        "http://[::ffff:127.0.0.1]/cb",
        "http://[::ffff:10.0.0.1]/cb",
    ] {
        let result = validate_push_url(url);
        assert!(result.is_err(), "expected {url} to be rejected");
        assert_eq!(result.unwrap_err().code, error_code::INVALID_PARAMS);
    }
}

#[test]
fn test_validate_push_url_rejects_ipv4_multicast() {
    let result = validate_push_url("http://224.0.0.1/cb");
    assert!(result.is_err());
    assert_eq!(result.unwrap_err().code, error_code::INVALID_PARAMS);
}

#[test]
fn test_validate_push_url_accepts_global_ipv6() {
    assert!(validate_push_url("http://[2606:4700::1111]/cb").is_ok());
}

fn socket(ip: &str, port: u16) -> SocketAddr {
    SocketAddr {
        ip: parse_ip(ip).unwrap(),
        port,
    }
}

#[test]
fn test_connectable_addrs_drops_blocked_keeps_public() {
    let addrs = vec![
        socket("127.0.0.1", 443),
        socket("10.0.0.5", 443),
        socket("169.254.169.254", 80),
        socket("93.184.216.34", 443),
        socket("fc00::1", 443),
        socket("2606:4700::1111", 443),
    ];
    let ips: Vec<IpAddr> = connectable_addrs(&addrs).iter().map(|a| a.ip).collect();
    assert_eq!(
        ips,
        vec![
            parse_ip("93.184.216.34").unwrap(),
            parse_ip("2606:4700::1111").unwrap(),
        ]
    );
}

#[test]
fn test_connectable_addrs_all_blocked_is_empty() {
    let addrs = vec![socket("127.0.0.1", 443), socket("192.168.1.1", 443)];
    assert!(connectable_addrs(&addrs).is_empty());
}

#[test]
fn test_redirect_hop_check_rejects_blocked_targets() {
    assert!(validate_push_url("http://127.0.0.1/").is_err());
    assert!(validate_push_url("http://169.254.169.254/latest/meta-data/").is_err());
    assert!(validate_push_url("http://[::1]/").is_err());
    assert!(validate_push_url("https://example.com/next").is_ok());
}

#[test]
fn redirects_are_checked_at_every_hop_and_bounded() {
    assert_eq!(
        redirect_decision(1, "http://169.254.169.254/latest/meta-data/"),
        Redirect::Refuse
    );
    assert_eq!(
        redirect_decision(1, "https://example.com/next"),
        Redirect::Follow
    );
    assert_eq!(
        redirect_decision(9, "https://example.com/next"),
        Redirect::Follow
    );
    assert_eq!(
        redirect_decision(10, "https://example.com/next"),
        Redirect::Stop
    );
}

#[test]
fn url_parts_decide_without_a_parser() {
    let parts = |scheme: &str, host: &str| Some((scheme.to_string(), Some(host.to_string())));
    assert!(check_url_parts(parts("https", "example.com")).is_ok());
    assert!(check_url_parts(parts("ftp", "example.com")).is_err());
    assert!(check_url_parts(parts("http", "[::1]")).is_err());
    assert!(check_url_parts(parts("http", "localhost.")).is_err());
    assert!(check_url_parts(Some(("http".to_string(), None))).is_ok());
    assert!(check_url_parts(None).is_err());
}

#[test]
fn addresses_are_read_as_std_reads_them() {
    assert_eq!(parse_ip("127.0.0.1"), Some(IpAddr::V4([127, 0, 0, 1])));
    assert_eq!(parse_ip("127.0.0.01"), None);
    assert_eq!(parse_ip("256.0.0.1"), None);
    assert_eq!(parse_ip("1.2.3"), None);
    assert_eq!(
        parse_ip("::1"),
        Some(IpAddr::V6([0, 0, 0, 0, 0, 0, 0, 1]))
    );
    assert_eq!(
        parse_ip("2001:db8::ff00:42:8329"),
        Some(IpAddr::V6([0x2001, 0xdb8, 0, 0, 0, 0xff00, 0x42, 0x8329]))
    );
    assert_eq!(
        parse_ip("::ffff:1.2.3.4"),
        Some(IpAddr::V6([0, 0, 0, 0, 0, 0xffff, 0x0102, 0x0304]))
    );
    assert_eq!(parse_ip("1:2:3:4:5:6:7"), None);
    assert_eq!(parse_ip("1::2::3"), None);
    assert_eq!(parse_ip("[::1]"), None);
    assert_eq!(parse_ip(""), None);
}

#[test]
fn loopback_addresses_are_known() {
    assert!(is_loopback_ip(parse_ip("127.8.9.10").unwrap()));
    assert!(is_loopback_ip(parse_ip("::1").unwrap()));
    assert!(!is_loopback_ip(parse_ip("::2").unwrap()));
    assert!(!is_loopback_ip(parse_ip("128.0.0.1").unwrap()));
}

#[test]
fn every_spelling_of_an_address_gets_one_verdict() {
    for url in [
        "http://127.0.0.1/",
        "http://127.0.0.1./",
        "http://2130706433/",
        "http://0x7f.1/",
        "http://0177.0.0.1/",
        "https://[::ffff:127.0.0.1]/",
        "https://[::FFFF:7F00:1]/",
    ] {
        let error = validate_push_url(url).unwrap_err();
        assert_eq!(error.code, error_code::INVALID_PARAMS, "{url}");
    }
    for url in [
        "http://93.184.216.34/",
        "http://93.184.216.34./",
        "http://0x5d.0xb8d822/",
        "https://[2606:4700::1111]/",
        "https://[2606:4700:0:0::1111]/",
    ] {
        assert!(validate_push_url(url).is_ok(), "{url}");
    }
}
