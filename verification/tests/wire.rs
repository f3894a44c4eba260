use a2a_kit::wire::{
    log_response, log_stream_event, render_body, render_headers, request_line, REDACTED,
};

fn headers(pairs: &[(&str, &str)]) -> Vec<(String, Vec<u8>)> {
    pairs
        .iter()
        .map(|(name, value)| (name.to_string(), value.as_bytes().to_vec()))
        .collect()
}

#[test]
fn credential_headers_are_redacted_by_value_not_by_presence() {
    let rendered = render_headers(&headers(&[
        ("authorization", "Bearer super-secret"),
        ("x-api-key", "key-12345"),
    ]));
    assert!(rendered.contains("authorization:"), "{rendered}");
    assert!(rendered.contains("x-api-key:"), "{rendered}");
    assert!(!rendered.contains("super-secret"), "{rendered}");
    assert!(!rendered.contains("key-12345"), "{rendered}");
}

#[test]
fn protocol_headers_stay_visible() {
    let rendered = render_headers(&headers(&[
        ("a2a-version", "1.0"),
        ("content-type", "application/json"),
        ("accept", "text/event-stream"),
    ]));
    assert!(rendered.contains("a2a-version: 1.0"), "{rendered}");
    assert!(
        rendered.contains("content-type: application/json"),
        "{rendered}"
    );
    assert!(rendered.contains("accept: text/event-stream"), "{rendered}");
}

#[test]
fn an_unrecognised_header_is_redacted_rather_than_leaked() {
    let rendered = render_headers(&headers(&[("x-some-future-scheme", "tenant-secret")]));
    assert_eq!(rendered, format!("x-some-future-scheme: {REDACTED}"));
}

#[test]
fn headers_render_in_a_stable_order() {
    let pairs = [
        ("x-api-key", "k"),
        ("a2a-version", "1.0"),
        ("content-type", "application/json"),
    ];
    let forward = render_headers(&headers(&pairs));
    let mut reversed = pairs;
    reversed.reverse();
    assert_eq!(forward, render_headers(&headers(&reversed)));
}

#[test]
fn a_non_utf8_header_value_shows_its_presence_only() {
    let map = vec![("content-type".to_string(), vec![0xffu8, 0xfe])];
    assert_eq!(render_headers(&map), "content-type: (binary)");
}

#[test]
fn a_non_utf8_body_is_summarised_rather_than_mangled() {
    assert_eq!(render_body(&[0xff, 0xfe, 0xfd]), "(3 non-UTF-8 bytes)");
    assert_eq!(render_body(b"{\"a\":1}"), "{\"a\":1}");
}

#[test]
fn log_lines_carry_the_raw_message() {
    assert_eq!(
        log_stream_event("{\"n\":1}"),
        "A2A wire stream event event={\"n\":1}"
    );
    assert_eq!(
        log_response(404, "gone"),
        "A2A wire response status=404 body=gone"
    );
    assert_eq!(
        request_line(
            "POST",
            "http://localhost/rpc",
            &headers(&[("accept", "a"), ("x-api-key", "k")]),
            Some(b"hi")
        ),
        format!(
            "A2A wire request method=POST url=http://localhost/rpc headers=accept: a, x-api-key: {REDACTED} body=hi"
        )
    );
}
