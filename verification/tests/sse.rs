use a2a_kit::protocol::A2AError;
use a2a_kit::sse::{keep_alive_interval, next_event_id, sse_from_stream, sse_jsonrpc_stream};

#[test]
fn test_sse_from_stream_ok() {
    let mut counter: u64 = 0;
    let event = sse_from_stream(&mut counter, Ok("{\"key\":\"value\"}".to_string()));
    assert_eq!(event.id, "1");
    assert_eq!(event.data, "{\"key\":\"value\"}");
}

#[test]
fn test_sse_from_stream_err() {
    let mut counter: u64 = 0;
    let event = sse_from_stream(&mut counter, Err(A2AError::internal("fail")));
    assert_eq!(event.data, "{\"code\":-32603,\"message\":\"fail\"}");
}

#[test]
fn test_sse_jsonrpc_stream_ok() {
    let mut counter: u64 = 0;
    let event = sse_jsonrpc_stream(&mut counter, "1", Ok("{\"status\":\"ok\"}".to_string()));
    assert_eq!(
        event.data,
        "{\"jsonrpc\":\"2.0\",\"id\":1,\"result\":{\"status\":\"ok\"}}"
    );
}

#[test]
fn test_sse_jsonrpc_stream_err() {
    let mut counter: u64 = 0;
    let event = sse_jsonrpc_stream(&mut counter, "1", Err(A2AError::internal("fail")));
    assert_eq!(
        event.data,
        "{\"jsonrpc\":\"2.0\",\"id\":1,\"error\":{\"code\":-32603,\"message\":\"fail\"}}"
    );
}

#[test]
fn messages_are_escaped() {
    let mut counter: u64 = 0;
    let event = sse_from_stream(&mut counter, Err(A2AError::internal("a \"b\"\n")));
    assert_eq!(
        event.data,
        "{\"code\":-32603,\"message\":\"a \\\"b\\\"\\n\"}"
    );
}

#[test]
fn test_sse_from_stream_assigns_monotonic_event_ids() {
    let mut counter: u64 = 0;
    let ids: Vec<String> = vec![
        Ok("{\"n\":1}".to_string()),
        Ok("{\"n\":2}".to_string()),
        Err(A2AError::internal("boom")),
    ]
    .into_iter()
    .map(|item| sse_from_stream(&mut counter, item).id)
    .collect();
    assert_eq!(ids, vec!["1", "2", "3"]);
}

#[test]
fn test_sse_jsonrpc_stream_assigns_monotonic_event_ids() {
    let mut counter: u64 = 0;
    let ids: Vec<String> = (1..4)
        .map(|n| sse_jsonrpc_stream(&mut counter, "1", Ok(format!("{{\"n\":{n}}}"))).id)
        .collect();
    assert_eq!(ids, vec!["1", "2", "3"]);
}

#[test]
fn test_event_ids_are_scoped_to_one_response() {
    for _ in 0..2 {
        let mut counter: u64 = 0;
        assert_eq!(next_event_id(&mut counter), "1");
        assert_eq!(counter, 1);
    }
}

#[test]
fn idle_streams_are_kept_alive() {
    assert_eq!(keep_alive_interval().seconds, 15);
    assert_eq!(keep_alive_interval().nanoseconds, 0);
}
