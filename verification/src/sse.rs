//! Server-sent events: numbering and framing.

use vstd::prelude::*;

use crate::json;
use crate::protocol::{A2AError, A2AErrorView};
use crate::span::Span;
use crate::text;

verus! {

/// How often an idle stream sends a comment, in seconds. Proxies drop idle
/// connections after thirty seconds or more.
pub const SSE_KEEP_ALIVE_SECONDS: u64 = 15;

/// How often an idle stream sends a comment.
pub fn keep_alive_interval() -> (r: Span)
    ensures
        r == (Span { seconds: 15, nanoseconds: 0 }),
{
    Span::from_secs(SSE_KEEP_ALIVE_SECONDS)
}

/// One event of a stream.
#[derive(Debug, PartialEq, Eq)]
pub struct SseEvent {
    pub id: String,
    pub data: String,
}

/// The identifier of the next event: events are counted from 1, so that a
/// client notices a gap.
pub fn next_event_id(counter: &mut u64) -> (r: String)
    requires
        *old(counter) < u64::MAX,
    ensures
        *final(counter) == *old(counter) + 1,
        r@ == text::decimal(*final(counter) as nat),
{
    *counter = *counter + 1;
    text::to_decimal(*counter)
}

/// An error as JSON-RPC spells it.
pub open spec fn error_object(error: A2AErrorView) -> Seq<char> {
    "{\"code\":"@ + text::signed_decimal(error.code as int) + ",\"message\":"@ + json::quoted(
        error.message,
    ) + "}"@
}

fn write_error_object(error: &A2AError) -> (r: String)
    ensures
        r@ == error_object(error.deep_view()),
{
    let mut out = "{\"code\":".to_string();
    let code = text::to_signed_decimal(error.code as i64);
    out.append(code.as_str());
    out.append(",\"message\":");
    let message = json::quote(error.message.as_str());
    out.append(message.as_str());
    out.append("}");
    out
}

/// A JSON-RPC response to the request `id`: `member` is `result` or `error`.
pub open spec fn response_object(
    id: Seq<char>,
    member: Seq<char>,
    value: Seq<char>,
) -> Seq<char> {
    "{\"jsonrpc\":\"2.0\",\"id\":"@ + id + ",\""@ + member + "\":"@ + value + "}"@
}

fn write_response_object(id: &str, member: &str, value: &str) -> (r: String)
    ensures
        r@ == response_object(id@, member@, value@),
{
    let mut out = "{\"jsonrpc\":\"2.0\",\"id\":".to_string();
    out.append(id);
    out.append(",\"");
    out.append(member);
    out.append("\":");
    out.append(value);
    out.append("}");
    out
}

/// What a fallible item, in JSON, carries as an event of its own.
pub open spec fn plain_data(item: Result<Seq<char>, A2AErrorView>) -> Seq<char> {
    match item {
        Ok(value) => value,
        Err(error) => error_object(error),
    }
}

/// What a fallible item, in JSON, carries as a response to the request `id`.
pub open spec fn rpc_data(id: Seq<char>, item: Result<Seq<char>, A2AErrorView>) -> Seq<char> {
    match item {
        Ok(value) => response_object(id, "result"@, value),
        Err(error) => response_object(id, "error"@, error_object(error)),
    }
}

/// What a fallible item stands for.
pub open spec fn item_text(item: Result<String, A2AError>) -> Result<Seq<char>, A2AErrorView> {
    match item {
        Ok(value) => Ok(value@),
        Err(error) => Err(error.deep_view()),
    }
}

/// The next event of a plain stream. `item` is in JSON.
pub fn sse_from_stream(counter: &mut u64, item: Result<String, A2AError>) -> (r: SseEvent)
    requires
        *old(counter) < u64::MAX,
    ensures
        *final(counter) == *old(counter) + 1,
        r.id@ == text::decimal(*final(counter) as nat),
        r.data@ == plain_data(item_text(item)),
{
    let data = match item {
        Ok(value) => value,
        Err(error) => write_error_object(&error),
    };
    SseEvent { id: next_event_id(counter), data }
}

/// The next event of a stream of responses to the request `request_id`. The
/// identifier and `item` are in JSON.
pub fn sse_jsonrpc_stream(
    counter: &mut u64,
    request_id: &str,
    item: Result<String, A2AError>,
) -> (r: SseEvent)
    requires
        *old(counter) < u64::MAX,
    ensures
        *final(counter) == *old(counter) + 1,
        r.id@ == text::decimal(*final(counter) as nat),
        r.data@ == rpc_data(request_id@, item_text(item)),
{
    let data = match item {
        Ok(value) => write_response_object(request_id, "result", value.as_str()),
        Err(error) => {
            let object = write_error_object(&error);
            write_response_object(request_id, "error", object.as_str())
        },
    };
    SseEvent { id: next_event_id(counter), data }
}

/// The identifiers of the next `n` events after `counter` were sent.
pub open spec fn event_ids(counter: nat, n: nat) -> Seq<Seq<char>> {
    Seq::new(n, |i: int| text::decimal((counter + 1 + i) as nat))
}

/// Identifiers name the place of an event: no two events of a stream share
/// one, and each is read back as the count it was made from, so that a
/// missing event shows as a missing number.
pub proof fn event_ids_show_gaps(counter: nat, n: nat, i: int, j: int)
    requires
        0 <= i < n,
        0 <= j < n,
        counter + n <= u64::MAX,
    ensures
        text::parsed(event_ids(counter, n)[i], u64::MAX as nat) == Some((counter + 1 + i) as nat),
        event_ids(counter, n)[i] == event_ids(counter, n)[j] <==> i == j,
{
    text::decimal_round_trip((counter + 1 + i) as nat, u64::MAX as nat);
    text::decimal_round_trip((counter + 1 + j) as nat, u64::MAX as nat);
}

/// An event of a plain stream is the item itself, and an error the object that
/// spells its code and its message.
pub proof fn plain_events_are_the_items(value: Seq<char>, error: A2AErrorView)
    ensures
        plain_data(Ok(value)) == value,
        plain_data(Err(error)) == "{\"code\":"@ + text::signed_decimal(error.code as int)
            + ",\"message\":"@ + json::quoted(error.message) + "}"@,
{
}

/// An event of a stream of responses is a response to the request with that
/// identifier: an item is its result, an error its error.
pub proof fn responses_answer_their_request(
    id: Seq<char>,
    value: Seq<char>,
    error: A2AErrorView,
)
    ensures
        rpc_data(id, Ok(value)) == "{\"jsonrpc\":\"2.0\",\"id\":"@ + id + ",\""@ + "result"@
            + "\":"@ + plain_data(Ok(value)) + "}"@,
        rpc_data(id, Err(error)) == "{\"jsonrpc\":\"2.0\",\"id\":"@ + id + ",\""@ + "error"@
            + "\":"@ + plain_data(Err(error)) + "}"@,
{
}

} // verus!
