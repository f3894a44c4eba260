//! What may be logged of the messages on the wire.

use vstd::prelude::*;
use vstd::utf8::{decode_utf8, valid_utf8};

use crate::error_code;
use crate::order;
use crate::protocol::A2AError;
use crate::text;

verus! {

/// What stands in for the value of a header that may carry credentials.
pub const REDACTED: &'static str = "(redacted)";

/// The headers whose values may be logged. Any other header is more likely
/// to carry credentials than not, so the list names what is shown.
pub open spec fn is_visible(name: Seq<char>) -> bool {
    ||| name == "a2a-version"@
    ||| name == "accept"@
    ||| name == "accept-encoding"@
    ||| name == "content-length"@
    ||| name == "content-type"@
    ||| name == "host"@
    ||| name == "user-agent"@
}

fn is_visible_header(name: &str) -> (r: bool)
    ensures
        r == is_visible(name@),
{
    text::same(name, "a2a-version") || text::same(name, "accept") || text::same(
        name,
        "accept-encoding",
    ) || text::same(name, "content-length") || text::same(name, "content-type") || text::same(
        name,
        "host",
    ) || text::same(name, "user-agent")
}

/// Whether a byte of a header value is printable.
pub open spec fn is_printable(byte: u8) -> bool {
    (32 <= byte < 127) || byte == 9
}

/// How a header value is shown: as text where every byte is printable.
pub open spec fn shown_value(value: Seq<u8>) -> Seq<char> {
    if forall|i: int| 0 <= i < value.len() ==> is_printable(#[trigger] value[i]) {
        value.map_values(|byte: u8| byte as char)
    } else {
        "(binary)"@
    }
}

fn show_value(value: &Vec<u8>) -> (r: String)
    ensures
        r@ == shown_value(value@),
{
    let ghost all = value@.map_values(|byte: u8| byte as char);
    let mut out = String::new();
    let mut i: usize = 0;
    while i < value.len()
        invariant
            i <= value@.len(),
            all == value@.map_values(|byte: u8| byte as char),
            out@ == all.take(i as int),
            forall|k: int| 0 <= k < i ==> is_printable(#[trigger] value@[k]),
        decreases value@.len() - i,
    {
        let byte: u8 = value[i];
        if !((32 <= byte && byte < 127) || byte == 9) {
            assert(!is_printable(value@[i as int]));
            return "(binary)".to_string();
        }
        out.push(byte as char);
        assert(all.take(i + 1) =~= all.take(i as int).push(all[i as int]));
        i += 1;
    }
    assert(all.take(i as int) =~= all);
    out
}

/// One header as it is logged. The name always shows; the value only where it
/// may.
pub open spec fn header_line(header: (Seq<char>, Seq<u8>)) -> Seq<char> {
    header.0 + ": "@ + (if is_visible(header.0) {
        shown_value(header.1)
    } else {
        REDACTED@
    })
}

/// The headers as they are logged, in an order of their own.
pub open spec fn rendered_headers(headers: Seq<(Seq<char>, Seq<u8>)>) -> Seq<char> {
    text::joined(
        order::sorted::<String>(
            headers.map_values(|header: (Seq<char>, Seq<u8>)| header_line(header)),
        ),
        ", "@,
    )
}

/// Renders headers for the log. Names are in lower case.
pub fn render_headers(headers: &Vec<(String, Vec<u8>)>) -> (r: String)
    ensures
        r@ == rendered_headers(headers.deep_view()),
{
    let ghost lines = headers.deep_view().map_values(
        |header: (Seq<char>, Seq<u8>)| header_line(header),
    );
    let mut rendered: Vec<String> = Vec::new();
    let mut i: usize = 0;
    while i < headers.len()
        invariant
            i <= headers@.len(),
            lines == headers.deep_view().map_values(
                |header: (Seq<char>, Seq<u8>)| header_line(header),
            ),
            rendered.deep_view() == lines.take(i as int),
        decreases headers@.len() - i,
    {
        let mut line = headers[i].0.clone();
        line.append(": ");
        if is_visible_header(headers[i].0.as_str()) {
            let value = show_value(&headers[i].1);
            line.append(value.as_str());
        } else {
            line.append(REDACTED);
        }
        let ghost view = line@;
        let ghost before = rendered.deep_view();
        rendered.push(line);
        proof {
            assert(headers@[i as int].1.deep_view() =~= headers@[i as int].1@);
            assert(headers.deep_view()[i as int] == headers@[i as int].deep_view());
            assert(view == lines[i as int]);
            assert(rendered.deep_view() =~= before.push(view));
            assert(lines.take(i + 1) =~= lines.take(i as int).push(lines[i as int]));
        }
        i += 1;
    }
    assert(lines.take(i as int) =~= lines);
    let sorted = order::sort(rendered);
    text::join(&sorted, ", ")
}

/// `std::str::from_utf8`: the text that bytes encode, if they are UTF-8.
#[verifier::external_body]
fn utf8_text(bytes: &[u8]) -> (r: Option<String>)
    ensures
        match r {
            Some(text) => valid_utf8(bytes@) && text@ == decode_utf8(bytes@),
            None => !valid_utf8(bytes@),
        },
{
    std::str::from_utf8(bytes).ok().map(|text| text.to_string())
}

/// A body as it is logged: word for word, or its size where it is no text.
pub open spec fn rendered_body(body: Seq<u8>) -> Seq<char> {
    if valid_utf8(body) {
        decode_utf8(body)
    } else {
        "("@ + text::decimal(body.len()) + " non-UTF-8 bytes)"@
    }
}

/// Renders a body for the log.
pub fn render_body(body: &[u8]) -> (r: String)
    ensures
        r@ == rendered_body(body@),
{
    match utf8_text(body) {
        Some(text) => text,
        None => {
            let mut out = "(".to_string();
            let size = text::to_decimal(body.len() as u64);
            out.append(size.as_str());
            out.append(" non-UTF-8 bytes)");
            out
        },
    }
}

/// The log line of a streamed event: the raw event.
pub fn log_stream_event(event_text: &str) -> (r: String)
    ensures
        r@ == "A2A wire stream event event="@ + event_text@,
{
    let mut line = "A2A wire stream event event=".to_string();
    line.append(event_text);
    line
}

/// The log line of a request.
pub fn request_line(
    method: &str,
    url: &str,
    headers: &Vec<(String, Vec<u8>)>,
    body: Option<&[u8]>,
) -> (r: String)
    ensures
        r@ == "A2A wire request method="@ + method@ + " url="@ + url@ + " headers="@
            + rendered_headers(headers.deep_view()) + " body="@ + (match body {
            Some(bytes) => rendered_body(bytes@),
            None => Seq::empty(),
        }),
{
    let mut line = "A2A wire request method=".to_string();
    line.append(method);
    line.append(" url=");
    line.append(url);
    line.append(" headers=");
    let shown = render_headers(headers);
    line.append(shown.as_str());
    line.append(" body=");
    match body {
        Some(bytes) => {
            let text = render_body(bytes);
            line.append(text.as_str());
        },
        None => {
            assert(line@ + Seq::<char>::empty() =~= line@);
        },
    }
    line
}

/// The error of a request that could not be built or sent; a caller cannot
/// act differently on the two.
pub fn request_failed(reason: &str) -> (r: A2AError)
    ensures
        r.code == error_code::INTERNAL_ERROR,
        r.message@ == "HTTP request failed: "@ + reason@,
{
    let mut message = "HTTP request failed: ".to_string();
    message.append(reason);
    A2AError::internal(message.as_str())
}

/// The log line of a response.
pub fn log_response(status: u16, body: &str) -> (r: String)
    ensures
        r@ == "A2A wire response status="@ + text::decimal(status as nat) + " body="@ + body@,
{
    let mut line = "A2A wire response status=".to_string();
    let code = text::to_decimal(status as u64);
    line.append(code.as_str());
    line.append(" body=");
    line.append(body);
    line
}

/// What is logged of headers says nothing of the values that may carry
/// credentials: change them at will, and the log stays the same.
pub proof fn credentials_never_reach_the_log(
    a: Seq<(Seq<char>, Seq<u8>)>,
    b: Seq<(Seq<char>, Seq<u8>)>,
)
    requires
        a.len() == b.len(),
        forall|i: int| 0 <= i < a.len() ==> (#[trigger] a[i]).0 == b[i].0,
        forall|i: int| 0 <= i < a.len() && is_visible(a[i].0) ==> (#[trigger] a[i]).1 == b[i].1,
    ensures
        rendered_headers(a) == rendered_headers(b),
{
    let f = |header: (Seq<char>, Seq<u8>)| header_line(header);
    assert(a.map_values(f) =~= b.map_values(f));
}

/// The order that headers come in makes no difference to the log.
pub proof fn header_order_is_immaterial(
    a: Seq<(Seq<char>, Seq<u8>)>,
    b: Seq<(Seq<char>, Seq<u8>)>,
)
    requires
        a.to_multiset() == b.to_multiset(),
    ensures
        rendered_headers(a) == rendered_headers(b),
{
    let f = |header: (Seq<char>, Seq<u8>)| header_line(header);
    order::lemma_mapped_multisets_agree(a, b, f);
    order::sorting_forgets_the_order::<String>(a.map_values(f), b.map_values(f));
}

/// Every header leaves a line with its name, whether its value shows or not.
pub proof fn every_header_name_is_logged(headers: Seq<(Seq<char>, Seq<u8>)>, i: int)
    requires
        0 <= i < headers.len(),
    ensures
        ({
            let lines = order::sorted::<String>(
                headers.map_values(|header: (Seq<char>, Seq<u8>)| header_line(header)),
            );
            &&& lines.contains(header_line(headers[i]))
            &&& headers[i].0.is_prefix_of(header_line(headers[i]))
        }),
{
    let f = |header: (Seq<char>, Seq<u8>)| header_line(header);
    let lines = headers.map_values(f);
    order::sorted_is_ordered_rearrangement::<String>(lines);
    assert(lines[i] == header_line(headers[i]));
    assert(lines.contains(lines[i]));
    order::lemma_same_multiset_same_members(
        order::sorted::<String>(lines),
        lines,
        header_line(headers[i]),
    );
    assert(header_line(headers[i]).subrange(0, headers[i].0.len() as int) =~= headers[i].0);
}

/// The value of a header shows exactly where its name is one of the seven that
/// tell nothing of the caller; any other value is replaced, whatever it is.
pub proof fn only_harmless_headers_show(name: Seq<char>, value: Seq<u8>)
    ensures
        ({
            let harmless = name == "accept"@ || name == "accept-encoding"@ || name
                == "content-length"@ || name == "content-type"@ || name == "host"@ || name
                == "user-agent"@ || name == "a2a-version"@;
            &&& !harmless ==> header_line((name, value)) == name + ": "@ + "(redacted)"@
            &&& harmless ==> header_line((name, value)) == name + ": "@ + shown_value(value)
        }),
{
}

/// A header value is shown character by character where every byte of it is
/// printable ASCII or a tab, and as binary otherwise.
pub proof fn values_show_where_they_are_printable(value: Seq<u8>, i: int)
    requires
        0 <= i < value.len(),
    ensures
        (value[i] < 32 && value[i] != 9) || value[i] >= 127 ==> shown_value(value) == "(binary)"@,
        (forall|k: int|
            0 <= k < value.len() ==> 32 <= #[trigger] value[k] <= 126 || value[k] == 9) ==> {
            &&& shown_value(value).len() == value.len()
            &&& shown_value(value)[i] == value[i] as char
        },
{
    if (value[i] < 32 && value[i] != 9) || value[i] >= 127 {
        assert(!is_printable(value[i]));
    }
}

/// Headers are logged in the order of their lines.
pub proof fn headers_are_logged_in_order(headers: Seq<(Seq<char>, Seq<u8>)>)
    ensures
        ({
            let lines = order::sorted::<String>(
                headers.map_values(|header: (Seq<char>, Seq<u8>)| header_line(header)),
            );
            &&& rendered_headers(headers) == text::joined(lines, ", "@)
            &&& lines.len() == headers.len()
            &&& forall|i: int, j: int|
                0 <= i < j < lines.len() ==> text::text_le(#[trigger] lines[i], #[trigger] lines[j])
        }),
{
    let f = |header: (Seq<char>, Seq<u8>)| header_line(header);
    let given = headers.map_values(f);
    order::sorted_is_ordered_rearrangement::<String>(given);
    let lines = order::sorted::<String>(given);
    assert forall|i: int, j: int| 0 <= i < j < lines.len() implies text::text_le(
        #[trigger] lines[i],
        #[trigger] lines[j],
    ) by {
        assert(<String as order::Ranked>::ranks(lines[i], lines[j]));
    }
}

} // verus!
