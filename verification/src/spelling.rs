//! How addresses are spelled, and which of them are off limits.

use vstd::prelude::*;

use crate::net::{
    blocked, hex_digit, hex_value, ip_address, ipv4, ipv6, is_loopback, octet, run_fields, segment, segments,
    zeros, IpAddrView,
};
use crate::text;

verus! {

/// The IPv4 addresses that are off limits are those of this machine
/// (127.0.0.0/8 and 0.0.0.0), of private networks (10.0.0.0/8, 172.16.0.0/12
/// and 192.168.0.0/16), of the local link (169.254.0.0/16) and of multicast
/// (224.0.0.0/4), and no others.
pub proof fn off_limits_in_ipv4(a: u8, b: u8, c: u8, d: u8)
    ensures
        blocked(IpAddrView::V4(seq![a, b, c, d])) <==> {
            ||| a == 127
            ||| a == 0 && b == 0 && c == 0 && d == 0
            ||| a == 10
            ||| a == 172 && 16 <= b <= 31
            ||| a == 192 && b == 168
            ||| a == 169 && b == 254
            ||| 224 <= a <= 239
        },
        is_loopback(IpAddrView::V4(seq![a, b, c, d])) <==> a == 127,
{
    let o = seq![a, b, c, d];
    assert(o[0] == a && o[1] == b && o[2] == c && o[3] == d);
    if a == 0 && b == 0 && c == 0 && d == 0 {
        assert(o =~= seq![0u8, 0, 0, 0]);
    }
    if o == seq![0u8, 0, 0, 0] {
        assert(o[0] == 0 && o[1] == 0 && o[2] == 0 && o[3] == 0);
    }
}

/// The IPv6 addresses that are off limits are `::1` and `::`, the unique local
/// ones (fc00::/7), those of the local link (fe80::/10), of multicast
/// (ff00::/8), and the ones that carry an IPv4 address that is off limits
/// (::ffff:0:0/96), and no others.
pub proof fn off_limits_in_ipv6(s: Seq<u16>)
    requires
        s.len() == 8,
    ensures
        ({
            let front = s[0] == 0 && s[1] == 0 && s[2] == 0 && s[3] == 0 && s[4] == 0;
            blocked(IpAddrView::V6(s)) <==> {
                ||| front && s[5] == 0 && s[6] == 0 && s[7] <= 1
                ||| 0xfc00 <= s[0] <= 0xfdff
                ||| 0xfe80 <= s[0] <= 0xfebf
                ||| 0xff00 <= s[0]
                ||| front && s[5] == 0xffff && blocked(
                    IpAddrView::V4(
                        seq![
                            (s[6] / 256) as u8,
                            (s[6] % 256) as u8,
                            (s[7] / 256) as u8,
                            (s[7] % 256) as u8,
                        ],
                    ),
                )
            }
        }),
        is_loopback(IpAddrView::V6(s)) <==> s[0] == 0 && s[1] == 0 && s[2] == 0 && s[3] == 0 && s[4]
            == 0 && s[5] == 0 && s[6] == 0 && s[7] == 1,
{
    let one = seq![0u16, 0, 0, 0, 0, 0, 0, 1];
    let none = seq![0u16, 0, 0, 0, 0, 0, 0, 0];
    let front = s[0] == 0 && s[1] == 0 && s[2] == 0 && s[3] == 0 && s[4] == 0;
    if front && s[5] == 0 && s[6] == 0 && s[7] == 1 {
        assert(s =~= one);
    }
    if front && s[5] == 0 && s[6] == 0 && s[7] == 0 {
        assert(s =~= none);
    }
    if s == one {
        assert(one[0] == 0 && one[7] == 1);
    }
    if s == none {
        assert(none[0] == 0 && none[7] == 0);
    }
}

/// Four numbers with dots between them spell the IPv4 address of these
/// numbers.
pub proof fn dotted_numbers_spell_an_address(a: u8, b: u8, c: u8, d: u8)
    ensures
        ip_address(
            text::decimal(a as nat) + seq!['.'] + text::decimal(b as nat) + seq!['.']
                + text::decimal(c as nat) + seq!['.'] + text::decimal(d as nat),
        ) == Some(IpAddrView::V4(seq![a, b, c, d])),
{
    let fields = seq![
        text::decimal(a as nat),
        text::decimal(b as nat),
        text::decimal(c as nat),
        text::decimal(d as nat),
    ];
    let s = text::decimal(a as nat) + seq!['.'] + text::decimal(b as nat) + seq!['.']
        + text::decimal(c as nat) + seq!['.'] + text::decimal(d as nat);
    lemma_decimal_is_octet(a);
    lemma_decimal_is_octet(b);
    lemma_decimal_is_octet(c);
    lemma_decimal_is_octet(d);
    lemma_reassembled_four(fields, s);
    text::splitting_undoes_joining(fields, '.');
}

proof fn lemma_decimal_is_octet(n: u8)
    ensures
        octet(text::decimal(n as nat)) == Some(n),
        !text::decimal(n as nat).contains('.'),
{
    text::decimal_round_trip(n as nat, 255);
    text::lemma_decimal_digits(n as nat);
    let s = text::decimal(n as nat);
    assert forall|k: int| 0 <= k < s.len() implies s[k] != '.' by {
        assert(text::is_digit(s[k]));
    }
}

proof fn lemma_segments_are_values(fields: Seq<Seq<char>>, values: Seq<u16>, dotted: bool)
    requires
        fields.len() == values.len(),
        forall|i: int|
            0 <= i < fields.len() ==> segment(#[trigger] fields[i]) == Some(values[i]),
    ensures
        segments(fields, dotted) == Some(values),
    decreases fields.len(),
{
    if fields.len() > 0 {
        let init = fields.drop_last();
        let head = values.drop_last();
        assert forall|i: int| 0 <= i < init.len() implies segment(#[trigger] init[i]) == Some(
            head[i],
        ) by {
            assert(init[i] == fields[i]);
        }
        lemma_segments_are_values(init, head, false);
        assert(segment(fields[fields.len() - 1]) == Some(values[values.len() - 1]));
        assert(head.push(values.last()) =~= values);
    } else {
        assert(values =~= Seq::empty());
    }
}

/// Eight fields with colons between them, none of them empty, spell the IPv6
/// address of their values.
pub proof fn eight_fields_spell_an_address(fields: Seq<Seq<char>>, values: Seq<u16>)
    requires
        fields.len() == 8,
        values.len() == 8,
        forall|i: int|
            0 <= i < fields.len() ==> segment(#[trigger] fields[i]) == Some(values[i]),
    ensures
        ipv6(text::reassembled(fields, ':')) == Some(values),
{
    let s = text::reassembled(fields, ':');
    assert forall|i: int| 0 <= i < fields.len() implies !(#[trigger] fields[i]).contains(':') by {
        lemma_segment_has_no_colon(fields[i]);
    }
    text::splitting_undoes_joining(fields, ':');
    lemma_segments_are_values(fields, values, true);
    lemma_no_empty_field_no_gap(fields);
}

proof fn lemma_segment_has_no_colon(field: Seq<char>)
    requires
        segment(field) is Some,
    ensures
        !field.contains(':'),
        field.len() > 0,
{
    lemma_hex_has_no_colon(field);
}

proof fn lemma_hex_has_no_colon(s: Seq<char>)
    requires
        hex_value(s) is Some,
    ensures
        !s.contains(':'),
    decreases s.len(),
{
    if s.len() > 0 {
        lemma_hex_has_no_colon(s.drop_last());
        if s.contains(':') {
            let k = choose|k: int| 0 <= k < s.len() && s[k] == ':';
            if k < s.len() - 1 {
                assert(s.drop_last()[k] == ':');
            }
        }
    }
}

proof fn lemma_no_empty_field_no_gap(fields: Seq<Seq<char>>)
    requires
        fields.len() > 0,
        forall|i: int|
            0 <= i < fields.len() ==> (#[trigger] fields[i]).len() > 0 && !fields[i].contains(':'),
    ensures
        text::found(text::reassembled(fields, ':'), "::"@) is None,
        text::reassembled(fields, ':').len() > 0,
        text::reassembled(fields, ':')[0] != ':',
    decreases fields.len(),
{
    reveal_strlit("::");
    let s = text::reassembled(fields, ':');
    let first = fields[0];
    assert(first.contains(first[0]));
    if fields.len() > 1 {
        let rest = fields.drop_first();
        assert forall|i: int| 0 <= i < rest.len() implies (#[trigger] rest[i]).len() > 0
            && !rest[i].contains(':') by {
            assert(rest[i] == fields[i + 1]);
        }
        lemma_no_empty_field_no_gap(rest);
    }
    text::cuts_are_at_the_first_place(s, "::"@);
    text::lemma_found_bounds(s, "::"@);
    if let Some(i) = text::found(s, "::"@) {
        assert(s.subrange(i, i + 2)[0] == ':');
        assert(s.subrange(i, i + 2)[1] == ':');
        let n = first.len() as int;
        if i < n {
            assert(first.contains(first[i]));
        } else if i == n {
            assert(s[n + 1] == text::reassembled(fields.drop_first(), ':')[0]);
        } else {
            let tail = text::reassembled(fields.drop_first(), ':');
            assert(s.skip(n + 1) =~= tail);
            assert(tail.skip(i - n - 1).subrange(0, 2) =~= "::"@);
            assert("::"@.is_prefix_of(tail.skip(i - n - 1)));
            text::cuts_are_at_the_first_place(tail, "::"@);
        }
    }
}

proof fn lemma_fields_end_without_colon(fields: Seq<Seq<char>>)
    requires
        fields.len() > 0,
        forall|i: int|
            0 <= i < fields.len() ==> (#[trigger] fields[i]).len() > 0 && !fields[i].contains(':'),
    ensures
        text::reassembled(fields, ':').len() > 0,
        text::reassembled(fields, ':').last() != ':',
    decreases fields.len(),
{
    let s = text::reassembled(fields, ':');
    let first = fields[0];
    assert(first.contains(first.last()));
    if fields.len() > 1 {
        let rest = fields.drop_first();
        assert forall|i: int| 0 <= i < rest.len() implies (#[trigger] rest[i]).len() > 0
            && !rest[i].contains(':') by {
            assert(rest[i] == fields[i + 1]);
        }
        lemma_fields_end_without_colon(rest);
        assert(s.last() == text::reassembled(rest, ':').last());
    }
}

/// Fields around one `::` spell the IPv6 address of their values, with as many
/// zeros between them as are missing from eight.
pub proof fn gaps_stand_for_the_missing_zeros(
    left: Seq<Seq<char>>,
    right: Seq<Seq<char>>,
    head: Seq<u16>,
    tail: Seq<u16>,
)
    requires
        left.len() == head.len(),
        right.len() == tail.len(),
        left.len() + right.len() <= 7,
        forall|i: int| 0 <= i < left.len() ==> segment(#[trigger] left[i]) == Some(head[i]),
        forall|i: int| 0 <= i < right.len() ==> segment(#[trigger] right[i]) == Some(tail[i]),
    ensures
        ipv6(text::reassembled(left, ':') + "::"@ + text::reassembled(right, ':')) matches Some(all)
            && {
            &&& all.len() == 8
            &&& all.take(head.len() as int) == head
            &&& all.skip(8 - tail.len()) == tail
            &&& forall|i: int| head.len() <= i < 8 - tail.len() ==> #[trigger] all[i] == 0
        },
{
    reveal_strlit("::");
    let before = text::reassembled(left, ':');
    let after = text::reassembled(right, ':');
    let s = before + "::"@ + after;
    let n = before.len() as int;
    assert forall|i: int| 0 <= i < left.len() implies (#[trigger] left[i]).len() > 0
        && !left[i].contains(':') by {
        lemma_segment_has_no_colon(left[i]);
    }
    assert forall|i: int| 0 <= i < right.len() implies (#[trigger] right[i]).len() > 0
        && !right[i].contains(':') by {
        lemma_segment_has_no_colon(right[i]);
    }
    if left.len() > 0 {
        lemma_no_empty_field_no_gap(left);
        lemma_fields_end_without_colon(left);
        text::splitting_undoes_joining(left, ':');
    }
    if right.len() > 0 {
        lemma_no_empty_field_no_gap(right);
        text::splitting_undoes_joining(right, ':');
    }
    lemma_segments_are_values(left, head, false);
    lemma_segments_are_values(right, tail, true);
    assert(run_fields(before) =~= left);
    assert(run_fields(after) =~= right);
    text::cuts_are_at_the_first_place(s, "::"@);
    text::lemma_found_bounds(s, "::"@);
    assert(s.skip(n).subrange(0, 2) =~= "::"@);
    assert("::"@.is_prefix_of(s.skip(n)));
    let i = text::found(s, "::"@)->0;
    if i < n {
        assert(s.subrange(i, i + 2)[0] == ':');
        assert(s.subrange(i, i + 2)[1] == ':');
        assert(s[i] == before[i]);
        if i == n - 1 {
            assert(before.last() == ':');
        } else {
            assert(before.skip(i).subrange(0, 2) =~= "::"@);
            assert("::"@.is_prefix_of(before.skip(i)));
            text::cuts_are_at_the_first_place(before, "::"@);
        }
    }
    assert(i == n) by {
        if i > n {
            assert(s.take(i).len() == i);
            assert(!"::"@.is_prefix_of(s.skip(n)));
        }
    }
    assert(s.take(n) =~= before);
    assert(s.skip(n + 2) =~= after);
    let all = head + zeros(8 - head.len() - tail.len()) + tail;
    assert(all.take(head.len() as int) =~= head);
    assert(all.skip(8 - tail.len()) =~= tail);
}

/// A text with exactly one colon spells no address.
pub proof fn lemma_one_colon_is_no_address(before: Seq<char>, after: Seq<char>)
    requires
        !before.contains(':'),
        !after.contains(':'),
    ensures
        ip_address(before + seq![':'] + after) is None,
{
    reveal_strlit("::");
    let s = before + seq![':'] + after;
    let n = before.len() as int;
    text::lemma_found_bounds(s, "::"@);
    if let Some(i) = text::found(s, "::"@) {
        assert(s.subrange(i, i + 2)[0] == ':');
        assert(s.subrange(i, i + 2)[1] == ':');
        if i < n {
            assert(before.contains(before[i]));
        } else {
            assert(after.contains(after[i - n]));
        }
    }
    let fields = seq![before, after];
    assert(fields.drop_first() =~= seq![after]);
    reveal_with_fuel(text::reassembled, 3);
    assert(text::reassembled(fields, ':') =~= s);
    text::splitting_undoes_joining(fields, ':');
    lemma_few_fields_few_segments(fields, true);
    text::pieces_make_up_the_text(s, '.');
    if ipv4(s) is Some {
        let all = text::pieces(s, '.');
        lemma_octet_has_no_colon(all[0]);
        lemma_octet_has_no_colon(all[1]);
        lemma_octet_has_no_colon(all[2]);
        lemma_octet_has_no_colon(all[3]);
        lemma_reassembled_characters(all, '.', ':');
        assert(s[n] == ':');
    }
}

proof fn lemma_octet_has_no_colon(field: Seq<char>)
    requires
        octet(field) is Some,
    ensures
        !field.contains(':'),
{
    let n = text::parsed(field, 255)->0;
    text::lemma_decimal_digits(n);
    assert forall|k: int| 0 <= k < field.len() implies field[k] != ':' by {
        assert(text::is_digit(text::decimal(n)[k]));
    }
}

proof fn lemma_reassembled_characters(parts: Seq<Seq<char>>, c: char, other: char)
    requires
        c != other,
        forall|i: int| 0 <= i < parts.len() ==> !(#[trigger] parts[i]).contains(other),
    ensures
        !text::reassembled(parts, c).contains(other),
    decreases parts.len(),
{
    let s = text::reassembled(parts, c);
    if s.contains(other) {
        let k = choose|k: int| 0 <= k < s.len() && s[k] == other;
        let first = parts[0];
        if parts.len() == 1 {
            assert(first.contains(other));
        } else {
            let rest = parts.drop_first();
            assert forall|i: int| 0 <= i < rest.len() implies !(#[trigger] rest[i]).contains(
                other,
            ) by {
                assert(rest[i] == parts[i + 1]);
            }
            lemma_reassembled_characters(rest, c, other);
            let n = first.len() as int;
            if k < n {
                assert(first[k] == other);
            } else if k > n {
                assert(text::reassembled(rest, c)[k - n - 1] == other);
            }
        }
    }
}

proof fn lemma_few_fields_few_segments(fields: Seq<Seq<char>>, dotted: bool)
    ensures
        segments(fields, dotted) matches Some(all) ==> all.len() <= fields.len() + 1,
        !dotted ==> (segments(fields, dotted) matches Some(all) ==> all.len() == fields.len()),
    decreases fields.len(),
{
    if fields.len() > 0 {
        lemma_few_fields_few_segments(fields.drop_last(), false);
    }
}

/// Hexadecimal digits count from 0 to 15, in either case, and a field of an
/// IPv6 address is one to four of them.
pub proof fn fields_are_hexadecimal(field: Seq<char>, c: char)
    ensures
        '0' <= c <= '9' ==> hex_digit(c) == Some(c as u32 - 48),
        'a' <= c <= 'f' ==> hex_digit(c) == Some(c as u32 - 97 + 10),
        'A' <= c <= 'F' ==> hex_digit(c) == Some(c as u32 - 65 + 10),
        !('0' <= c <= '9' || 'a' <= c <= 'f' || 'A' <= c <= 'F') ==> hex_digit(c) is None,
        field.len() == 0 || field.len() > 4 ==> segment(field) is None,
        hex_value(field.push(c)) is Some <==> hex_value(field) is Some && hex_digit(c) is Some,
        hex_value(field.push(c)) matches Some(value) ==> value == hex_value(field)->0 * 16
            + hex_digit(c)->0,
{
    assert(field.push(c).drop_last() =~= field);
}

/// An IPv4 address behind `::ffff:` is spelled as the IPv6 address that carries
/// it, so that it is off limits exactly where the IPv4 address is.
pub proof fn carried_addresses_may_be_dotted(a: u8, b: u8, c: u8, d: u8, dotted: Seq<char>)
    requires
        dotted == text::decimal(a as nat) + seq!['.'] + text::decimal(b as nat) + seq!['.']
            + text::decimal(c as nat) + seq!['.'] + text::decimal(d as nat),
    ensures
        ipv6("::ffff:"@ + dotted) == Some(
            seq![0u16, 0, 0, 0, 0, 0xffff, (a * 256 + b) as u16, (c * 256 + d) as u16],
        ),
{
    let s = "::ffff:"@ + dotted;
    let right = "ffff"@ + seq![':'] + dotted;
    let tail = seq![0xffffu16, (a * 256 + b) as u16, (c * 256 + d) as u16];
    lemma_dotted_has_no_colon(a, b, c, d, dotted);
    lemma_carrier_is_cut(dotted);
    lemma_carrier_fields(dotted);
    lemma_carrier_segments(a, b, c, d, dotted);
    assert(segments(run_fields(Seq::empty()), false) == Some(Seq::<u16>::empty()));
    assert(Seq::<u16>::empty() + zeros(5) + tail =~= seq![
        0u16,
        0,
        0,
        0,
        0,
        0xffff,
        (a * 256 + b) as u16,
        (c * 256 + d) as u16,
    ]);
}

proof fn lemma_carrier_is_cut(dotted: Seq<char>)
    ensures
        text::cut("::ffff:"@ + dotted, "::"@) == Some(
            (Seq::<char>::empty(), "ffff"@ + seq![':'] + dotted),
        ),
{
    reveal_strlit("::ffff:");
    reveal_strlit("::");
    reveal_strlit("ffff");
    let s = "::ffff:"@ + dotted;
    assert(s.subrange(0, 2) =~= "::"@);
    assert("::"@.is_prefix_of(s));
    assert(text::found(s, "::"@) == Some(0int));
    assert(s.take(0) =~= Seq::<char>::empty());
    assert(s.skip(2) =~= "ffff"@ + seq![':'] + dotted);
}

proof fn lemma_carrier_fields(dotted: Seq<char>)
    requires
        !dotted.contains(':'),
    ensures
        run_fields("ffff"@ + seq![':'] + dotted) == seq!["ffff"@, dotted],
{
    reveal_strlit("ffff");
    let fields = seq!["ffff"@, dotted];
    let rest = fields.drop_first();
    assert(rest =~= seq![dotted]);
    assert(text::reassembled(rest, ':') == dotted);
    assert(text::reassembled(fields, ':') =~= "ffff"@ + seq![':'] + dotted);
    assert(!"ffff"@.contains(':'));
    text::splitting_undoes_joining(fields, ':');
}

proof fn lemma_carrier_segments(a: u8, b: u8, c: u8, d: u8, dotted: Seq<char>)
    requires
        dotted == text::decimal(a as nat) + seq!['.'] + text::decimal(b as nat) + seq!['.']
            + text::decimal(c as nat) + seq!['.'] + text::decimal(d as nat),
    ensures
        segments(seq!["ffff"@, dotted], true) == Some(
            seq![0xffffu16, (a * 256 + b) as u16, (c * 256 + d) as u16],
        ),
{
    dotted_numbers_spell_an_address(a, b, c, d);
    lemma_dotted_is_no_segment(a, b, c, d, dotted);
    lemma_ffff();
    let fields = seq!["ffff"@, dotted];
    let head = fields.drop_last();
    assert(head =~= seq!["ffff"@]);
    lemma_segments_are_values(head, seq![0xffffu16], false);
    let o = seq![a, b, c, d];
    assert(o[0] == a && o[1] == b && o[2] == c && o[3] == d);
    assert(fields.last() == dotted);
    assert(ipv4(dotted) == Some(o));
    assert(seq![0xffffu16].push((a * 256 + b) as u16).push((c * 256 + d) as u16) =~= seq![
        0xffffu16,
        (a * 256 + b) as u16,
        (c * 256 + d) as u16,
    ]);
}

proof fn lemma_ffff()
    ensures
        segment("ffff"@) == Some(0xffffu16),
{
    reveal_strlit("ffff");
    let s = "ffff"@;
    assert(s.len() == 4);
    assert(s.drop_last().drop_last().drop_last().drop_last() =~= Seq::<char>::empty());
    reveal_with_fuel(hex_value, 5);
    assert(s[0] == 'f' && s[1] == 'f' && s[2] == 'f' && s[3] == 'f');
}

proof fn lemma_dotted_has_no_colon(a: u8, b: u8, c: u8, d: u8, dotted: Seq<char>)
    requires
        dotted == text::decimal(a as nat) + seq!['.'] + text::decimal(b as nat) + seq!['.']
            + text::decimal(c as nat) + seq!['.'] + text::decimal(d as nat),
    ensures
        !dotted.contains(':'),
{
    lemma_decimal_is_octet(a);
    lemma_decimal_is_octet(b);
    lemma_decimal_is_octet(c);
    lemma_decimal_is_octet(d);
    lemma_octet_has_no_colon(text::decimal(a as nat));
    lemma_octet_has_no_colon(text::decimal(b as nat));
    lemma_octet_has_no_colon(text::decimal(c as nat));
    lemma_octet_has_no_colon(text::decimal(d as nat));
    let fields = seq![
        text::decimal(a as nat),
        text::decimal(b as nat),
        text::decimal(c as nat),
        text::decimal(d as nat),
    ];
    lemma_reassembled_four(fields, dotted);
    lemma_reassembled_characters(fields, '.', ':');
}

proof fn lemma_reassembled_four(fields: Seq<Seq<char>>, s: Seq<char>)
    requires
        fields.len() == 4,
        s == fields[0] + seq!['.'] + fields[1] + seq!['.'] + fields[2] + seq!['.'] + fields[3],
    ensures
        text::reassembled(fields, '.') == s,
{
    let three = fields.drop_first();
    let two = three.drop_first();
    let one = two.drop_first();
    assert(one.len() == 1 && one[0] == fields[3]);
    assert(text::reassembled(one, '.') == fields[3]);
    assert(text::reassembled(two, '.') == fields[2] + seq!['.'] + fields[3]);
    assert(text::reassembled(three, '.') == fields[1] + seq!['.'] + (fields[2] + seq!['.']
        + fields[3]));
    assert(text::reassembled(fields, '.') =~= s);
}

proof fn lemma_dotted_is_no_segment(a: u8, b: u8, c: u8, d: u8, dotted: Seq<char>)
    requires
        dotted == text::decimal(a as nat) + seq!['.'] + text::decimal(b as nat) + seq!['.']
            + text::decimal(c as nat) + seq!['.'] + text::decimal(d as nat),
    ensures
        segment(dotted) is None,
{
    text::decimal_round_trip(a as nat, 255);
    text::decimal_round_trip(b as nat, 255);
    text::decimal_round_trip(c as nat, 255);
    text::decimal_round_trip(d as nat, 255);
    assert(dotted.len() >= 7);
}

} // verus!
