//! IP addresses: their spellings and the ranges that are off limits.

use vstd::prelude::*;

use crate::text;

verus! {

/// An IP address.
#[derive(Debug, Clone, Copy, PartialEq, Eq)]
pub enum IpAddr {
    V4([u8; 4]),
    V6([u16; 8]),
}

/// What an [`IpAddr`] stands for.
pub enum IpAddrView {
    V4(Seq<u8>),
    V6(Seq<u16>),
}

impl View for IpAddr {
    type V = IpAddrView;

    open spec fn view(&self) -> IpAddrView {
        match self {
            IpAddr::V4(octets) => IpAddrView::V4(octets@),
            IpAddr::V6(segments) => IpAddrView::V6(segments@),
        }
    }
}

/// An address with a port.
#[derive(Debug, Clone, Copy, PartialEq, Eq)]
pub struct SocketAddr {
    pub ip: IpAddr,
    pub port: u16,
}

/// 127.0.0.0/8 and ::1.
pub open spec fn is_loopback(ip: IpAddrView) -> bool {
    match ip {
        IpAddrView::V4(o) => o[0] == 127,
        IpAddrView::V6(s) => s == seq![0u16, 0, 0, 0, 0, 0, 0, 1],
    }
}

/// 10.0.0.0/8, 172.16.0.0/12 and 192.168.0.0/16.
pub open spec fn is_private_v4(o: Seq<u8>) -> bool {
    ||| o[0] == 10
    ||| o[0] == 172 && 16 <= o[1] <= 31
    ||| o[0] == 192 && o[1] == 168
}

/// 169.254.0.0/16.
pub open spec fn is_link_local_v4(o: Seq<u8>) -> bool {
    o[0] == 169 && o[1] == 254
}

/// 224.0.0.0/4.
pub open spec fn is_multicast_v4(o: Seq<u8>) -> bool {
    224 <= o[0] <= 239
}

/// The IPv4 ranges that are off limits.
pub open spec fn blocked_v4(o: Seq<u8>) -> bool {
    ||| o[0] == 127
    ||| is_private_v4(o)
    ||| is_link_local_v4(o)
    ||| o == seq![0u8, 0, 0, 0]
    ||| is_multicast_v4(o)
}

/// Whether an IPv6 address carries an IPv4 address: ::ffff:0:0/96.
pub open spec fn is_mapped(s: Seq<u16>) -> bool {
    &&& s[0] == 0 && s[1] == 0 && s[2] == 0 && s[3] == 0 && s[4] == 0
    &&& s[5] == 0xffff
}

/// The IPv4 address that an IPv6 address carries in its last two segments.
pub open spec fn embedded_v4(s: Seq<u16>) -> Seq<u8> {
    seq![
        (s[6] / 256) as u8,
        (s[6] % 256) as u8,
        (s[7] / 256) as u8,
        (s[7] % 256) as u8,
    ]
}

/// The IPv6 ranges that are off limits: loopback, unspecified, unique local
/// (fc00::/7), link local (fe80::/10), multicast (ff00::/8), and the IPv4
/// ranges behind a mapped address.
pub open spec fn blocked_v6(s: Seq<u16>) -> bool {
    ||| s == seq![0u16, 0, 0, 0, 0, 0, 0, 1]
    ||| s == seq![0u16, 0, 0, 0, 0, 0, 0, 0]
    ||| 0xfc00 <= s[0] <= 0xfdff
    ||| 0xfe80 <= s[0] <= 0xfebf
    ||| 0xff00 <= s[0]
    ||| is_mapped(s) && blocked_v4(embedded_v4(s))
}

/// The addresses that a push notification must not reach.
pub open spec fn blocked(ip: IpAddrView) -> bool {
    match ip {
        IpAddrView::V4(o) => blocked_v4(o),
        IpAddrView::V6(s) => blocked_v6(s),
    }
}

fn is_blocked_v4(a: u8, b: u8, c: u8, d: u8) -> (r: bool)
    ensures
        r == blocked_v4(seq![a, b, c, d]),
{
    let r = a == 127 || a == 10 || (a == 172 && 16 <= b && b <= 31) || (a == 192 && b == 168) || (a
        == 169 && b == 254) || (a == 0 && b == 0 && c == 0 && d == 0) || (224 <= a && a <= 239);
    proof {
        let o = seq![a, b, c, d];
        let zero = seq![0u8, 0, 0, 0];
        if a == 0 && b == 0 && c == 0 && d == 0 {
            assert(o =~= zero);
        }
        if o == zero {
            assert(o[0] == zero[0] && o[1] == zero[1] && o[2] == zero[2] && o[3] == zero[3]);
        }
    }
    r
}

fn leads_zeros(s: &[u16; 8]) -> (r: bool)
    ensures
        r == (s@[0] == 0 && s@[1] == 0 && s@[2] == 0 && s@[3] == 0 && s@[4] == 0),
{
    s[0] == 0 && s[1] == 0 && s[2] == 0 && s[3] == 0 && s[4] == 0
}

/// Whether `ip` is loopback, private, link local, unspecified or multicast.
pub fn is_blocked_ip(ip: IpAddr) -> (r: bool)
    ensures
        r == blocked(ip@),
{
    match ip {
        IpAddr::V4(o) => {
            assert(o@ =~= seq![o@[0], o@[1], o@[2], o@[3]]);
            is_blocked_v4(o[0], o[1], o[2], o[3])
        },
        IpAddr::V6(s) => {
            let zeros = leads_zeros(&s);
            let tiny = zeros && s[5] == 0 && s[6] == 0 && s[7] <= 1;
            proof {
                let one = seq![0u16, 0, 0, 0, 0, 0, 0, 1];
                let none = seq![0u16, 0, 0, 0, 0, 0, 0, 0];
                if tiny {
                    if s@[7] == 1 {
                        assert(s@ =~= one);
                    } else {
                        assert(s@ =~= none);
                    }
                }
                if s@ == one {
                    assert(s@[5] == one[5] && s@[6] == one[6] && s@[7] == one[7]);
                    assert(s@[0] == one[0] && s@[1] == one[1] && s@[2] == one[2] && s@[3] == one[3]
                        && s@[4] == one[4]);
                }
                if s@ == none {
                    assert(s@[5] == none[5] && s@[6] == none[6] && s@[7] == none[7]);
                    assert(s@[0] == none[0] && s@[1] == none[1] && s@[2] == none[2] && s@[3]
                        == none[3] && s@[4] == none[4]);
                }
            }
            let mapped_blocked = zeros && s[5] == 0xffff && is_blocked_v4(
                (s[6] / 256) as u8,
                (s[6] % 256) as u8,
                (s[7] / 256) as u8,
                (s[7] % 256) as u8,
            );
            tiny || (0xfc00 <= s[0] && s[0] <= 0xfdff) || (0xfe80 <= s[0] && s[0] <= 0xfebf)
                || 0xff00 <= s[0] || mapped_blocked
        },
    }
}

/// Whether `ip` is a loopback address.
pub fn is_loopback_ip(ip: IpAddr) -> (r: bool)
    ensures
        r == is_loopback(ip@),
{
    match ip {
        IpAddr::V4(o) => o[0] == 127,
        IpAddr::V6(s) => {
            let r = leads_zeros(&s) && s[5] == 0 && s[6] == 0 && s[7] == 1;
            proof {
                let one = seq![0u16, 0, 0, 0, 0, 0, 0, 1];
                if r {
                    assert(s@ =~= one);
                }
                if s@ == one {
                    assert(s@[5] == one[5] && s@[6] == one[6] && s@[7] == one[7]);
                    assert(s@[0] == one[0] && s@[1] == one[1] && s@[2] == one[2] && s@[3] == one[3]
                        && s@[4] == one[4]);
                }
            }
            r
        },
    }
}

/// The addresses of `addrs` that may be dialed, in the order they had.
pub fn connectable_addrs(addrs: &Vec<SocketAddr>) -> (r: Vec<SocketAddr>)
    ensures
        r@ == addrs@.filter(|addr: SocketAddr| !blocked(addr.ip@)),
{
    let mut out: Vec<SocketAddr> = Vec::new();
    let ghost keep = |addr: SocketAddr| !blocked(addr.ip@);
    let mut i: usize = 0;
    proof {
        reveal(Seq::filter);
        assert(addrs@.take(0) =~= Seq::<SocketAddr>::empty());
    }
    while i < addrs.len()
        invariant
            i <= addrs@.len(),
            keep == (|addr: SocketAddr| !blocked(addr.ip@)),
            out@ == addrs@.take(i as int).filter(keep),
        decreases addrs@.len() - i,
    {
        proof {
            reveal(Seq::filter);
            assert(addrs@.take(i + 1).drop_last() =~= addrs@.take(i as int));
        }
        if !is_blocked_ip(addrs[i].ip) {
            out.push(addrs[i]);
        }
        i += 1;
    }
    assert(addrs@.take(i as int) =~= addrs@);
    out
}

/// A mapped IPv6 address is off limits exactly when the IPv4 address behind
/// it is.
pub proof fn mapped_addresses_inherit_the_ipv4_ranges(s: Seq<u16>)
    requires
        s.len() == 8,
        is_mapped(s),
    ensures
        blocked(IpAddrView::V6(s)) == blocked(IpAddrView::V4(embedded_v4(s))),
{
    let one = seq![0u16, 0, 0, 0, 0, 0, 0, 1];
    let none = seq![0u16, 0, 0, 0, 0, 0, 0, 0];
    assert(s[5] != one[5]);
    assert(s[5] != none[5]);
}

/// No address that may be dialed is off limits, and no other is left out.
pub proof fn only_blocked_addresses_are_dropped(addrs: Seq<SocketAddr>, addr: SocketAddr)
    ensures
        addrs.filter(|addr: SocketAddr| !blocked(addr.ip@)).contains(addr) <==> addrs.contains(addr)
            && !blocked(addr.ip@),
{
    let keep = |addr: SocketAddr| !blocked(addr.ip@);
    broadcast use vstd::seq_lib::group_filter_ensures;

    let kept = addrs.filter(keep);
    if kept.contains(addr) {
        let i = choose|i: int| 0 <= i < kept.len() && kept[i] == addr;
        assert(keep(kept[i]));
        addrs.lemma_filter_contains_rev(keep, addr);
    }
    if addrs.contains(addr) && !blocked(addr.ip@) {
        let i = choose|i: int| 0 <= i < addrs.len() && addrs[i] == addr;
        assert(keep(addrs[i]));
        assert(kept.contains(addrs[i]));
    }
}

/// The number of an IPv4 spelling's field: its plain decimal spelling.
pub open spec fn octet(field: Seq<char>) -> Option<u8> {
    match text::parsed(field, 255) {
        Some(n) => if field == text::decimal(n) {
            Some(n as u8)
        } else {
            None
        },
        None => None,
    }
}

/// The address that four dotted numbers spell, none with leading zeros.
pub open spec fn ipv4(s: Seq<char>) -> Option<Seq<u8>> {
    let fields = text::pieces(s, '.');
    if fields.len() == 4 && octet(fields[0]) is Some && octet(fields[1]) is Some && octet(
        fields[2],
    ) is Some && octet(fields[3]) is Some {
        Some(
            seq![
                octet(fields[0])->0,
                octet(fields[1])->0,
                octet(fields[2])->0,
                octet(fields[3])->0,
            ],
        )
    } else {
        None
    }
}

fn parse_octet(field: &str) -> (r: Option<u8>)
    ensures
        r == octet(field@),
{
    match text::parse_unsigned(field, 255) {
        Some(n) => {
            let spelling = text::to_decimal(n);
            if text::same(field, spelling.as_str()) {
                Some(n as u8)
            } else {
                None
            }
        },
        None => None,
    }
}

fn parse_ipv4(s: &str) -> (r: Option<[u8; 4]>)
    ensures
        match r {
            Some(octets) => ipv4(s@) == Some(octets@),
            None => ipv4(s@) is None,
        },
{
    let fields = text::split(s, '.');
    assert(fields@.len() == text::pieces(s@, '.').len());
    if fields.len() != 4 {
        return None;
    }
    assert(text::pieces(s@, '.')[0] == fields@[0]@);
    assert(text::pieces(s@, '.')[1] == fields@[1]@);
    assert(text::pieces(s@, '.')[2] == fields@[2]@);
    assert(text::pieces(s@, '.')[3] == fields@[3]@);
    match (
        parse_octet(fields[0].as_str()),
        parse_octet(fields[1].as_str()),
        parse_octet(fields[2].as_str()),
        parse_octet(fields[3].as_str()),
    ) {
        (Some(a), Some(b), Some(c), Some(d)) => {
            let octets: [u8; 4] = [a, b, c, d];
            assert(octets@ =~= seq![a, b, c, d]);
            Some(octets)
        },
        _ => None,
    }
}

/// What a hexadecimal digit is worth.
pub open spec fn hex_digit(c: char) -> Option<int> {
    if '0' <= c <= '9' {
        Some(c as u32 - 48)
    } else if 'a' <= c <= 'f' {
        Some(c as u32 - 87)
    } else if 'A' <= c <= 'F' {
        Some(c as u32 - 55)
    } else {
        None
    }
}

/// What the hexadecimal digits in `s` are worth.
pub open spec fn hex_value(s: Seq<char>) -> Option<int>
    decreases s.len(),
{
    if s.len() == 0 {
        Some(0)
    } else {
        match (hex_value(s.drop_last()), hex_digit(s.last())) {
            (Some(head), Some(last)) => Some(head * 16 + last),
            _ => None,
        }
    }
}

/// The number of an IPv6 spelling's field: one to four hexadecimal digits.
pub open spec fn segment(field: Seq<char>) -> Option<u16> {
    if 1 <= field.len() <= 4 && hex_value(field) is Some {
        Some(hex_value(field)->0 as u16)
    } else {
        None
    }
}

proof fn lemma_hex_value_bound(s: Seq<char>)
    ensures
        hex_value(s) matches Some(v) ==> 0 <= v && (s.len() == 0 ==> v < 1) && (s.len() == 1 ==> v
            < 16) && (s.len() == 2 ==> v < 256) && (s.len() == 3 ==> v < 4096) && (s.len() == 4
            ==> v < 65536),
    decreases s.len(),
{
    if s.len() > 0 {
        lemma_hex_value_bound(s.drop_last());
    }
}

fn parse_segment(field: &str) -> (r: Option<u16>)
    ensures
        r == segment(field@),
{
    let chars = text::chars_of(field);
    if chars.len() == 0 || chars.len() > 4 {
        return None;
    }
    let mut value: u16 = 0;
    let mut i: usize = 0;
    assert(chars@.take(0) =~= Seq::<char>::empty());
    while i < chars.len()
        invariant
            i <= chars@.len() <= 4,
            chars@ == field@,
            chars@.len() > 0,
            hex_value(chars@.take(i as int)) == Some(value as int),
        decreases chars@.len() - i,
    {
        let c = chars[i];
        let ghost longer = chars@.take(i + 1);
        proof {
            assert(longer.drop_last() =~= chars@.take(i as int));
            assert(longer.last() == c);
            lemma_hex_value_bound(chars@.take(i as int));
        }
        let digit: u16 = if '0' <= c && c <= '9' {
            c as u16 - 48
        } else if 'a' <= c && c <= 'f' {
            c as u16 - 87
        } else if 'A' <= c && c <= 'F' {
            c as u16 - 55
        } else {
            proof {
                lemma_hex_needs_every_digit(chars@, i + 1);
            }
            return None;
        };
        value = value * 16 + digit;
        i += 1;
    }
    assert(chars@.take(i as int) =~= chars@);
    Some(value)
}

proof fn lemma_hex_needs_every_digit(s: Seq<char>, i: int)
    requires
        0 <= i <= s.len(),
        hex_value(s.take(i)) is None,
    ensures
        hex_value(s) is None,
    decreases s.len() - i,
{
    if i == s.len() {
        assert(s.take(i) =~= s);
    } else {
        assert(s.take(i + 1).drop_last() =~= s.take(i));
        lemma_hex_needs_every_digit(s, i + 1);
    }
}

/// The segments that a run of colon-separated fields spells. The last field
/// may be a dotted IPv4 address, worth two segments, where `dotted` allows it.
pub open spec fn segments(fields: Seq<Seq<char>>, dotted: bool) -> Option<Seq<u16>>
    decreases fields.len(),
{
    if fields.len() == 0 {
        Some(Seq::empty())
    } else {
        match segments(fields.drop_last(), false) {
            None => None,
            Some(head) => match (segment(fields.last()), ipv4(fields.last())) {
                (Some(value), _) => Some(head.push(value)),
                (None, Some(o)) => if dotted {
                    Some(head.push((o[0] * 256 + o[1]) as u16).push((o[2] * 256 + o[3]) as u16))
                } else {
                    None
                },
                (None, None) => None,
            },
        }
    }
}

/// The fields of a run: none for an empty text.
pub open spec fn run_fields(s: Seq<char>) -> Seq<Seq<char>> {
    if s.len() == 0 {
        Seq::empty()
    } else {
        text::pieces(s, ':')
    }
}

/// `n` zero segments.
pub open spec fn zeros(n: int) -> Seq<u16> {
    Seq::new(n as nat, |i: int| 0u16)
}

/// The address that an IPv6 spelling names: eight segments, or fewer around
/// one `::` that stands for the missing zeros.
pub open spec fn ipv6(s: Seq<char>) -> Option<Seq<u16>> {
    match text::cut(s, "::"@) {
        None => match segments(text::pieces(s, ':'), true) {
            Some(all) => if all.len() == 8 {
                Some(all)
            } else {
                None
            },
            None => None,
        },
        Some((left, right)) => match (
            segments(run_fields(left), false),
            segments(run_fields(right), true),
        ) {
            (Some(head), Some(tail)) => if head.len() + tail.len() <= 7 {
                Some(head + zeros(8 - head.len() - tail.len()) + tail)
            } else {
                None
            },
            _ => None,
        },
    }
}

/// The address that `s` spells.
pub open spec fn ip_address(s: Seq<char>) -> Option<IpAddrView> {
    match (ipv4(s), ipv6(s)) {
        (Some(o), _) => Some(IpAddrView::V4(o)),
        (None, Some(g)) => Some(IpAddrView::V6(g)),
        (None, None) => None,
    }
}

fn parse_segments(fields: &Vec<String>, dotted: bool) -> (r: Option<Vec<u16>>)
    ensures
        match r {
            Some(all) => segments(fields.deep_view(), dotted) == Some(all@),
            None => segments(fields.deep_view(), dotted) is None,
        },
{
    let mut out: Vec<u16> = Vec::new();
    let mut i: usize = 0;
    let ghost all = fields.deep_view();
    assert(all.take(0) =~= Seq::<Seq<char>>::empty());
    while i < fields.len()
        invariant
            i <= fields@.len(),
            all == fields.deep_view(),
            segments(all.take(i as int), false) == Some(out@) || (i == fields@.len() && segments(
                all,
                dotted,
            ) == Some(out@)),
        decreases fields@.len() - i,
    {
        let ghost longer = all.take(i + 1);
        proof {
            assert(longer.drop_last() =~= all.take(i as int));
            assert(longer.last() == fields@[i as int]@);
            assert(i + 1 == fields@.len() ==> longer =~= all);
        }
        match parse_segment(fields[i].as_str()) {
            Some(value) => {
                out.push(value);
            },
            None => {
                if dotted && i + 1 == fields.len() {
                    match parse_ipv4(fields[i].as_str()) {
                        Some(o) => {
                            out.push(o[0] as u16 * 256 + o[1] as u16);
                            out.push(o[2] as u16 * 256 + o[3] as u16);
                        },
                        None => {
                            return None;
                        },
                    }
                } else {
                    proof {
                        lemma_segments_need_every_field(all, i + 1, dotted);
                    }
                    return None;
                }
            },
        }
        i += 1;
    }
    proof {
        assert(all.take(i as int) =~= all);
        lemma_dotted_is_more(all);
    }
    Some(out)
}

proof fn lemma_dotted_is_more(fields: Seq<Seq<char>>)
    ensures
        segments(fields, false) is Some ==> segments(fields, true) == segments(fields, false),
{
}

proof fn lemma_segments_need_every_field(fields: Seq<Seq<char>>, i: int, dotted: bool)
    requires
        0 < i <= fields.len(),
        segments(fields.take(i), false) is None,
        i == fields.len() ==> !dotted,
    ensures
        segments(fields, dotted) is None,
    decreases fields.len() - i,
{
    if i == fields.len() {
        assert(fields.take(i) =~= fields);
    } else {
        let longer = fields.take(i + 1);
        assert(longer.drop_last() =~= fields.take(i));
        if i + 1 == fields.len() {
            assert(longer =~= fields);
        } else {
            lemma_segments_need_every_field(fields, i + 1, dotted);
        }
    }
}

fn parse_run(s: &str, dotted: bool) -> (r: Option<Vec<u16>>)
    ensures
        match r {
            Some(all) => segments(run_fields(s@), dotted) == Some(all@),
            None => segments(run_fields(s@), dotted) is None,
        },
{
    if s.unicode_len() == 0 {
        let none: Vec<u16> = Vec::new();
        Some(none)
    } else {
        let fields = text::split(s, ':');
        parse_segments(&fields, dotted)
    }
}

fn to_eight(parts: &Vec<u16>) -> (r: [u16; 8])
    requires
        parts@.len() == 8,
    ensures
        r@ == parts@,
{
    let all: [u16; 8] = [
        parts[0],
        parts[1],
        parts[2],
        parts[3],
        parts[4],
        parts[5],
        parts[6],
        parts[7],
    ];
    assert(all@ =~= parts@);
    all
}

fn around_gap(head: Vec<u16>, tail: Vec<u16>) -> (r: Vec<u16>)
    requires
        head@.len() + tail@.len() <= 7,
    ensures
        r@ == head@ + zeros(8 - head@.len() - tail@.len()) + tail@,
        r@.len() == 8,
{
    let ghost first = head@;
    let mut all = head;
    let gap: usize = 8 - all.len() - tail.len();
    let mut i: usize = 0;
    assert(first + zeros(0) =~= first);
    while i < gap
        invariant
            i <= gap <= 8,
            all@ == first + zeros(i as int),
        decreases gap - i,
    {
        all.push(0);
        assert(first + zeros(i + 1) =~= (first + zeros(i as int)).push(0u16));
        i += 1;
    }
    let mut tail = tail;
    all.append(&mut tail);
    all
}

fn parse_ipv6(s: &str) -> (r: Option<[u16; 8]>)
    ensures
        match r {
            Some(all) => ipv6(s@) == Some(all@),
            None => ipv6(s@) is None,
        },
{
    match text::split_once(s, "::") {
        None => {
            let fields = text::split(s, ':');
            match parse_segments(&fields, true) {
                Some(all) => if all.len() == 8 {
                    Some(to_eight(&all))
                } else {
                    None
                },
                None => None,
            }
        },
        Some((left, right)) => match (
            parse_run(left.as_str(), false),
            parse_run(right.as_str(), true),
        ) {
            (Some(head), Some(tail)) => if head.len() <= 7 && tail.len() <= 7 && head.len()
                + tail.len() <= 7 {
                let all = around_gap(head, tail);
                Some(to_eight(&all))
            } else {
                None
            },
            _ => None,
        },
    }
}

/// Reads the spelling of an IP address.
pub fn parse_ip(s: &str) -> (r: Option<IpAddr>)
    ensures
        match r {
            Some(ip) => ip_address(s@) == Some(ip@),
            None => ip_address(s@) is None,
        },
{
    match parse_ipv4(s) {
        Some(octets) => Some(IpAddr::V4(octets)),
        None => match parse_ipv6(s) {
            Some(all) => Some(IpAddr::V6(all)),
            None => None,
        },
    }
}

/// No address is spelled with a dot at the end.
pub proof fn lemma_no_address_ends_in_a_dot(s: Seq<char>)
    requires
        s.len() > 0,
        s.last() == '.',
    ensures
        ip_address(s) is None,
{
    lemma_last_piece(s, '.');
    let fields = text::pieces(s, '.');
    assert(octet(fields.last()) is None);
    assert(ipv4(s) is None);
    reveal_strlit("::");
    match text::cut(s, "::"@) {
        None => {
            lemma_dotted_end_fails(s);
        },
        Some((left, right)) => {
            text::lemma_found_bounds(s, "::"@);
            if right.len() > 0 {
                assert(right.last() == s.last());
                lemma_dotted_end_fails(right);
            } else {
                let i = text::found(s, "::"@)->0;
                assert(s.subrange(i, i + 2)[1] == s.last());
            }
        },
    }
}

/// A text without a colon spells no IPv6 address.
pub proof fn lemma_ipv6_needs_colons(s: Seq<char>)
    requires
        forall|i: int| 0 <= i < s.len() ==> s[i] != ':',
    ensures
        ipv6(s) is None,
{
    reveal_strlit("::");
    text::lemma_found_bounds(s, "::"@);
    if let Some(i) = text::found(s, "::"@) {
        assert(s.subrange(i, i + 2)[0] == "::"@[0]);
        assert(s[i] == ':');
    }
    text::lemma_before_first(s, ':', s.len() as int);
    assert(text::pieces(s, ':') =~= seq![s]);
    let fields = seq![s];
    assert(fields.drop_last() =~= Seq::<Seq<char>>::empty());
    reveal_with_fuel(segments, 2);
}

/// The first piece of a text reaches up to the first `c`.
proof fn lemma_first_piece(s: Seq<char>, c: char, i: int)
    requires
        0 <= i < s.len(),
        forall|k: int| 0 <= k < i ==> s[k] != c,
        s[i] == c,
    ensures
        text::pieces(s, c) == seq![s.take(i)] + text::pieces(s.skip(i + 1), c),
{
    text::lemma_before_first(s, c, i);
}

/// A text that does not start with a digit spells no IPv4 address.
pub proof fn lemma_ipv4_starts_with_a_digit(s: Seq<char>)
    requires
        s.len() > 0,
        !text::is_digit(s[0]),
    ensures
        ipv4(s) is None,
{
    let i = text::before_first(s, '.');
    text::lemma_before_first_bounds(s, '.');
    let fields = text::pieces(s, '.');
    if fields.len() == 4 {
        assert(fields[0] =~= s.take(i)) by {
            if i == s.len() {
                assert(fields =~= seq![s]);
            }
        }
        if let Some(n) = octet(fields[0]) {
            let n = text::parsed(fields[0], 255)->0;
            text::lemma_decimal_digits(n);
            assert(text::decimal(n).len() > 0);
            assert(fields[0][0] == s[0]);
        }
    }
}

proof fn lemma_loopback_literal()
    ensures
        ip_address("127.0.0.1"@) matches Some(ip) ==> blocked(ip),
{
    reveal_strlit("127.0.0.1");
    let s = "127.0.0.1"@;
    let first = seq!['1', '2', '7'];
    lemma_ipv6_needs_colons(s);
    lemma_first_piece(s, '.', 3);
    assert(s.take(3) =~= first);
    assert(text::digits_value(first) == 127) by {
        reveal_with_fuel(text::digits_value, 4);
    }
    lemma_number_of_field(first, 127);
}

proof fn lemma_metadata_literal()
    ensures
        ip_address("169.254.169.254"@) matches Some(ip) ==> blocked(ip),
{
    reveal_strlit("169.254.169.254");
    let s = "169.254.169.254"@;
    let rest = s.skip(4);
    let first = seq!['1', '6', '9'];
    let second = seq!['2', '5', '4'];
    lemma_ipv6_needs_colons(s);
    lemma_first_piece(s, '.', 3);
    assert(s.take(3) =~= first);
    lemma_first_piece(rest, '.', 3);
    assert(rest.take(3) =~= second);
    assert(text::digits_value(first) == 169 && text::digits_value(second) == 254) by {
        reveal_with_fuel(text::digits_value, 4);
    }
    lemma_number_of_field(first, 169);
    lemma_number_of_field(second, 254);
    assert(text::pieces(s, '.')[0] == first);
    assert(text::pieces(s, '.')[1] == text::pieces(rest, '.')[0]);
}

proof fn lemma_unspecified_literal()
    ensures
        ip_address("0.0.0.0"@) matches Some(ip) ==> blocked(ip),
{
    reveal_strlit("0.0.0.0");
    let s = "0.0.0.0"@;
    let zero = seq!['0'];
    lemma_ipv6_needs_colons(s);
    let s1 = s.skip(2);
    let s2 = s1.skip(2);
    let s3 = s2.skip(2);
    lemma_first_piece(s, '.', 1);
    lemma_first_piece(s1, '.', 1);
    lemma_first_piece(s2, '.', 1);
    assert(s.take(1) =~= zero);
    assert(s1.take(1) =~= zero);
    assert(s2.take(1) =~= zero);
    assert(s3 =~= zero);
    text::lemma_before_first(zero, '.', 1);
    assert(text::pieces(zero, '.') =~= seq![zero]);
    assert(text::pieces(s, '.') =~= seq![zero, zero, zero, zero]);
    assert(text::digits_value(zero) == 0) by {
        reveal_with_fuel(text::digits_value, 2);
    }
    lemma_number_of_field(zero, 0);
    if let Some(o) = ipv4(s) {
        assert(o =~= seq![0u8, 0, 0, 0]);
    }
}

proof fn lemma_short_loopback_literal()
    ensures
        ip_address("::1"@) matches Some(ip) ==> blocked(ip),
{
    reveal_strlit("::1");
    reveal_strlit("::");
    let s = "::1"@;
    let one = seq!['1'];
    lemma_ipv4_starts_with_a_digit(s);
    assert(s.subrange(0, 2) =~= "::"@);
    assert("::"@.is_prefix_of(s));
    assert(text::found(s, "::"@) == Some(0int));
    assert(s.skip(2) =~= one);
    text::lemma_before_first(one, ':', 1);
    let fields = text::pieces(one, ':');
    assert(fields =~= seq![one]);
    assert(fields.drop_last() =~= Seq::<Seq<char>>::empty());
    assert(hex_value(one) == Some(1int)) by {
        reveal_with_fuel(hex_value, 2);
        assert(one.drop_last() =~= Seq::<char>::empty());
    }
    assert(segments(fields, true) == Some(seq![1u16])) by {
        reveal_with_fuel(segments, 2);
        assert(Seq::<u16>::empty().push(1u16) =~= seq![1u16]);
    }
    if let Some(g) = ipv6(s) {
        assert(g =~= seq![0u16, 0, 0, 0, 0, 0, 0, 1]);
    }
}

/// The literal addresses among the names of blocked hosts spell blocked
/// addresses.
pub proof fn lemma_blocked_literals()
    ensures
        ip_address("127.0.0.1"@) matches Some(ip) ==> blocked(ip),
        ip_address("169.254.169.254"@) matches Some(ip) ==> blocked(ip),
        ip_address("0.0.0.0"@) matches Some(ip) ==> blocked(ip),
        ip_address("::1"@) matches Some(ip) ==> blocked(ip),
{
    lemma_loopback_literal();
    lemma_metadata_literal();
    lemma_unspecified_literal();
    lemma_short_loopback_literal();
}

proof fn lemma_number_of_field(field: Seq<char>, n: nat)
    requires
        text::digits_value(field) == n,
        field.len() > 0,
        text::is_digit(field[0]),
        n <= 255,
    ensures
        octet(field) matches Some(value) ==> value == n,
{
}

proof fn lemma_last_piece(s: Seq<char>, c: char)
    requires
        s.len() > 0,
        s.last() == c,
    ensures
        text::pieces(s, c).len() > 0,
        text::pieces(s, c).last().len() == 0,
    decreases s.len(),
{
    text::lemma_before_first_bounds(s, c);
    let i = text::before_first(s, c);
    assert(i < s.len()) by {
        text::lemma_before_first_finds(s, c, s.len() - 1);
    }
    let rest = s.skip(i + 1);
    if rest.len() > 0 {
        assert(rest.last() == s.last());
        lemma_last_piece(rest, c);
    } else {
        assert(text::before_first(rest, c) == 0);
    }
    assert(text::pieces(s, c) =~= seq![s.take(i)] + text::pieces(rest, c));
}

proof fn lemma_dotted_end_fails(s: Seq<char>)
    requires
        s.len() > 0,
        s.last() == '.',
    ensures
        segments(text::pieces(s, ':'), true) is None,
{
    lemma_last_piece_end(s, ':');
    let fields = text::pieces(s, ':');
    let last = fields.last();
    assert(last.len() > 0 && last.last() == '.');
    lemma_last_piece(last, '.');
    assert(octet(text::pieces(last, '.').last()) is None);
    assert(ipv4(last) is None);
    assert(hex_digit('.') is None);
    assert(segment(last) is None);
}

proof fn lemma_last_piece_end(s: Seq<char>, c: char)
    requires
        s.len() > 0,
        s.last() != c,
    ensures
        text::pieces(s, c).len() > 0,
        text::pieces(s, c).last().len() > 0,
        text::pieces(s, c).last().last() == s.last(),
    decreases s.len(),
{
    text::lemma_before_first_bounds(s, c);
    let i = text::before_first(s, c);
    if i < s.len() {
        text::lemma_before_first_hits(s, c);
        let rest = s.skip(i + 1);
        assert(rest.len() > 0);
        assert(rest.last() == s.last());
        lemma_last_piece_end(rest, c);
        assert(text::pieces(s, c) =~= seq![s.take(i)] + text::pieces(rest, c));
    }
}

} // verus!
