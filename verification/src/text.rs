//! Text primitives, specified over sequences of characters.

use vstd::prelude::*;

verus! {

/// `String::push` appends one character to the end of the string.
pub assume_specification[ String::push ](s: &mut String, c: char)
    ensures
        final(s)@ == old(s)@.push(c),
;

/// The characters of `s`, in order.
pub fn chars_of(s: &str) -> (r: Vec<char>)
    ensures
        r@ == s@,
{
    let mut out: Vec<char> = Vec::new();
    for c in it: s.chars()
        invariant
            out@ == it.seq().take(it.index() as int),
            it.seq() == s@,
    {
        out.push(c);
    }
    out
}

/// The text spelled by `chars[from..to]`.
pub fn slice_text(chars: &Vec<char>, from: usize, to: usize) -> (r: String)
    requires
        from <= to <= chars@.len(),
    ensures
        r@ == chars@.subrange(from as int, to as int),
{
    let mut out = String::new();
    let mut i: usize = from;
    while i < to
        invariant
            from <= i <= to <= chars@.len(),
            out@ == chars@.subrange(from as int, i as int),
        decreases to - i,
    {
        out.push(chars[i]);
        i += 1;
    }
    out
}

/// Unicode `White_Space`, as `char::is_whitespace` defines it.
pub open spec fn is_space(c: char) -> bool {
    let u = c as u32;
    ||| 9 <= u <= 13
    ||| u == 0x20
    ||| u == 0x85
    ||| u == 0xA0
    ||| u == 0x1680
    ||| 0x2000 <= u <= 0x200A
    ||| u == 0x2028
    ||| u == 0x2029
    ||| u == 0x202F
    ||| u == 0x205F
    ||| u == 0x3000
}

/// Whether `c` is white space.
pub fn is_space_char(c: char) -> (r: bool)
    ensures
        r == is_space(c),
{
    let u: u32 = c as u32;
    (9 <= u && u <= 13) || u == 0x20 || u == 0x85 || u == 0xA0 || u == 0x1680 || (0x2000 <= u && u
        <= 0x200A) || u == 0x2028 || u == 0x2029 || u == 0x202F || u == 0x205F || u == 0x3000
}

/// `s` without the white space it starts with.
pub open spec fn trimmed_start(s: Seq<char>) -> Seq<char>
    decreases s.len(),
{
    if s.len() > 0 && is_space(s[0]) {
        trimmed_start(s.drop_first())
    } else {
        s
    }
}

/// `s` without the white space it ends with.
pub open spec fn trimmed_end(s: Seq<char>) -> Seq<char>
    decreases s.len(),
{
    if s.len() > 0 && is_space(s.last()) {
        trimmed_end(s.drop_last())
    } else {
        s
    }
}

/// `s` without the white space around it.
pub open spec fn trimmed(s: Seq<char>) -> Seq<char> {
    trimmed_end(trimmed_start(s))
}

/// Removes white space at the start.
pub fn trim_start(s: &str) -> (r: String)
    ensures
        r@ == trimmed_start(s@),
{
    let chars = chars_of(s);
    let mut i: usize = 0;
    assert(chars@.subrange(0, chars@.len() as int) =~= s@);
    while i < chars.len() && is_space_char(chars[i])
        invariant
            i <= chars@.len(),
            chars@ == s@,
            trimmed_start(s@) == trimmed_start(chars@.subrange(i as int, chars@.len() as int)),
        decreases chars@.len() - i,
    {
        proof {
            let rest = chars@.subrange(i as int, chars@.len() as int);
            assert(rest.drop_first() =~= chars@.subrange(i + 1, chars@.len() as int));
        }
        i += 1;
    }
    slice_text(&chars, i, chars.len())
}

/// Removes white space at the end.
pub fn trim_end(s: &str) -> (r: String)
    ensures
        r@ == trimmed_end(s@),
{
    let chars = chars_of(s);
    let mut i: usize = chars.len();
    assert(chars@.subrange(0, chars@.len() as int) =~= s@);
    while i > 0 && is_space_char(chars[i - 1])
        invariant
            i <= chars@.len(),
            chars@ == s@,
            trimmed_end(s@) == trimmed_end(chars@.subrange(0, i as int)),
        decreases i,
    {
        proof {
            let rest = chars@.subrange(0, i as int);
            assert(rest.drop_last() =~= chars@.subrange(0, i - 1));
        }
        i -= 1;
    }
    slice_text(&chars, 0, i)
}

/// Removes white space on both sides.
pub fn trim(s: &str) -> (r: String)
    ensures
        r@ == trimmed(s@),
{
    let head = trim_start(s);
    trim_end(head.as_str())
}

/// The position at which `p` first occurs in `s`.
pub open spec fn found(s: Seq<char>, p: Seq<char>) -> Option<int>
    decreases s.len(),
{
    if p.is_prefix_of(s) {
        Some(0)
    } else if s.len() == 0 {
        None
    } else {
        match found(s.drop_first(), p) {
            Some(i) => Some(i + 1),
            None => None,
        }
    }
}

/// `s` cut in two around the first occurrence of `p`.
pub open spec fn cut(s: Seq<char>, p: Seq<char>) -> Option<(Seq<char>, Seq<char>)> {
    match found(s, p) {
        Some(i) => Some((s.take(i), s.skip(i + p.len()))),
        None => None,
    }
}

/// A found occurrence lies inside the text and spells the pattern.
pub proof fn lemma_found_bounds(s: Seq<char>, p: Seq<char>)
    ensures
        found(s, p) matches Some(i) ==> 0 <= i && i + p.len() <= s.len() && s.subrange(
            i,
            i + p.len(),
        ) == p,
    decreases s.len(),
{
    if p.is_prefix_of(s) {
        assert(s.subrange(0, p.len() as int) =~= p);
    } else if s.len() > 0 {
        lemma_found_bounds(s.drop_first(), p);
        if let Some(i) = found(s.drop_first(), p) {
            assert(s.subrange(i + 1, i + 1 + p.len()) =~= s.drop_first().subrange(
                i,
                i + p.len(),
            ));
        }
    }
}

/// What is found first in a text is found first in a longer one.
pub proof fn lemma_found_in_longer(s: Seq<char>, tail: Seq<char>, p: Seq<char>)
    requires
        found(s, p) is Some,
    ensures
        found(s + tail, p) == found(s, p),
    decreases s.len(),
{
    let full = s + tail;
    lemma_found_bounds(s, p);
    if p.is_prefix_of(s) {
        assert(full.subrange(0, p.len() as int) =~= s.subrange(0, p.len() as int));
    } else {
        lemma_found_in_longer(s.drop_first(), tail, p);
        assert(full.drop_first() =~= s.drop_first() + tail);
        if p.is_prefix_of(full) {
            assert(s.subrange(0, p.len() as int) =~= full.subrange(0, p.len() as int));
        }
    }
}

/// A character that occurs is found.
pub proof fn lemma_found_char(s: Seq<char>, c: char, i: int)
    requires
        0 <= i < s.len(),
        s[i] == c,
    ensures
        found(s, seq![c]) is Some,
    decreases i,
{
    if i == 0 {
        assert(s.subrange(0, 1) =~= seq![c]);
    } else {
        lemma_found_char(s.drop_first(), c, i - 1);
    }
}

/// Whether `chars` spells `p` at position `at`.
fn spells_at(chars: &Vec<char>, p: &Vec<char>, at: usize) -> (r: bool)
    requires
        at <= chars@.len(),
    ensures
        r == p@.is_prefix_of(chars@.skip(at as int)),
{
    if p.len() > chars.len() - at {
        return false;
    }
    let mut i: usize = 0;
    while i < p.len()
        invariant
            i <= p@.len(),
            at + p@.len() <= chars.len(),
            forall|k: int| 0 <= k < i ==> p@[k] == chars@[at + k],
        decreases p@.len() - i,
    {
        if p[i] != chars[at + i] {
            assert(p@[i as int] != chars@.skip(at as int).subrange(0, p@.len() as int)[i as int]);
            return false;
        }
        i += 1;
    }
    assert(p@ =~= chars@.skip(at as int).subrange(0, p@.len() as int));
    true
}

/// Finds the first occurrence of `p`, as a character position.
pub fn find(s: &str, p: &str) -> (r: Option<usize>)
    ensures
        r.is_some() == found(s@, p@).is_some(),
        r matches Some(i) ==> found(s@, p@) == Some(i as int) && i + p@.len() <= s@.len(),
{
    let chars = chars_of(s);
    let pattern = chars_of(p);
    let mut i: usize = 0;
    assert(chars@.skip(0) =~= s@);
    loop
        invariant
            i <= chars@.len(),
            chars@ == s@,
            pattern@ == p@,
            found(s@, p@).is_some() == found(chars@.skip(i as int), p@).is_some(),
            found(chars@.skip(i as int), p@) matches Some(k) ==> found(s@, p@) == Some(i + k),
        decreases chars@.len() - i,
    {
        if spells_at(&chars, &pattern, i) {
            return Some(i);
        }
        if i == chars.len() {
            return None;
        }
        assert(chars@.skip(i as int).drop_first() =~= chars@.skip(i + 1));
        i += 1;
    }
}

/// Whether `p` occurs in `s`.
pub fn contains(s: &str, p: &str) -> (r: bool)
    ensures
        r == found(s@, p@).is_some(),
{
    find(s, p).is_some()
}

/// Splits `s` around the first occurrence of `p`.
pub fn split_once(s: &str, p: &str) -> (r: Option<(String, String)>)
    ensures
        r.deep_view() == cut(s@, p@),
{
    match find(s, p) {
        Some(i) => {
            let chars = chars_of(s);
            let width: usize = p.unicode_len();
            let head = slice_text(&chars, 0, i);
            let tail = slice_text(&chars, i + width, chars.len());
            assert(head@ =~= s@.take(i as int));
            assert(tail@ =~= s@.skip(i + p@.len()));
            Some((head, tail))
        },
        None => None,
    }
}

/// `s` without the prefix `p`, if it has it.
pub open spec fn without_prefix(s: Seq<char>, p: Seq<char>) -> Option<Seq<char>> {
    if p.is_prefix_of(s) {
        Some(s.skip(p.len() as int))
    } else {
        None
    }
}

/// `s` without the suffix `p`, if it has it.
pub open spec fn without_suffix(s: Seq<char>, p: Seq<char>) -> Option<Seq<char>> {
    if p.is_suffix_of(s) {
        Some(s.take(s.len() - p.len()))
    } else {
        None
    }
}

/// Whether `s` starts with `p`.
pub fn starts_with(s: &str, p: &str) -> (r: bool)
    ensures
        r == p@.is_prefix_of(s@),
{
    let chars = chars_of(s);
    let pattern = chars_of(p);
    assert(chars@.skip(0) =~= s@);
    spells_at(&chars, &pattern, 0)
}

/// Whether `s` ends with `p`.
pub fn ends_with(s: &str, p: &str) -> (r: bool)
    ensures
        r == p@.is_suffix_of(s@),
{
    let chars = chars_of(s);
    let pattern = chars_of(p);
    if pattern.len() > chars.len() {
        return false;
    }
    let at: usize = chars.len() - pattern.len();
    let r = spells_at(&chars, &pattern, at);
    proof {
        let tail = chars@.skip(at as int);
        assert(tail.subrange(0, pattern@.len() as int) =~= tail);
        assert(s@.subrange(s@.len() - p@.len(), s@.len() as int) =~= tail);
    }
    r
}

/// Whether two texts are the same.
pub fn same(a: &str, b: &str) -> (r: bool)
    ensures
        r == (a@ == b@),
{
    let r = a.unicode_len() == b.unicode_len() && starts_with(a, b);
    assert(a@.len() == b@.len() ==> a@.subrange(0, b@.len() as int) =~= a@);
    r
}

/// Removes the prefix `p`, if `s` has it.
pub fn strip_prefix(s: &str, p: &str) -> (r: Option<String>)
    ensures
        r.deep_view() == without_prefix(s@, p@),
{
    if starts_with(s, p) {
        let chars = chars_of(s);
        let rest = slice_text(&chars, p.unicode_len(), chars.len());
        assert(rest@ =~= s@.skip(p@.len() as int));
        Some(rest)
    } else {
        None
    }
}

/// Removes the suffix `p`, if `s` has it.
pub fn strip_suffix(s: &str, p: &str) -> (r: Option<String>)
    ensures
        r.deep_view() == without_suffix(s@, p@),
{
    if ends_with(s, p) {
        let chars = chars_of(s);
        let rest = slice_text(&chars, 0, chars.len() - p.unicode_len());
        assert(rest@ =~= s@.take(s@.len() - p@.len()));
        Some(rest)
    } else {
        None
    }
}

/// What follows the last `c` in `s`; all of `s` when there is none.
pub open spec fn after_last(s: Seq<char>, c: char) -> Seq<char>
    decreases s.len(),
{
    if s.contains(c) {
        after_last(s.drop_first(), c)
    } else {
        s
    }
}

/// The text after the last `c`, or all of it.
pub fn last_segment(s: &str, c: char) -> (r: String)
    ensures
        r@ == after_last(s@, c),
{
    let chars = chars_of(s);
    let mut i: usize = chars.len();
    while i > 0 && chars[i - 1] != c
        invariant
            i <= chars@.len(),
            chars@ == s@,
            forall|k: int| i <= k < chars@.len() ==> chars@[k] != c,
        decreases i,
    {
        i -= 1;
    }
    proof {
        lemma_after_last(s@, c, i as int);
    }
    slice_text(&chars, i, chars.len())
}

proof fn lemma_after_last(s: Seq<char>, c: char, i: int)
    requires
        0 <= i <= s.len(),
        forall|k: int| i <= k < s.len() ==> s[k] != c,
        i == 0 || s[i - 1] == c,
    ensures
        after_last(s, c) == s.subrange(i, s.len() as int),
    decreases i,
{
    if i == 0 {
        assert(s.subrange(0, s.len() as int) =~= s);
    } else {
        assert(s.contains(c)) by {
            assert(s[i - 1] == c);
        }
        let rest = s.drop_first();
        assert forall|k: int| i - 1 <= k < rest.len() implies rest[k] != c by {
            assert(rest[k] == s[k + 1]);
        }
        lemma_after_last(rest, c, i - 1);
        assert(rest.subrange(i - 1, rest.len() as int) =~= s.subrange(i, s.len() as int));
    }
}

/// `s` without the occurrences of `c` that it ends with.
pub open spec fn without_trailing(s: Seq<char>, c: char) -> Seq<char>
    decreases s.len(),
{
    if s.len() > 0 && s.last() == c {
        without_trailing(s.drop_last(), c)
    } else {
        s
    }
}

/// Removes every trailing `c`.
pub fn trim_end_matches(s: &str, c: char) -> (r: String)
    ensures
        r@ == without_trailing(s@, c),
{
    let chars = chars_of(s);
    let mut i: usize = chars.len();
    assert(chars@.subrange(0, chars@.len() as int) =~= s@);
    while i > 0 && chars[i - 1] == c
        invariant
            i <= chars@.len(),
            chars@ == s@,
            without_trailing(s@, c) == without_trailing(chars@.subrange(0, i as int), c),
        decreases i,
    {
        assert(chars@.subrange(0, i as int).drop_last() =~= chars@.subrange(0, i - 1));
        i -= 1;
    }
    slice_text(&chars, 0, i)
}

/// A line without the carriage return that its line feed may follow.
pub open spec fn without_carriage_return(line: Seq<char>) -> Seq<char> {
    if line.len() > 0 && line.last() == '\r' {
        line.drop_last()
    } else {
        line
    }
}

/// The lines of `s`: it is cut at every line feed, with or without a carriage
/// return before it, and the last line needs no line feed.
pub open spec fn lines_of(s: Seq<char>) -> Seq<Seq<char>>
    decreases s.len(),
{
    if s.len() == 0 {
        Seq::empty()
    } else {
        let i = before_first(s, '\n');
        if 0 <= i < s.len() {
            seq![without_carriage_return(s.take(i))] + lines_of(s.skip(i + 1))
        } else {
            seq![s]
        }
    }
}

/// How many characters precede the first `c` of `s`.
pub open spec fn before_first(s: Seq<char>, c: char) -> int
    decreases s.len(),
{
    if s.len() == 0 || s[0] == c {
        0
    } else {
        1 + before_first(s.drop_first(), c)
    }
}

/// The pieces that the occurrences of `c` cut `s` into.
pub open spec fn pieces(s: Seq<char>, c: char) -> Seq<Seq<char>>
    decreases s.len(),
{
    let i = before_first(s, c);
    if 0 <= i < s.len() {
        seq![s.take(i)] + pieces(s.skip(i + 1), c)
    } else {
        seq![s]
    }
}

/// What precedes the first `c` ends where the first `c` stands.
pub proof fn lemma_before_first(s: Seq<char>, c: char, i: int)
    requires
        0 <= i <= s.len(),
        forall|k: int| 0 <= k < i ==> s[k] != c,
        i == s.len() || s[i] == c,
    ensures
        before_first(s, c) == i,
    decreases i,
{
    if i > 0 {
        let rest = s.drop_first();
        assert forall|k: int| 0 <= k < i - 1 implies rest[k] != c by {
            assert(rest[k] == s[k + 1]);
        }
        lemma_before_first(rest, c, i - 1);
    }
}

/// What precedes the first `c` is no longer than the text.
pub proof fn lemma_before_first_bounds(s: Seq<char>, c: char)
    ensures
        0 <= before_first(s, c) <= s.len(),
    decreases s.len(),
{
    if s.len() > 0 && s[0] != c {
        lemma_before_first_bounds(s.drop_first(), c);
    }
}

/// A `c` stands right behind what precedes the first `c`.
pub proof fn lemma_before_first_hits(s: Seq<char>, c: char)
    requires
        before_first(s, c) < s.len(),
    ensures
        s[before_first(s, c)] == c,
    decreases s.len(),
{
    lemma_before_first_bounds(s, c);
    if s.len() > 0 && s[0] != c {
        lemma_before_first_hits(s.drop_first(), c);
        lemma_before_first_bounds(s.drop_first(), c);
    }
}

/// A `c` at `i` bounds what precedes the first `c`.
pub proof fn lemma_before_first_finds(s: Seq<char>, c: char, i: int)
    requires
        0 <= i < s.len(),
        s[i] == c,
    ensures
        before_first(s, c) <= i,
    decreases s.len(),
{
    if s[0] != c {
        lemma_before_first_finds(s.drop_first(), c, i - 1);
    }
}

/// Splits `s` at every `c`.
pub fn split(s: &str, c: char) -> (r: Vec<String>)
    ensures
        r.deep_view() == pieces(s@, c),
        r@.len() > 0,
{
    let chars = chars_of(s);
    let mut out: Vec<String> = Vec::new();
    let mut start: usize = 0;
    assert(chars@.skip(0) =~= s@);
    assert(out.deep_view() + pieces(s@, c) =~= pieces(s@, c));
    loop
        invariant
            start <= chars@.len(),
            chars@ == s@,
            pieces(s@, c) == out.deep_view() + pieces(chars@.skip(start as int), c),
        decreases chars@.len() - start,
    {
        let ghost rest = chars@.skip(start as int);
        let ghost before = out.deep_view();
        let mut end: usize = start;
        while end < chars.len() && chars[end] != c
            invariant
                start <= end <= chars@.len(),
                forall|k: int| start <= k < end ==> chars@[k] != c,
            decreases chars@.len() - end,
        {
            end += 1;
        }
        let piece = slice_text(&chars, start, end);
        let ghost view = piece@;
        proof {
            assert forall|k: int| 0 <= k < end - start implies rest[k] != c by {
                assert(rest[k] == chars@[start + k]);
            }
            lemma_before_first(rest, c, end - start);
            assert(view =~= rest.take(end - start));
        }
        out.push(piece);
        assert(out.deep_view() =~= before + seq![view]);
        if end == chars.len() {
            assert(rest.take(end - start) =~= rest);
            return out;
        }
        proof {
            assert(chars@.skip(end + 1) =~= rest.skip(end - start + 1));
            let tail = pieces(chars@.skip(end + 1), c);
            assert(before + (seq![view] + tail) =~= (before + seq![view]) + tail);
        }
        start = end + 1;
    }
}

/// Splits `s` into lines.
pub fn lines(s: &str) -> (r: Vec<String>)
    ensures
        r.deep_view() == lines_of(s@),
{
    let chars = chars_of(s);
    let mut out: Vec<String> = Vec::new();
    let mut start: usize = 0;
    assert(chars@.skip(0) =~= s@);
    while start < chars.len()
        invariant
            start <= chars@.len(),
            chars@ == s@,
            lines_of(s@) == out.deep_view() + lines_of(chars@.skip(start as int)),
        decreases chars@.len() - start,
    {
        let ghost rest = chars@.skip(start as int);
        let ghost before = out.deep_view();
        let mut end: usize = start;
        while end < chars.len() && chars[end] != '\n'
            invariant
                start <= end <= chars@.len(),
                forall|k: int| start <= k < end ==> chars@[k] != '\n',
            decreases chars@.len() - end,
        {
            end += 1;
        }
        proof {
            assert forall|k: int| 0 <= k < end - start implies rest[k] != '\n' by {
                assert(rest[k] == chars@[start + k]);
            }
            lemma_before_first(rest, '\n', end - start);
        }
        if end < chars.len() {
            let mut stop: usize = end;
            if stop > start && chars[stop - 1] == '\r' {
                stop -= 1;
            }
            let line = slice_text(&chars, start, stop);
            out.push(line);
            proof {
                assert(line@ =~= without_carriage_return(rest.take(end - start)));
                assert(chars@.skip(end + 1) =~= rest.skip(end - start + 1));
                assert(out.deep_view() =~= before + seq![line@]);
                assert(before + (seq![line@] + lines_of(chars@.skip(end + 1))) =~= (before + seq![
                    line@,
                ]) + lines_of(chars@.skip(end + 1)));
            }
            start = end + 1;
        } else {
            let line = slice_text(&chars, start, end);
            out.push(line);
            proof {
                assert(line@ =~= rest);
                assert(out.deep_view() =~= before + seq![line@]);
                assert(chars@.skip(end as int) =~= Seq::<char>::empty());
                assert((before + seq![line@]) + Seq::<Seq<char>>::empty() =~= before + seq![line@]);
            }
            start = end;
        }
    }
    assert(chars@.skip(start as int) =~= Seq::<char>::empty());
    assert(out.deep_view() + Seq::<Seq<char>>::empty() =~= out.deep_view());
    out
}

/// `parts` in order, with `sep` between neighbours.
pub open spec fn joined(parts: Seq<Seq<char>>, sep: Seq<char>) -> Seq<char>
    decreases parts.len(),
{
    if parts.len() == 0 {
        Seq::empty()
    } else if parts.len() == 1 {
        parts[0]
    } else {
        joined(parts.drop_last(), sep) + sep + parts.last()
    }
}

/// Joins `parts` with `sep` between neighbours.
pub fn join(parts: &Vec<String>, sep: &str) -> (r: String)
    ensures
        r@ == joined(parts.deep_view(), sep@),
{
    let mut out = String::new();
    let mut i: usize = 0;
    while i < parts.len()
        invariant
            i <= parts@.len(),
            out@ == joined(parts.deep_view().take(i as int), sep@),
        decreases parts@.len() - i,
    {
        let ghost head = parts.deep_view().take(i as int);
        let ghost longer = parts.deep_view().take(i + 1);
        assert(longer.drop_last() =~= head);
        assert(longer.last() == parts@[i as int]@);
        if i > 0 {
            out.append(sep);
        }
        out.append(parts[i].as_str());
        i += 1;
    }
    assert(parts.deep_view().take(i as int) =~= parts.deep_view());
    out
}

/// The character that spells the decimal digit `d`.
pub open spec fn digit(d: nat) -> char {
    (48 + d) as u8 as char
}

/// The decimal spelling of `n`, without leading zeros.
pub open spec fn decimal(n: nat) -> Seq<char>
    decreases n,
{
    if n < 10 {
        seq![digit(n)]
    } else {
        decimal(n / 10).push(digit(n % 10))
    }
}

/// The decimal spelling of a possibly negative number.
pub open spec fn signed_decimal(n: int) -> Seq<char> {
    if n < 0 {
        seq!['-'] + decimal((-n) as nat)
    } else {
        decimal(n as nat)
    }
}

/// Whether `c` is an ASCII decimal digit.
pub open spec fn is_digit(c: char) -> bool {
    '0' <= c <= '9'
}

/// What the decimal digits in `s` are worth.
pub open spec fn digits_value(s: Seq<char>) -> nat
    decreases s.len(),
{
    if s.len() == 0 {
        0
    } else {
        digits_value(s.drop_last()) * 10 + (s.last() as u32 - 48) as nat
    }
}

/// Whether `s` is made of decimal digits alone.
pub open spec fn all_digits(s: Seq<char>) -> bool {
    forall|k: int| 0 <= k < s.len() ==> is_digit(#[trigger] s[k])
}

/// `s` without the plus sign it may start with.
pub open spec fn without_plus(s: Seq<char>) -> Seq<char> {
    if s.len() > 0 && s[0] == '+' {
        s.drop_first()
    } else {
        s
    }
}

/// The number `s` spells: an optional plus sign, then one or more decimal
/// digits worth at most `max`.
pub open spec fn parsed(s: Seq<char>, max: nat) -> Option<nat> {
    let digits = without_plus(s);
    if digits.len() > 0 && all_digits(digits) && digits_value(digits) <= max {
        Some(digits_value(digits))
    } else {
        None
    }
}

/// A longer run of digits is worth at least as much as its start.
proof fn lemma_digits_grow(s: Seq<char>, i: int)
    requires
        0 <= i <= s.len(),
        all_digits(s),
    ensures
        digits_value(s.take(i)) <= digits_value(s),
    decreases s.len() - i,
{
    if i == s.len() {
        assert(s.take(i) =~= s);
    } else {
        assert(s.take(i + 1).drop_last() =~= s.take(i));
        assert(is_digit(s.take(i + 1).last()));
        lemma_digits_grow(s, i + 1);
    }
}

/// Reads an unsigned decimal number of at most `max`.
pub fn parse_unsigned(s: &str, max: u64) -> (r: Option<u64>)
    ensures
        r.is_some() == parsed(s@, max as nat).is_some(),
        r matches Some(n) ==> parsed(s@, max as nat) == Some(n as nat) && n <= max,
{
    let chars = chars_of(s);
    let start: usize = if chars.len() > 0 && chars[0] == '+' {
        1
    } else {
        0
    };
    let ghost digits = chars@.skip(start as int);
    assert(digits =~= without_plus(s@));
    if start == chars.len() {
        return None;
    }
    let mut i: usize = start;
    let mut value: u64 = 0;
    assert(digits.take(0) =~= Seq::<char>::empty());
    while i < chars.len()
        invariant
            start <= i <= chars@.len(),
            start <= 1,
            digits == chars@.skip(start as int),
            digits.len() > 0,
            digits == without_plus(s@),
            forall|k: int| 0 <= k < i - start ==> is_digit(#[trigger] digits[k]),
            value == digits_value(digits.take(i - start)),
            value <= max,
        decreases chars@.len() - i,
    {
        let c = chars[i];
        assert(c == digits[i - start]);
        if !('0' <= c && c <= '9') {
            assert(!is_digit(digits[i - start]));
            return None;
        }
        let d: u64 = c as u64 - 48;
        proof {
            assert(digits.take(i - start + 1).drop_last() =~= digits.take(i - start));
            if all_digits(digits) {
                lemma_digits_grow(digits, i - start + 1);
            }
        }
        if value > (u64::MAX - d) / 10 {
            return None;
        }
        let next: u64 = value * 10 + d;
        if next > max {
            return None;
        }
        value = next;
        i += 1;
    }
    assert(digits.take(i - start) =~= digits);
    Some(value)
}

/// Reads an unsigned decimal number that fits `usize`.
pub fn parse_usize(s: &str) -> (r: Option<usize>)
    ensures
        r.is_some() == parsed(s@, usize::MAX as nat).is_some(),
        r matches Some(n) ==> parsed(s@, usize::MAX as nat) == Some(n as nat),
{
    match parse_unsigned(s, usize::MAX as u64) {
        Some(n) => Some(n as usize),
        None => None,
    }
}

/// Reads an unsigned decimal number that fits `u32`.
pub fn parse_u32(s: &str) -> (r: Option<u32>)
    ensures
        r.is_some() == parsed(s@, u32::MAX as nat).is_some(),
        r matches Some(n) ==> parsed(s@, u32::MAX as nat) == Some(n as nat),
{
    match parse_unsigned(s, u32::MAX as u64) {
        Some(n) => Some(n as u32),
        None => None,
    }
}

/// Spells `n` in decimal.
pub fn to_decimal(n: u64) -> (r: String)
    ensures
        r@ == decimal(n as nat),
    decreases n,
{
    let mut out = if n < 10 {
        String::new()
    } else {
        to_decimal(n / 10)
    };
    let d: u8 = (n % 10) as u8;
    out.push((48 + d) as char);
    assert(n < 10 ==> out@ =~= seq![digit(n as nat)]);
    out
}

/// Spells a possibly negative number in decimal.
pub fn to_signed_decimal(n: i64) -> (r: String)
    ensures
        r@ == signed_decimal(n as int),
{
    if n < 0 {
        let magnitude: u64 = if n == i64::MIN {
            9223372036854775808
        } else {
            (-n) as u64
        };
        let mut out = String::new();
        out.push('-');
        let digits = to_decimal(magnitude);
        out.append(digits.as_str());
        assert(out@ =~= seq!['-'] + decimal(magnitude as nat));
        out
    } else {
        to_decimal(n as u64)
    }
}

/// A decimal spelling is made of digits and worth the number.
pub proof fn lemma_decimal_digits(n: nat)
    ensures
        decimal(n).len() > 0,
        all_digits(decimal(n)),
        digits_value(decimal(n)) == n,
    decreases n,
{
    assert(is_digit(digit(n % 10)));
    assert(digit(n % 10) as u32 == 48 + n % 10);
    if n < 10 {
        assert(decimal(n).drop_last() =~= Seq::<char>::empty());
        assert(digits_value(decimal(n).drop_last()) == 0);
        assert(decimal(n).last() == digit(n));
    } else {
        lemma_decimal_digits(n / 10);
        assert(decimal(n).drop_last() =~= decimal(n / 10));
        assert(decimal(n).last() == digit(n % 10));
    }
}

/// Reading back the spelling of a number gives the number: a page token
/// always names the offset it was made from.
pub proof fn decimal_round_trip(n: nat, max: nat)
    requires
        n <= max,
    ensures
        decimal(n).len() > 0,
        parsed(decimal(n), max) == Some(n),
{
    lemma_decimal_digits(n);
    assert(is_digit(decimal(n)[0]));
}

/// The ASCII lower case of `c`.
pub open spec fn lower_char(c: char) -> char {
    if 'A' <= c <= 'Z' {
        (c as u8 + 32) as u8 as char
    } else {
        c
    }
}

/// `s` with its ASCII letters in lower case.
pub open spec fn lower(s: Seq<char>) -> Seq<char> {
    s.map_values(|c: char| lower_char(c))
}

/// The ASCII lower case of one character.
pub fn to_lower_char(c: char) -> (r: char)
    ensures
        r == lower_char(c),
{
    if 'A' <= c && c <= 'Z' {
        (c as u8 + 32) as char
    } else {
        c
    }
}

/// Puts the ASCII letters of `s` in lower case.
pub fn to_lower(s: &str) -> (r: String)
    ensures
        r@ == lower(s@),
{
    let chars = chars_of(s);
    let mut out = String::new();
    let mut i: usize = 0;
    while i < chars.len()
        invariant
            i <= chars@.len(),
            chars@ == s@,
            out@ == lower(s@).take(i as int),
        decreases chars@.len() - i,
    {
        out.push(to_lower_char(chars[i]));
        assert(lower(s@).take(i + 1) =~= lower(s@).take(i as int).push(lower(s@)[i as int]));
        i += 1;
    }
    assert(lower(s@).take(i as int) =~= lower(s@));
    out
}

/// Whether two texts are the same up to the case of ASCII letters.
pub fn same_ignoring_case(a: &str, b: &str) -> (r: bool)
    ensures
        r == (lower(a@) == lower(b@)),
{
    to_lower(a) == to_lower(b)
}

/// Lexicographic order by code point: the order of Rust strings.
pub open spec fn text_le(a: Seq<char>, b: Seq<char>) -> bool
    decreases a.len(),
{
    if a.len() == 0 {
        true
    } else if b.len() == 0 {
        false
    } else if a[0] != b[0] {
        a[0] < b[0]
    } else {
        text_le(a.drop_first(), b.drop_first())
    }
}

/// Whether `a` comes no later than `b`.
pub fn at_most(a: &str, b: &str) -> (r: bool)
    ensures
        r == text_le(a@, b@),
{
    let left = chars_of(a);
    let right = chars_of(b);
    let mut i: usize = 0;
    assert(left@.skip(0) =~= a@);
    assert(right@.skip(0) =~= b@);
    loop
        invariant
            i <= left@.len(),
            i <= right@.len(),
            text_le(a@, b@) == text_le(left@.skip(i as int), right@.skip(i as int)),
        decreases left@.len() - i,
    {
        if i == left.len() {
            return true;
        }
        if i == right.len() {
            return false;
        }
        assert(left@.skip(i as int)[0] == left@[i as int]);
        assert(right@.skip(i as int)[0] == right@[i as int]);
        if left[i] != right[i] {
            return left[i] < right[i];
        }
        assert(left@.skip(i as int).drop_first() =~= left@.skip(i + 1));
        assert(right@.skip(i as int).drop_first() =~= right@.skip(i + 1));
        i += 1;
    }
}

/// The order of texts is reflexive.
pub proof fn text_le_reflexive(a: Seq<char>)
    ensures
        text_le(a, a),
    decreases a.len(),
{
    if a.len() > 0 {
        text_le_reflexive(a.drop_first());
    }
}

/// Any two texts are ordered one way or the other.
pub proof fn text_le_total(a: Seq<char>, b: Seq<char>)
    ensures
        text_le(a, b) || text_le(b, a),
    decreases a.len(),
{
    if a.len() > 0 && b.len() > 0 && a[0] == b[0] {
        text_le_total(a.drop_first(), b.drop_first());
    }
}

/// Only equal texts are ordered both ways.
pub proof fn text_le_antisymmetric(a: Seq<char>, b: Seq<char>)
    requires
        text_le(a, b),
        text_le(b, a),
    ensures
        a == b,
    decreases a.len(),
{
    if a.len() > 0 {
        text_le_antisymmetric(a.drop_first(), b.drop_first());
        assert(a =~= seq![a[0]] + a.drop_first());
        assert(b =~= seq![b[0]] + b.drop_first());
    } else {
        assert(a =~= b);
    }
}

/// The order of texts is transitive.
pub proof fn text_le_transitive(a: Seq<char>, b: Seq<char>, c: Seq<char>)
    requires
        text_le(a, b),
        text_le(b, c),
    ensures
        text_le(a, c),
    decreases a.len(),
{
    if a.len() > 0 && a[0] == b[0] && b[0] == c[0] {
        text_le_transitive(a.drop_first(), b.drop_first(), c.drop_first());
    }
}

/// What is trimmed off a text is the white space around it and nothing else:
/// what is left is a stretch of the text, only white space stands before it
/// and behind it, and it neither starts nor ends with white space.
pub proof fn trimming_takes_off_white_space_alone(s: Seq<char>)
    ensures
        exists|i: int, j: int|
            0 <= i <= j <= s.len() && trimmed(s) == #[trigger] s.subrange(i, j) && (forall|k: int|
                (0 <= k < i || j <= k < s.len()) ==> is_space(#[trigger] s[k])),
        trimmed(s).len() > 0 ==> !is_space(trimmed(s)[0]) && !is_space(trimmed(s).last()),
{
    lemma_trimmed_start(s);
    let i = s.len() - trimmed_start(s).len();
    lemma_trimmed_end(trimmed_start(s));
    let j = i + trimmed(s).len();
    assert(trimmed(s) =~= s.subrange(i, j));
    assert forall|k: int| 0 <= k < i || j <= k < s.len() implies is_space(#[trigger] s[k]) by {
        if k >= j {
            assert(trimmed_start(s)[k - i] == s[k]);
        }
    }
}

proof fn lemma_trimmed_start(s: Seq<char>)
    ensures
        trimmed_start(s).len() <= s.len(),
        trimmed_start(s) == s.skip(s.len() - trimmed_start(s).len()),
        forall|k: int|
            0 <= k < s.len() - trimmed_start(s).len() ==> is_space(#[trigger] s[k]),
        trimmed_start(s).len() > 0 ==> !is_space(trimmed_start(s)[0]),
    decreases s.len(),
{
    if s.len() > 0 && is_space(s[0]) {
        let rest = s.drop_first();
        lemma_trimmed_start(rest);
        assert(trimmed_start(s) =~= s.skip(s.len() - trimmed_start(s).len()));
        assert forall|k: int| 0 <= k < s.len() - trimmed_start(s).len() implies is_space(
            #[trigger] s[k],
        ) by {
            if k > 0 {
                assert(rest[k - 1] == s[k]);
            }
        }
    } else {
        assert(s.skip(0) =~= s);
    }
}

proof fn lemma_trimmed_end(s: Seq<char>)
    ensures
        trimmed_end(s).len() <= s.len(),
        trimmed_end(s) == s.take(trimmed_end(s).len() as int),
        forall|k: int| trimmed_end(s).len() <= k < s.len() ==> is_space(#[trigger] s[k]),
        trimmed_end(s).len() > 0 ==> !is_space(trimmed_end(s).last()),
    decreases s.len(),
{
    if s.len() > 0 && is_space(s.last()) {
        let rest = s.drop_last();
        lemma_trimmed_end(rest);
        assert(trimmed_end(s) =~= s.take(trimmed_end(s).len() as int));
        assert forall|k: int| trimmed_end(s).len() <= k < s.len() implies is_space(
            #[trigger] s[k],
        ) by {
            if k < s.len() - 1 {
                assert(rest[k] == s[k]);
            }
        }
    } else {
        assert(s.take(s.len() as int) =~= s);
    }
}

/// A text is blank exactly where every character of it is white space.
pub proof fn blank_texts_are_white_space(s: Seq<char>)
    ensures
        trimmed(s).len() == 0 <==> forall|k: int| 0 <= k < s.len() ==> is_space(#[trigger] s[k]),
{
    trimming_takes_off_white_space_alone(s);
    let (i, j) = choose|i: int, j: int|
        0 <= i <= j <= s.len() && trimmed(s) == #[trigger] s.subrange(i, j) && (forall|k: int|
            (0 <= k < i || j <= k < s.len()) ==> is_space(#[trigger] s[k]));
    if trimmed(s).len() > 0 {
        assert(trimmed(s)[0] == s[i]);
    }
}

/// Pieces put together again, with the separator between them, are the text;
/// and no piece holds the separator.
pub proof fn pieces_make_up_the_text(s: Seq<char>, c: char)
    ensures
        pieces(s, c).len() > 0,
        reassembled(pieces(s, c), c) == s,
        forall|i: int, k: int|
            0 <= i < pieces(s, c).len() && 0 <= k < pieces(s, c)[i].len() ==> #[trigger] pieces(
                s,
                c,
            )[i][k] != c,
    decreases s.len(),
{
    lemma_before_first_bounds(s, c);
    let n = before_first(s, c);
    let all = pieces(s, c);
    lemma_before_first_misses(s, c);
    if n < s.len() {
        lemma_before_first_hits(s, c);
        let rest = s.skip(n + 1);
        pieces_make_up_the_text(rest, c);
        assert(all.drop_first() =~= pieces(rest, c));
        assert(s =~= s.take(n) + seq![c] + rest);
        assert forall|i: int, k: int|
            0 <= i < all.len() && 0 <= k < all[i].len() implies #[trigger] all[i][k] != c by {
            if i == 0 {
                assert(all[0][k] == s[k]);
            } else {
                assert(all[i] == pieces(rest, c)[i - 1]);
                assert(pieces(rest, c)[i - 1][k] != c);
            }
        }
    }
}

/// `parts` in order, with `c` between neighbours.
pub open spec fn reassembled(parts: Seq<Seq<char>>, c: char) -> Seq<char>
    decreases parts.len(),
{
    if parts.len() == 0 {
        Seq::empty()
    } else if parts.len() == 1 {
        parts[0]
    } else {
        parts[0] + seq![c] + reassembled(parts.drop_first(), c)
    }
}

proof fn lemma_before_first_misses(s: Seq<char>, c: char)
    ensures
        forall|k: int| 0 <= k < before_first(s, c) && k < s.len() ==> #[trigger] s[k] != c,
    decreases s.len(),
{
    if s.len() > 0 && s[0] != c {
        let rest = s.drop_first();
        lemma_before_first_misses(rest, c);
        assert forall|k: int| 0 <= k < before_first(s, c) && k < s.len() implies #[trigger] s[k]
            != c by {
            if k > 0 {
                assert(rest[k - 1] == s[k]);
            }
        }
    }
}

/// A text is cut around the first place where the separator stands: the two
/// halves with the separator between them are the text, and the separator
/// stands nowhere earlier. Only a text without the separator is not cut.
pub proof fn cuts_are_at_the_first_place(s: Seq<char>, p: Seq<char>)
    ensures
        match cut(s, p) {
            Some((before, after)) => {
                &&& s == before + p + after
                &&& forall|i: int|
                    0 <= i < before.len() ==> !p.is_prefix_of(#[trigger] s.skip(i))
            },
            None => forall|i: int| 0 <= i <= s.len() ==> !p.is_prefix_of(#[trigger] s.skip(i)),
        },
{
    lemma_found_is_first(s, p);
    match found(s, p) {
        Some(i) => {
            assert(p.is_prefix_of(s.skip(i)));
            assert(s.take(i) + p + s.skip(i + p.len()) =~= s) by {
                assert(p =~= s.skip(i).take(p.len() as int));
            }
        },
        None => {},
    }
}

proof fn lemma_found_is_first(s: Seq<char>, p: Seq<char>)
    ensures
        match found(s, p) {
            Some(i) => {
                &&& 0 <= i <= s.len()
                &&& p.is_prefix_of(s.skip(i))
                &&& forall|k: int| 0 <= k < i ==> !p.is_prefix_of(#[trigger] s.skip(k))
            },
            None => forall|k: int| 0 <= k <= s.len() ==> !p.is_prefix_of(#[trigger] s.skip(k)),
        },
    decreases s.len(),
{
    assert(s.skip(0) =~= s);
    if !p.is_prefix_of(s) && s.len() > 0 {
        let rest = s.drop_first();
        lemma_found_is_first(rest, p);
        assert forall|k: int| 1 <= k <= s.len() implies #[trigger] s.skip(k) == rest.skip(
            k - 1,
        ) by {
            assert(s.skip(k) =~= rest.skip(k - 1));
        }
    }
}

/// Joined texts: none are nothing, one is itself, and one more follows the
/// separator behind the others.
pub proof fn joins_put_the_separator_between(
    parts: Seq<Seq<char>>,
    last: Seq<char>,
    sep: Seq<char>,
)
    ensures
        joined(Seq::empty(), sep) == Seq::<char>::empty(),
        joined(seq![last], sep) == last,
        parts.len() > 0 ==> joined(parts.push(last), sep) == joined(parts, sep) + sep + last,
{
    if parts.len() > 0 {
        assert(parts.push(last).drop_last() =~= parts);
    }
}

/// What follows the last separator is an end of the text that does not hold
/// it, and it is the whole text or the separator stands right before it.
pub proof fn ends_follow_the_last_separator(s: Seq<char>, c: char)
    ensures
        ({
            let n = s.len() - after_last(s, c).len();
            &&& n >= 0
            &&& after_last(s, c) == s.skip(n)
            &&& !after_last(s, c).contains(c)
            &&& n > 0 ==> s[n - 1] == c
        }),
    decreases s.len(),
{
    if s.contains(c) {
        let rest = s.drop_first();
        ends_follow_the_last_separator(rest, c);
        let n = s.len() - after_last(s, c).len();
        assert(after_last(s, c) =~= s.skip(n));
        if n == 1 {
            assert(rest.skip(0) =~= rest);
            let k = choose|k: int| 0 <= k < s.len() && s[k] == c;
            if k > 0 {
                assert(rest[k - 1] == c);
            }
        } else {
            assert(rest[n - 2] == s[n - 1]);
        }
    } else {
        assert(s.skip(0) =~= s);
    }
}

/// A text without the characters `c` at its end is a beginning of it: only
/// such characters follow, and it does not end with one.
pub proof fn trailing_characters_are_taken_off(s: Seq<char>, c: char)
    ensures
        ({
            let kept = without_trailing(s, c);
            &&& kept.len() <= s.len()
            &&& kept == s.take(kept.len() as int)
            &&& forall|k: int| kept.len() <= k < s.len() ==> #[trigger] s[k] == c
            &&& kept.len() > 0 ==> kept.last() != c
        }),
    decreases s.len(),
{
    if s.len() > 0 && s.last() == c {
        trailing_characters_are_taken_off(s.drop_last(), c);
        let kept = without_trailing(s, c);
        assert(kept =~= s.take(kept.len() as int));
        assert forall|k: int| kept.len() <= k < s.len() implies #[trigger] s[k] == c by {
            if k < s.len() - 1 {
                assert(s.drop_last()[k] == s[k]);
            }
        }
    } else {
        assert(s.take(s.len() as int) =~= s);
    }
}

/// Texts are ordered by the first character in which they differ, and the
/// beginning of a text precedes it.
pub proof fn texts_are_ordered_by_their_first_difference(a: Seq<char>, b: Seq<char>, i: int)
    requires
        0 <= i <= a.len(),
        i <= b.len(),
        a.take(i) == b.take(i),
    ensures
        i == a.len() ==> text_le(a, b),
        i == b.len() && i < a.len() ==> !text_le(a, b),
        i < a.len() && i < b.len() && a[i] != b[i] ==> (text_le(a, b) <==> a[i] < b[i]),
    decreases i,
{
    if i > 0 {
        assert(a[0] == a.take(i)[0]);
        assert(b[0] == b.take(i)[0]);
        let x = a.drop_first();
        let y = b.drop_first();
        assert forall|k: int| 0 <= k < i - 1 implies #[trigger] x.take(i - 1)[k] == y.take(
            i - 1,
        )[k] by {
            assert(a[k + 1] == a.take(i)[k + 1]);
            assert(b[k + 1] == b.take(i)[k + 1]);
        }
        assert(x.take(i - 1) =~= y.take(i - 1));
        texts_are_ordered_by_their_first_difference(x, y, i - 1);
    }
}

/// The lines of a text with a line feed in it are what precedes the first line
/// feed, without a carriage return at its end, and the lines of what follows.
pub proof fn lines_end_at_line_feeds(line: Seq<char>, rest: Seq<char>)
    requires
        !line.contains('\n'),
    ensures
        lines_of(line) == if line.len() == 0 {
            Seq::<Seq<char>>::empty()
        } else {
            seq![line]
        },
        lines_of(line + seq!['\n'] + rest) == seq![line] + lines_of(rest) || line.len() > 0
            && line.last() == '\r',
        lines_of(line + seq!['\r', '\n'] + rest) == seq![line] + lines_of(rest),
{
    let n: int = line.len() as int;
    lemma_no_before_first(line, '\n');
    let plain = line + seq!['\n'] + rest;
    assert forall|k: int| 0 <= k < line.len() implies #[trigger] plain[k] != '\n' by {
        assert(line.contains(line[k]));
    }
    lemma_before_first(plain, '\n', n);
    assert(plain.take(n) =~= line);
    assert(plain.skip(n + 1) =~= rest);
    let dos = line + seq!['\r', '\n'] + rest;
    assert forall|k: int| 0 <= k < line.len() + 1 implies #[trigger] dos[k] != '\n' by {
        if k < line.len() {
            assert(line.contains(line[k]));
        }
    }
    lemma_before_first(dos, '\n', n + 1);
    assert(dos.take(n + 1) =~= line.push('\r'));
    assert(line.push('\r').drop_last() =~= line);
    assert(dos.skip(n + 2) =~= rest);
}

proof fn lemma_no_before_first(s: Seq<char>, c: char)
    requires
        !s.contains(c),
    ensures
        before_first(s, c) == s.len(),
{
    assert forall|k: int| 0 <= k < s.len() implies #[trigger] s[k] != c by {
        assert(s.contains(s[k]));
    }
    lemma_before_first(s, c, s.len() as int);
}

/// Splitting a text at a separator gives back the parts that it was put
/// together from, where none of them holds the separator.
pub proof fn splitting_undoes_joining(parts: Seq<Seq<char>>, c: char)
    requires
        parts.len() > 0,
        forall|i: int| 0 <= i < parts.len() ==> !(#[trigger] parts[i]).contains(c),
    ensures
        pieces(reassembled(parts, c), c) == parts,
    decreases parts.len(),
{
    let s = reassembled(parts, c);
    let first = parts[0];
    let n: int = first.len() as int;
    assert forall|k: int| 0 <= k < n implies #[trigger] first[k] != c by {
        assert(first.contains(first[k]));
    }
    if parts.len() == 1 {
        lemma_before_first(s, c, n);
        assert(pieces(s, c) =~= parts);
    } else {
        let rest = parts.drop_first();
        let tail = reassembled(rest, c);
        assert(s == first + seq![c] + tail);
        assert forall|i: int| 0 <= i < rest.len() implies !(#[trigger] rest[i]).contains(c) by {
            assert(rest[i] == parts[i + 1]);
        }
        splitting_undoes_joining(rest, c);
        lemma_before_first(s, c, n);
        assert(s.take(n) =~= first);
        assert(s.skip(n + 1) =~= tail);
        assert(pieces(s, c) =~= parts);
    }
}

/// A number is read from decimal digits, with or without a plus sign before
/// them, and leading zeros change nothing. Any other character, no digit at
/// all, and a number that is too large are refused.
pub proof fn numbers_are_read_from_digits_alone(digits: Seq<char>, max: nat, k: int)
    ensures
        parsed(Seq::empty(), max) is None,
        parsed(seq!['+'], max) is None,
        0 < k < digits.len() && !is_digit(digits[k]) ==> parsed(digits, max) is None,
        digits.len() > 0 && all_digits(digits) ==> {
            &&& parsed(seq!['+'] + digits, max) == parsed(digits, max)
            &&& parsed(seq!['0'] + digits, max) == parsed(digits, max)
            &&& parsed(digits, max) is Some <==> digits_value(digits) <= max
        },
{
    assert(seq!['+'].drop_first() =~= Seq::<char>::empty());
    if 0 < k < digits.len() && !is_digit(digits[k]) {
        if digits[0] == '+' {
            assert(digits.drop_first()[k - 1] == digits[k]);
        }
    }
    if digits.len() > 0 && all_digits(digits) {
        assert(is_digit(digits[0]));
        assert((seq!['+'] + digits).drop_first() =~= digits);
        lemma_leading_zero(digits);
        let longer = seq!['0'] + digits;
        assert(all_digits(longer)) by {
            assert forall|i: int| 0 <= i < longer.len() implies is_digit(#[trigger] longer[i]) by {
                if i > 0 {
                    assert(longer[i] == digits[i - 1]);
                }
            }
        }
    }
}

proof fn lemma_leading_zero(digits: Seq<char>)
    ensures
        digits_value(seq!['0'] + digits) == digits_value(digits),
    decreases digits.len(),
{
    let longer = seq!['0'] + digits;
    if digits.len() == 0 {
        assert(longer =~= seq!['0']);
        assert(longer.drop_last() =~= Seq::<char>::empty());
        reveal_with_fuel(digits_value, 2);
    } else {
        lemma_leading_zero(digits.drop_last());
        assert(longer.drop_last() =~= seq!['0'] + digits.drop_last());
        assert(longer.last() == digits.last());
    }
}

/// Lower case changes the letters A to Z alone, each to its small one, so that
/// lower case of lower case is the same again.
pub proof fn lower_case_changes_capital_letters_alone(s: Seq<char>, i: int)
    requires
        0 <= i < s.len(),
    ensures
        lower(s).len() == s.len(),
        'A' <= s[i] <= 'Z' ==> lower(s)[i] as u32 == s[i] as u32 + 32,
        !('A' <= s[i] <= 'Z') ==> lower(s)[i] == s[i],
        lower(lower(s)) == lower(s),
{
    assert(lower(lower(s)) =~= lower(s));
}

/// Blanks, tabs and the ends of lines are white space, and no visible ASCII
/// character is.
pub proof fn visible_characters_are_no_white_space(c: char)
    ensures
        is_space(' ') && is_space('\t') && is_space('\n') && is_space('\r'),
        33 <= c as u32 <= 126 ==> !is_space(c),
{
}

/// White space before or behind a text makes no difference to what is left of
/// it once it was trimmed, and trimming twice is trimming once.
pub proof fn white_space_around_makes_no_difference(s: Seq<char>, c: char)
    requires
        is_space(c),
    ensures
        trimmed(seq![c] + s) == trimmed(s),
        trimmed(s.push(c)) == trimmed(s),
        trimmed(trimmed(s)) == trimmed(s),
{
    assert((seq![c] + s).drop_first() =~= s);
    assert((seq![c] + s)[0] == c);
    lemma_trimmed_start_before_space(s, c);
    assert(trimmed_start(s).push(c).drop_last() =~= trimmed_start(s));
    trimming_takes_off_white_space_alone(s);
    if trimmed_start(s).len() == 0 {
        assert(trimmed_start(s) =~= Seq::<char>::empty());
    }
}

proof fn lemma_trimmed_start_before_space(s: Seq<char>, c: char)
    requires
        is_space(c),
    ensures
        trimmed_start(s).len() > 0 ==> trimmed_start(s.push(c)) == trimmed_start(s).push(c),
        trimmed_start(s).len() == 0 ==> trimmed_start(s.push(c)).len() == 0,
    decreases s.len(),
{
    let longer = s.push(c);
    if s.len() == 0 {
        assert(longer.drop_first() =~= Seq::<char>::empty());
        reveal_with_fuel(trimmed_start, 2);
    } else if is_space(s[0]) {
        lemma_trimmed_start_before_space(s.drop_first(), c);
        assert(longer.drop_first() =~= s.drop_first().push(c));
        assert(longer[0] == s[0]);
    } else {
        assert(longer[0] == s[0]);
    }
}

} // verus!
