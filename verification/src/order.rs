//! Stable sorting of values that are ranked by a total preorder.

use vstd::prelude::*;

use crate::text;

verus! {

/// A type whose values are ranked, by a preorder on what they stand for.
pub trait Ranked: DeepView + Sized {
    /// Whether `a` may stand before `b`.
    spec fn ranks(a: Self::V, b: Self::V) -> bool;

    /// Any two values are ranked one way or the other.
    proof fn ranks_total(a: Self::V, b: Self::V)
        ensures
            Self::ranks(a, b) || Self::ranks(b, a),
    ;

    /// The ranking is transitive.
    proof fn ranks_transitive(a: Self::V, b: Self::V, c: Self::V)
        requires
            Self::ranks(a, b),
            Self::ranks(b, c),
        ensures
            Self::ranks(a, c),
    ;

    /// Compares two values.
    fn may_precede(&self, other: &Self) -> (r: bool)
        ensures
            r == Self::ranks(self.deep_view(), other.deep_view()),
    ;
}

/// `s` with `x` inserted behind everything that may stand before it.
pub open spec fn inserted<T: Ranked>(s: Seq<T::V>, x: T::V) -> Seq<T::V>
    decreases s.len(),
{
    if s.len() == 0 || T::ranks(s.last(), x) {
        s.push(x)
    } else {
        inserted::<T>(s.drop_last(), x).push(s.last())
    }
}

/// `s` in rank order, equally ranked values in the order they had.
pub open spec fn sorted<T: Ranked>(s: Seq<T::V>) -> Seq<T::V>
    decreases s.len(),
{
    if s.len() == 0 {
        s
    } else {
        inserted::<T>(sorted::<T>(s.drop_last()), s.last())
    }
}

/// Whether `s` is in rank order.
pub open spec fn in_order<T: Ranked>(s: Seq<T::V>) -> bool {
    forall|i: int, j: int| 0 <= i < j < s.len() ==> T::ranks(#[trigger] s[i], #[trigger] s[j])
}

proof fn lemma_inserted_at<T: Ranked>(s: Seq<T::V>, x: T::V, at: int)
    requires
        0 <= at <= s.len(),
        forall|k: int| at <= k < s.len() ==> !T::ranks(#[trigger] s[k], x),
        at == 0 || T::ranks(s[at - 1], x),
    ensures
        inserted::<T>(s, x) == s.insert(at, x),
    decreases s.len(),
{
    if at == s.len() {
        assert(s.insert(at, x) =~= s.push(x));
    } else {
        lemma_inserted_at::<T>(s.drop_last(), x, at);
        assert(s.insert(at, x) =~= s.drop_last().insert(at, x).push(s.last()));
    }
}

/// Sorts by rank, keeping equally ranked values in the order they had.
pub fn sort<T: Ranked>(items: Vec<T>) -> (r: Vec<T>)
    ensures
        r.deep_view() == sorted::<T>(items.deep_view()),
{
    let ghost whole = items.deep_view();
    let mut rest = items;
    let mut out: Vec<T> = Vec::new();
    let ghost mut done: int = 0;
    assert(whole.take(0) =~= Seq::<T::V>::empty());
    assert(out.deep_view() =~= Seq::<T::V>::empty());
    assert(rest.deep_view() =~= whole.skip(0));
    while rest.len() > 0
        invariant
            0 <= done <= whole.len(),
            rest@.len() == whole.len() - done,
            rest.deep_view() == whole.skip(done),
            out.deep_view() == sorted::<T>(whole.take(done)),
        decreases rest@.len(),
    {
        let ghost placed = out.deep_view();
        let ghost before = rest.deep_view();
        let ghost held = rest@;
        let x = rest.remove(0);
        proof {
            assert(before[0] == whole[done]);
            assert(x.deep_view() == before[0]);
            assert forall|k: int| 0 <= k < rest@.len() implies rest.deep_view()[k] == whole.skip(
                done + 1,
            )[k] by {
                assert(rest@[k] == held[k + 1]);
                assert(before[k + 1] == held[k + 1].deep_view());
                assert(before[k + 1] == whole.skip(done)[k + 1]);
            }
            assert(rest.deep_view() =~= whole.skip(done + 1));
            assert(whole.take(done + 1).drop_last() =~= whole.take(done));
            assert(whole.take(done + 1).last() == whole[done]);
        }
        let mut at: usize = out.len();
        while at > 0 && !out[at - 1].may_precede(&x)
            invariant
                at <= out@.len(),
                out.deep_view() == placed,
                forall|k: int| at <= k < placed.len() ==> !T::ranks(#[trigger] placed[k], x.deep_view()),
            decreases at,
        {
            assert(placed[at - 1] == out@[at - 1].deep_view());
            at -= 1;
        }
        proof {
            if at > 0 {
                assert(placed[at - 1] == out@[at - 1].deep_view());
            }
            lemma_inserted_at::<T>(placed, x.deep_view(), at as int);
        }
        out.insert(at, x);
        assert(out.deep_view() =~= placed.insert(at as int, whole[done]));
        proof {
            done = done + 1;
        }
    }
    assert(whole.take(done) =~= whole);
    out
}

proof fn lemma_inserted_keeps_order<T: Ranked>(s: Seq<T::V>, x: T::V)
    requires
        in_order::<T>(s),
    ensures
        in_order::<T>(inserted::<T>(s, x)),
        inserted::<T>(s, x).to_multiset() =~= s.to_multiset().insert(x),
        inserted::<T>(s, x).len() == s.len() + 1,
    decreases s.len(),
{
    broadcast use vstd::seq_lib::group_to_multiset_ensures;

    let r = inserted::<T>(s, x);
    if s.len() == 0 {
    } else if T::ranks(s.last(), x) {
        assert forall|i: int, j: int| 0 <= i < j < r.len() implies T::ranks(
            #[trigger] r[i],
            #[trigger] r[j],
        ) by {
            if j == s.len() && i < s.len() - 1 {
                T::ranks_transitive(s[i], s.last(), x);
            }
        }
    } else {
        let head = s.drop_last();
        lemma_inserted_keeps_order::<T>(head, x);
        let h = inserted::<T>(head, x);
        T::ranks_total(s.last(), x);
        assert(s =~= head.push(s.last()));
        assert forall|i: int| 0 <= i < h.len() implies T::ranks(#[trigger] h[i], s.last()) by {
            assert(h.to_multiset().count(h[i]) > 0) by {
                assert(h.contains(h[i]));
            }
            if h[i] != x {
                assert(head.to_multiset().count(h[i]) > 0);
                assert(head.contains(h[i]));
                let k = choose|k: int| 0 <= k < head.len() && head[k] == h[i];
                assert(T::ranks(s[k], s[s.len() - 1]));
            }
        }
        assert forall|i: int, j: int| 0 <= i < j < r.len() implies T::ranks(
            #[trigger] r[i],
            #[trigger] r[j],
        ) by {
            if j == h.len() {
                assert(r[i] == h[i]);
            } else {
                assert(r[i] == h[i] && r[j] == h[j]);
            }
        }
    }
}

/// Sorting yields a rearrangement of the values that is in rank order.
pub proof fn sorted_is_ordered_rearrangement<T: Ranked>(s: Seq<T::V>)
    ensures
        in_order::<T>(sorted::<T>(s)),
        sorted::<T>(s).to_multiset() =~= s.to_multiset(),
        sorted::<T>(s).len() == s.len(),
    decreases s.len(),
{
    broadcast use vstd::seq_lib::group_to_multiset_ensures;

    if s.len() > 0 {
        sorted_is_ordered_rearrangement::<T>(s.drop_last());
        lemma_inserted_keeps_order::<T>(sorted::<T>(s.drop_last()), s.last());
        assert(s =~= s.drop_last().push(s.last()));
    }
}

/// A ranking that tells different values apart.
pub trait Ordered: Ranked {
    /// Only equal values are ranked both ways.
    proof fn ranks_antisymmetric(a: Self::V, b: Self::V)
        requires
            Self::ranks(a, b),
            Self::ranks(b, a),
        ensures
            a == b,
    ;
}

impl Ranked for String {
    open spec fn ranks(a: Seq<char>, b: Seq<char>) -> bool {
        text::text_le(a, b)
    }

    proof fn ranks_total(a: Seq<char>, b: Seq<char>) {
        text::text_le_total(a, b);
    }

    proof fn ranks_transitive(a: Seq<char>, b: Seq<char>, c: Seq<char>) {
        text::text_le_transitive(a, b, c);
    }

    fn may_precede(&self, other: &Self) -> (r: bool) {
        text::at_most(self.as_str(), other.as_str())
    }
}

impl Ordered for String {
    proof fn ranks_antisymmetric(a: Seq<char>, b: Seq<char>) {
        text::text_le_antisymmetric(a, b);
    }
}

proof fn lemma_ordered_sequences_agree<T: Ordered>(a: Seq<T::V>, b: Seq<T::V>)
    requires
        in_order::<T>(a),
        in_order::<T>(b),
        a.to_multiset() == b.to_multiset(),
    ensures
        a == b,
    decreases a.len(),
{
    broadcast use vstd::seq_lib::group_to_multiset_ensures;

    assert(a.len() == b.len()) by {
        assert(a.to_multiset().len() == a.len());
        assert(b.to_multiset().len() == b.len());
    }
    if a.len() == 0 {
        assert(a =~= b);
    } else {
        let x = a.last();
        let y = b.last();
        assert(a.contains(x));
        assert(b.contains(y));
        assert(a.to_multiset().count(x) > 0);
        assert(b.to_multiset().count(y) > 0);
        assert(b.contains(x));
        assert(a.contains(y));
        let i = choose|i: int| 0 <= i < b.len() && b[i] == x;
        let j = choose|j: int| 0 <= j < a.len() && a[j] == y;
        if i < b.len() - 1 && j < a.len() - 1 {
            assert(T::ranks(b[i], b[b.len() - 1]));
            assert(T::ranks(a[j], a[a.len() - 1]));
            T::ranks_antisymmetric(x, y);
        }
        assert(x == y);
        assert(a =~= a.drop_last().push(x));
        assert(b =~= b.drop_last().push(y));
        assert(a.drop_last().to_multiset() =~= a.to_multiset().remove(x));
        assert(b.drop_last().to_multiset() =~= b.to_multiset().remove(y));
        assert(in_order::<T>(a.drop_last()));
        assert(in_order::<T>(b.drop_last()));
        lemma_ordered_sequences_agree::<T>(a.drop_last(), b.drop_last());
    }
}

/// The order that values come in makes no difference to how they are sorted.
pub proof fn sorting_forgets_the_order<T: Ordered>(a: Seq<T::V>, b: Seq<T::V>)
    requires
        a.to_multiset() == b.to_multiset(),
    ensures
        sorted::<T>(a) == sorted::<T>(b),
{
    sorted_is_ordered_rearrangement::<T>(a);
    sorted_is_ordered_rearrangement::<T>(b);
    lemma_ordered_sequences_agree::<T>(sorted::<T>(a), sorted::<T>(b));
}

/// `s` without the values that equal the one before them.
pub open spec fn deduped<V>(s: Seq<V>) -> Seq<V>
    decreases s.len(),
{
    if s.len() == 0 {
        s
    } else if s.len() > 1 && s[s.len() - 2] == s.last() {
        deduped(s.drop_last())
    } else {
        deduped(s.drop_last()).push(s.last())
    }
}

proof fn lemma_deduped_last<V>(s: Seq<V>)
    requires
        s.len() > 0,
    ensures
        deduped(s).len() > 0,
        deduped(s).last() == s.last(),
    decreases s.len(),
{
    if s.len() > 1 && s[s.len() - 2] == s.last() {
        lemma_deduped_last(s.drop_last());
    }
}

/// Drops every value that equals the one before it.
pub fn dedup<T: Ordered>(items: Vec<T>) -> (r: Vec<T>)
    ensures
        r.deep_view() == deduped(items.deep_view()),
{
    let ghost whole = items.deep_view();
    let mut rest = items;
    let mut out: Vec<T> = Vec::new();
    let ghost mut done: int = 0;
    assert(whole.take(0) =~= Seq::<T::V>::empty());
    assert(out.deep_view() =~= Seq::<T::V>::empty());
    assert(rest.deep_view() =~= whole.skip(0));
    while rest.len() > 0
        invariant
            0 <= done <= whole.len(),
            rest@.len() == whole.len() - done,
            rest.deep_view() == whole.skip(done),
            out.deep_view() == deduped(whole.take(done)),
        decreases rest@.len(),
    {
        let ghost held = rest@;
        let ghost before = rest.deep_view();
        let ghost kept = out.deep_view();
        let x = rest.remove(0);
        let ghost longer = whole.take(done + 1);
        proof {
            assert(before[0] == held[0].deep_view());
            assert(before[0] == whole[done]);
            assert forall|k: int| 0 <= k < rest@.len() implies rest.deep_view()[k] == whole.skip(
                done + 1,
            )[k] by {
                assert(rest@[k] == held[k + 1]);
                assert(before[k + 1] == held[k + 1].deep_view());
                assert(before[k + 1] == whole.skip(done)[k + 1]);
            }
            assert(rest.deep_view() =~= whole.skip(done + 1));
            assert(longer.drop_last() =~= whole.take(done));
            if done > 0 {
                lemma_deduped_last(whole.take(done));
                assert(longer[longer.len() - 2] == whole.take(done).last());
            }
        }
        let repeated = if out.len() > 0 {
            let last: usize = out.len() - 1;
            let both = out[last].may_precede(&x) && x.may_precede(&out[last]);
            proof {
                assert(kept.last() == out@[last as int].deep_view());
                if both {
                    T::ranks_antisymmetric(kept.last(), x.deep_view());
                } else if kept.last() == x.deep_view() {
                    T::ranks_total(kept.last(), x.deep_view());
                }
            }
            both
        } else {
            false
        };
        proof {
            assert(kept.len() == out@.len());
            if done > 0 {
                assert(kept.len() > 0);
            }
        }
        if !repeated {
            out.push(x);
            assert(out.deep_view() =~= kept.push(whole[done]));
        }
        proof {
            done = done + 1;
        }
    }
    assert(whole.take(done) =~= whole);
    out
}

/// A sorted list without repetitions ascends strictly, and holds what the
/// list held.
pub proof fn sorted_and_deduped_ascends<T: Ordered>(s: Seq<T::V>)
    requires
        in_order::<T>(s),
    ensures
        in_order::<T>(deduped(s)),
        deduped(s).no_duplicates(),
        forall|v: T::V| #[trigger] deduped(s).contains(v) <==> s.contains(v),
    decreases s.len(),
{
    let d = deduped(s);
    if s.len() > 0 {
        let head = s.drop_last();
        let h = deduped(head);
        assert(in_order::<T>(head));
        sorted_and_deduped_ascends::<T>(head);
        let last = s.last();
        assert forall|i: int| 0 <= i < h.len() implies T::ranks(#[trigger] h[i], last) by {
            assert(h.contains(h[i]));
            assert(head.contains(h[i]));
            let k = choose|k: int| 0 <= k < head.len() && head[k] == h[i];
            assert(T::ranks(s[k], s[s.len() - 1]));
        }
        assert forall|v: T::V| #[trigger] d.contains(v) <==> s.contains(v) by {
            if d.contains(v) {
                let k = choose|k: int| 0 <= k < d.len() && d[k] == v;
                if k < h.len() {
                    assert(h[k] == v);
                    assert(h.contains(v));
                    assert(head.contains(v));
                    let m = choose|m: int| 0 <= m < head.len() && head[m] == v;
                    assert(s[m] == v);
                } else {
                    assert(s[s.len() - 1] == v);
                }
            }
            if s.contains(v) {
                let m = choose|m: int| 0 <= m < s.len() && s[m] == v;
                if m < head.len() {
                    assert(head[m] == v);
                    assert(head.contains(v));
                    assert(h.contains(v));
                    let k = choose|k: int| 0 <= k < h.len() && h[k] == v;
                    assert(d[k] == v);
                } else if s.len() > 1 && s[s.len() - 2] == last {
                    assert(head[head.len() - 1] == v);
                    assert(head.contains(v));
                    assert(h.contains(v));
                } else {
                    assert(d[h.len() as int] == v);
                }
            }
        }
        if !(s.len() > 1 && s[s.len() - 2] == last) {
            assert forall|i: int| 0 <= i < h.len() implies h[i] != last by {
                if h[i] == last {
                    assert(h.contains(last));
                    assert(head.contains(last));
                    let k = choose|k: int| 0 <= k < head.len() && head[k] == last;
                    let p = s[s.len() - 2];
                    if k < s.len() - 2 {
                        assert(T::ranks(s[k], s[s.len() - 2]));
                    }
                    assert(T::ranks(s[s.len() - 2], s[s.len() - 1]));
                    if k < s.len() - 2 {
                        T::ranks_antisymmetric(p, last);
                    }
                }
            }
            assert forall|i: int, j: int| 0 <= i < j < d.len() implies T::ranks(
                #[trigger] d[i],
                #[trigger] d[j],
            ) by {
                assert(d[i] == h[i]);
                if j < h.len() {
                    assert(d[j] == h[j]);
                }
            }
            assert(d.no_duplicates());
        }
    }
}

/// Rearranged values are the same values.
pub proof fn lemma_same_multiset_same_members<V>(a: Seq<V>, b: Seq<V>, v: V)
    requires
        a.to_multiset() == b.to_multiset(),
    ensures
        a.contains(v) <==> b.contains(v),
{
    broadcast use vstd::seq_lib::group_to_multiset_ensures;

    assert(a.contains(v) <==> a.to_multiset().count(v) > 0);
    assert(b.contains(v) <==> b.to_multiset().count(v) > 0);
}

/// Mapping rearranged values gives rearranged results.
pub proof fn lemma_mapped_multisets_agree<A, B>(a: Seq<A>, b: Seq<A>, f: spec_fn(A) -> B)
    requires
        a.to_multiset() == b.to_multiset(),
    ensures
        a.map_values(f).to_multiset() == b.map_values(f).to_multiset(),
    decreases a.len(),
{
    broadcast use vstd::seq_lib::group_to_multiset_ensures;

    assert(a.to_multiset().len() == a.len());
    assert(b.to_multiset().len() == b.len());
    if a.len() == 0 {
        assert(a =~= b);
    } else {
        let x = a.last();
        let head = a.drop_last();
        assert(a =~= head.push(x));
        assert(a.contains(x));
        lemma_same_multiset_same_members(a, b, x);
        let i = choose|i: int| 0 <= i < b.len() && b[i] == x;
        let rest = b.remove(i);
        assert(b =~= rest.insert(i, x));
        assert(rest.to_multiset() =~= b.to_multiset().remove(x));
        assert(head.to_multiset() =~= a.to_multiset().remove(x));
        lemma_mapped_multisets_agree(head, rest, f);
        assert(a.map_values(f) =~= head.map_values(f).push(f(x)));
        assert(b.map_values(f) =~= rest.map_values(f).insert(i, f(x)));
        assert(rest.map_values(f) =~= b.map_values(f).remove(i));
        assert(b.map_values(f).to_multiset() =~= rest.map_values(f).to_multiset().insert(f(x)));
    }
}

/// The values of `s` that rank with `x`, in order.
pub open spec fn ranked_with<T: Ranked>(s: Seq<T::V>, x: T::V) -> Seq<T::V>
    decreases s.len(),
{
    if s.len() == 0 {
        s
    } else if T::ranks(s.last(), x) && T::ranks(x, s.last()) {
        ranked_with::<T>(s.drop_last(), x).push(s.last())
    } else {
        ranked_with::<T>(s.drop_last(), x)
    }
}

proof fn lemma_inserted_is_stable<T: Ranked>(s: Seq<T::V>, v: T::V, x: T::V)
    ensures
        ranked_with::<T>(inserted::<T>(s, v), x) == if T::ranks(v, x) && T::ranks(x, v) {
            ranked_with::<T>(s, x).push(v)
        } else {
            ranked_with::<T>(s, x)
        },
    decreases s.len(),
{
    if s.len() == 0 || T::ranks(s.last(), v) {
        assert(s.push(v).drop_last() =~= s);
    } else {
        let init = s.drop_last();
        let rest = inserted::<T>(init, v);
        lemma_inserted_is_stable::<T>(init, v, x);
        assert(rest.push(s.last()).drop_last() =~= rest);
        if T::ranks(v, x) && T::ranks(x, v) && T::ranks(s.last(), x) && T::ranks(x, s.last()) {
            T::ranks_transitive(s.last(), x, v);
        }
    }
}

/// Sorting keeps values of one rank in the order they had.
pub proof fn sorting_keeps_equals_in_order<T: Ranked>(s: Seq<T::V>, x: T::V)
    ensures
        ranked_with::<T>(sorted::<T>(s), x) == ranked_with::<T>(s, x),
    decreases s.len(),
{
    if s.len() > 0 {
        sorting_keeps_equals_in_order::<T>(s.drop_last(), x);
        lemma_inserted_is_stable::<T>(sorted::<T>(s.drop_last()), s.last(), x);
    }
}

} // verus!
