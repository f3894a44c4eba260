//! An ordered table from text keys to values.

use vstd::prelude::*;

use crate::replica::Replica;
use crate::text;

verus! {

/// Whether `a` comes strictly before `b`.
pub open spec fn key_lt(a: Seq<char>, b: Seq<char>) -> bool {
    text::text_le(a, b) && a != b
}

/// Coming strictly before is transitive.
pub proof fn lemma_key_lt_transitive(a: Seq<char>, b: Seq<char>, c: Seq<char>)
    requires
        key_lt(a, b),
        key_lt(b, c),
    ensures
        key_lt(a, c),
{
    text::text_le_transitive(a, b, c);
    if a == c {
        text::text_le_antisymmetric(a, b);
    }
}

/// A map with text keys that is walked in key order.
pub struct Table<T> {
    entries: Vec<(String, T)>,
}

/// Whether the keys of `entries` ascend strictly.
spec fn ascending<T>(entries: Seq<(String, T)>) -> bool {
    forall|i: int, j: int|
        0 <= i < j < entries.len() ==> key_lt(#[trigger] entries[i].0@, #[trigger] entries[j].0@)
}

/// Whether `entries` holds `key`.
spec fn holds<T>(entries: Seq<(String, T)>, key: Seq<char>) -> bool {
    exists|i: int| 0 <= i < entries.len() && #[trigger] entries[i].0@ == key
}

/// Where `entries` holds `key`.
spec fn slot<T>(entries: Seq<(String, T)>, key: Seq<char>) -> int {
    choose|i: int| 0 <= i < entries.len() && #[trigger] entries[i].0@ == key
}

spec fn contents<T: DeepView>(entries: Seq<(String, T)>) -> Map<Seq<char>, T::V> {
    Map::new(
        |key: Seq<char>| holds(entries, key),
        |key: Seq<char>| entries[slot(entries, key)].1.deep_view(),
    )
}

impl<T> Table<T> {
    #[verifier::type_invariant]
    spec fn well_formed(self) -> bool {
        ascending(self.entries@)
    }

    /// The keys, in ascending order.
    pub closed spec fn keys(self) -> Seq<Seq<char>> {
        Seq::new(self.entries@.len(), |i: int| self.entries@[i].0@)
    }
}

impl<T: DeepView> View for Table<T> {
    type V = Map<Seq<char>, T::V>;

    closed spec fn view(&self) -> Map<Seq<char>, T::V> {
        contents(self.entries@)
    }
}

impl<T: DeepView> DeepView for Table<T> {
    type V = Map<Seq<char>, T::V>;

    open spec fn deep_view(&self) -> Map<Seq<char>, T::V> {
        self@
    }
}

proof fn lemma_slot<T: DeepView>(entries: Seq<(String, T)>, i: int)
    requires
        ascending(entries),
        0 <= i < entries.len(),
    ensures
        holds(entries, entries[i].0@),
        slot(entries, entries[i].0@) == i,
        contents(entries).contains_key(entries[i].0@),
        contents(entries)[entries[i].0@] == entries[i].1.deep_view(),
{
    let j = slot(entries, entries[i].0@);
    assert(0 <= j < entries.len() && entries[j].0@ == entries[i].0@);
    if j < i {
        assert(key_lt(entries[j].0@, entries[i].0@));
    }
    if i < j {
        assert(key_lt(entries[i].0@, entries[j].0@));
    }
}

impl<T: DeepView> Table<T> {
    /// An empty table.
    pub fn new() -> (r: Self)
        ensures
            r@ == Map::<Seq<char>, T::V>::empty(),
    {
        let r = Table { entries: Vec::new() };
        assert(r@ =~= Map::<Seq<char>, T::V>::empty());
        r
    }

    /// How many keys the table has. The keys are exactly the map's, each once,
    /// in ascending order.
    pub fn len(&self) -> (r: usize)
        ensures
            r == self.keys().len(),
            forall|i: int, j: int|
                0 <= i < j < self.keys().len() ==> key_lt(
                    #[trigger] self.keys()[i],
                    #[trigger] self.keys()[j],
                ),
            forall|k: Seq<char>| #[trigger] self@.contains_key(k) <==> self.keys().contains(k),
    {
        proof {
            use_type_invariant(self);
            assert forall|k: Seq<char>| #[trigger]
                self@.contains_key(k) implies self.keys().contains(k) by {
                let i = slot(self.entries@, k);
                assert(self.keys()[i] == k);
            }
            assert forall|k: Seq<char>| self.keys().contains(
                k,
            ) implies #[trigger] self@.contains_key(k) by {
                let i = choose|i: int| 0 <= i < self.keys().len() && self.keys()[i] == k;
                assert(self.entries@[i].0@ == k);
            }
        }
        self.entries.len()
    }

    /// The entry with the `i`-th smallest key.
    pub fn entry(&self, i: usize) -> (r: (&String, &T))
        requires
            i < self.keys().len(),
        ensures
            r.0@ == self.keys()[i as int],
            self@.contains_key(r.0@),
            r.1.deep_view() == self@[r.0@],
    {
        proof {
            use_type_invariant(self);
            lemma_slot(self.entries@, i as int);
        }
        (&self.entries[i].0, &self.entries[i].1)
    }

    /// Where `key` is, or where it would go.
    fn seek(&self, key: &str) -> (r: usize)
        ensures
            r <= self.entries@.len(),
            forall|k: int| 0 <= k < r ==> key_lt(#[trigger] self.entries@[k].0@, key@),
            r < self.entries@.len() ==> text::text_le(key@, self.entries@[r as int].0@),
    {
        let mut i: usize = 0;
        while i < self.entries.len()
            invariant
                i <= self.entries@.len(),
                forall|k: int| 0 <= k < i ==> key_lt(#[trigger] self.entries@[k].0@, key@),
            decreases self.entries@.len() - i,
        {
            if text::at_most(key, self.entries[i].0.as_str()) {
                return i;
            }
            proof {
                text::text_le_total(key@, self.entries@[i as int].0@);
                text::text_le_reflexive(key@);
            }
            i += 1;
        }
        i
    }

    /// Where `key` is, if the table has it.
    fn position(&self, key: &str) -> (r: Option<usize>)
        ensures
            r.is_some() == self@.contains_key(key@),
            r matches Some(i) ==> i < self.entries@.len() && self.entries@[i as int].0@ == key@
                && self.entries@[i as int].1.deep_view() == self@[key@],
    {
        let i: usize = self.seek(key);
        proof {
            use_type_invariant(self);
        }
        if i < self.entries.len() && text::same(self.entries[i].0.as_str(), key) {
            proof {
                lemma_slot(self.entries@, i as int);
            }
            Some(i)
        } else {
            proof {
                if holds(self.entries@, key@) {
                    let j = slot(self.entries@, key@);
                    if i < j {
                        assert(key_lt(self.entries@[i as int].0@, self.entries@[j].0@));
                        text::text_le_antisymmetric(key@, self.entries@[i as int].0@);
                    }
                }
            }
            None
        }
    }

    /// The value of `key`.
    pub fn get(&self, key: &str) -> (r: Option<&T>)
        ensures
            r.is_some() == self@.contains_key(key@),
            r matches Some(v) ==> v.deep_view() == self@[key@],
    {
        match self.position(key) {
            Some(i) => Some(&self.entries[i].1),
            None => None,
        }
    }

    /// Whether the table has `key`.
    pub fn contains_key(&self, key: &str) -> (r: bool)
        ensures
            r == self@.contains_key(key@),
    {
        self.position(key).is_some()
    }

    /// Gives `key` the value `value`, replacing the one it had.
    pub fn insert(&mut self, key: String, value: T)
        ensures
            final(self)@ == old(self)@.insert(key@, value.deep_view()),
    {
        let known = self.position(key.as_str());
        let at: usize = self.seek(key.as_str());
        proof {
            use_type_invariant(&*self);
        }
        let mut entries: Vec<(String, T)> = Vec::new();
        std::mem::swap(&mut entries, &mut self.entries);
        let ghost before = entries@;
        let ghost k = key@;
        let ghost v = value.deep_view();
        match known {
            Some(i) => {
                entries.set(i, (key, value));
                proof {
                    assert(entries@.len() == before.len());
                    assert forall|a: int| 0 <= a < before.len() implies entries@[a].0@
                        == before[a].0@ by {}
                    assert(ascending(entries@));
                    lemma_replaced(before, entries@, i as int);
                }
            },
            None => {
                proof {
                    assert(!contents(before).contains_key(k));
                }
                entries.insert(at, (key, value));
                proof {
                    lemma_extended(before, entries@, at as int);
                }
            },
        }
        self.entries = entries;
        assert(self@ == contents(entries@));
    }

    /// Drops `key`, if the table has it.
    pub fn remove(&mut self, key: &str)
        ensures
            final(self)@ == old(self)@.remove(key@),
    {
        let known = self.position(key);
        proof {
            use_type_invariant(&*self);
        }
        match known {
            Some(i) => {
                let mut entries: Vec<(String, T)> = Vec::new();
                std::mem::swap(&mut entries, &mut self.entries);
                let ghost before = entries@;
                entries.remove(i);
                proof {
                    lemma_shortened(before, entries@, i as int);
                }
                self.entries = entries;
            },
            None => {
                assert(self@.remove(key@) =~= self@);
            },
        }
    }
}

impl<T: Replica> Replica for Table<T> {
    fn replica(&self) -> (r: Self) {
        proof {
            use_type_invariant(self);
        }
        let entries = self.entries.replica();
        proof {
            let old_entries = self.entries@;
            let new_entries = entries@;
            assert(new_entries.len() == entries.deep_view().len());
            assert(old_entries.len() == self.entries.deep_view().len());
            assert forall|i: int| 0 <= i < old_entries.len() implies {
                &&& (#[trigger] new_entries[i]).0@ == old_entries[i].0@
                &&& new_entries[i].1.deep_view() == old_entries[i].1.deep_view()
            } by {
                assert(entries.deep_view()[i] == new_entries[i].deep_view());
                assert(self.entries.deep_view()[i] == old_entries[i].deep_view());
            }
            lemma_same_contents(old_entries, new_entries);
        }
        Table { entries }
    }
}

proof fn lemma_same_contents<T: DeepView>(a: Seq<(String, T)>, b: Seq<(String, T)>)
    requires
        ascending(a),
        a.len() == b.len(),
        forall|i: int|
            0 <= i < a.len() ==> {
                &&& (#[trigger] b[i]).0@ == a[i].0@
                &&& b[i].1.deep_view() == a[i].1.deep_view()
            },
    ensures
        ascending(b),
        contents(a) == contents(b),
{
    assert forall|i: int, j: int| 0 <= i < j < b.len() implies key_lt(
        #[trigger] b[i].0@,
        #[trigger] b[j].0@,
    ) by {
        assert(key_lt(a[i].0@, a[j].0@));
    }
    assert forall|k: Seq<char>| contents(a).contains_key(k) == contents(b).contains_key(k) by {
        if contents(a).contains_key(k) {
            let i = slot(a, k);
            assert(b[i].0@ == k);
        }
        if contents(b).contains_key(k) {
            let i = slot(b, k);
            assert(a[i].0@ == k);
        }
    }
    assert forall|k: Seq<char>| contents(a).contains_key(k) implies contents(a)[k]
        == contents(b)[k] by {
        let i = slot(a, k);
        lemma_slot(a, i);
        assert(b[i].0@ == k);
        lemma_slot(b, i);
    }
    assert(contents(a) =~= contents(b));
}

proof fn lemma_replaced<T: DeepView>(before: Seq<(String, T)>, after: Seq<(String, T)>, i: int)
    requires
        ascending(before),
        ascending(after),
        0 <= i < before.len(),
        after == before.update(i, after[i]),
        after[i].0@ == before[i].0@,
    ensures
        contents(after) == contents(before).insert(after[i].0@, after[i].1.deep_view()),
{
    let goal = contents(before).insert(after[i].0@, after[i].1.deep_view());
    assert forall|k: Seq<char>| contents(after).contains_key(k) == goal.contains_key(k) by {
        lemma_slot(after, i);
        if contents(after).contains_key(k) {
            let a = slot(after, k);
            assert(before[a].0@ == k);
        }
        if contents(before).contains_key(k) {
            let a = slot(before, k);
            assert(after[a].0@ == k);
        }
    }
    assert forall|k: Seq<char>| contents(after).contains_key(k) implies contents(after)[k]
        == goal[k] by {
        let a = slot(after, k);
        lemma_slot(after, a);
        lemma_slot(before, a);
    }
    assert(contents(after) =~= goal);
}

proof fn lemma_extended<T: DeepView>(before: Seq<(String, T)>, after: Seq<(String, T)>, at: int)
    requires
        ascending(before),
        0 <= at <= before.len(),
        after == before.insert(at, after[at]),
        forall|k: int| 0 <= k < at ==> key_lt(#[trigger] before[k].0@, after[at].0@),
        at < before.len() ==> text::text_le(after[at].0@, before[at].0@),
        !contents(before).contains_key(after[at].0@),
    ensures
        ascending(after),
        contents(after) == contents(before).insert(after[at].0@, after[at].1.deep_view()),
{
    let key = after[at].0@;
    assert forall|i: int| 0 <= i < before.len() implies #[trigger] before[i].0@ != key by {
        lemma_slot(before, i);
    }
    assert forall|i: int, j: int| 0 <= i < j < after.len() implies key_lt(
        #[trigger] after[i].0@,
        #[trigger] after[j].0@,
    ) by {
        if i == at {
            assert(key_lt(key, before[at].0@));
            if j > at + 1 {
                assert(key_lt(before[at].0@, before[j - 1].0@));
                lemma_key_lt_transitive(key, before[at].0@, before[j - 1].0@);
            }
        } else if i < at {
            assert(after[i] == before[i]);
            if j > at {
                assert(after[j] == before[j - 1]);
            }
        } else {
            assert(after[i] == before[i - 1]);
            assert(after[j] == before[j - 1]);
        }
    }
    let goal = contents(before).insert(key, after[at].1.deep_view());
    lemma_slot(after, at);
    assert forall|k: Seq<char>| contents(after).contains_key(k) == goal.contains_key(k) by {
        if contents(after).contains_key(k) && k != key {
            let a = slot(after, k);
            let b = if a < at { a } else { a - 1 };
            assert(before[b].0@ == k);
        }
        if contents(before).contains_key(k) {
            let b = slot(before, k);
            let a = if b < at { b } else { b + 1 };
            assert(after[a].0@ == k);
        }
    }
    assert forall|k: Seq<char>| contents(after).contains_key(k) implies contents(after)[k]
        == goal[k] by {
        if k != key {
            let a = slot(after, k);
            let b = if a < at { a } else { a - 1 };
            assert(after[a] == before[b]);
            lemma_slot(before, b);
        }
    }
    assert(contents(after) =~= goal);
}

proof fn lemma_shortened<T: DeepView>(before: Seq<(String, T)>, after: Seq<(String, T)>, i: int)
    requires
        ascending(before),
        0 <= i < before.len(),
        after == before.remove(i),
    ensures
        ascending(after),
        contents(after) == contents(before).remove(before[i].0@),
{
    assert forall|a: int, b: int| 0 <= a < b < after.len() implies key_lt(
        #[trigger] after[a].0@,
        #[trigger] after[b].0@,
    ) by {
        let x = if a < i { a } else { a + 1 };
        let y = if b < i { b } else { b + 1 };
        assert(after[a] == before[x]);
        assert(after[b] == before[y]);
    }
    let goal = contents(before).remove(before[i].0@);
    assert forall|k: Seq<char>| contents(after).contains_key(k) == goal.contains_key(k) by {
        if contents(after).contains_key(k) {
            let a = slot(after, k);
            let x = if a < i { a } else { a + 1 };
            assert(after[a] == before[x]);
            assert(before[x].0@ == k);
            lemma_slot(before, x);
            lemma_slot(before, i);
        }
        if goal.contains_key(k) {
            let x = slot(before, k);
            lemma_slot(before, x);
            let a = if x < i { x } else { x - 1 };
            assert(after[a].0@ == k);
        }
    }
    assert forall|k: Seq<char>| contents(after).contains_key(k) implies contents(after)[k]
        == goal[k] by {
        let a = slot(after, k);
        let x = if a < i { a } else { a + 1 };
        assert(after[a] == before[x]);
        lemma_slot(before, x);
    }
    assert(contents(after) =~= goal);
}

} // verus!
