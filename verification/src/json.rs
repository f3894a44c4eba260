//! JSON documents.

use vstd::prelude::*;

use crate::replica::Replica;
use crate::table;
use crate::text;

verus! {

/// A JSON value. A number keeps its spelling, and an object the order of its
/// members.
#[derive(Debug, PartialEq, Eq)]
pub enum Json {
    Null,
    Bool(bool),
    Number(String),
    Text(String),
    Array(Vec<Json>),
    Object(Vec<(String, Json)>),
}

/// What a [`Json`] value stands for.
pub enum JsonView {
    Null,
    Bool(bool),
    Number(Seq<char>),
    Text(Seq<char>),
    Array(Seq<JsonView>),
    Object(Seq<(Seq<char>, JsonView)>),
}

/// What `json` stands for.
pub open spec fn json_view(json: Json) -> JsonView
    decreases json,
{
    match json {
        Json::Null => JsonView::Null,
        Json::Bool(b) => JsonView::Bool(b),
        Json::Number(n) => JsonView::Number(n@),
        Json::Text(t) => JsonView::Text(t@),
        Json::Array(items) => JsonView::Array(
            Seq::new(
                items@.len(),
                |i: int|
                    if 0 <= i < items@.len() {
                        json_view(items@[i])
                    } else {
                        JsonView::Null
                    },
            ),
        ),
        Json::Object(members) => JsonView::Object(
            Seq::new(
                members@.len(),
                |i: int|
                    if 0 <= i < members@.len() {
                        (members@[i].0@, json_view(members@[i].1))
                    } else {
                        (Seq::empty(), JsonView::Null)
                    },
            ),
        ),
    }
}

impl DeepView for Json {
    type V = JsonView;

    open spec fn deep_view(&self) -> JsonView {
        json_view(*self)
    }
}

/// An array stands for the list of what its items stand for.
pub proof fn lemma_array_view(items: Vec<Json>)
    ensures
        json_view(Json::Array(items)) == JsonView::Array(items.deep_view()),
{
    assert(json_view(Json::Array(items))->Array_0 =~= items.deep_view());
}

/// An object stands for the list of what its members stand for.
pub proof fn lemma_object_view(members: Vec<(String, Json)>)
    ensures
        json_view(Json::Object(members)) == JsonView::Object(members.deep_view()),
{
    assert(json_view(Json::Object(members))->Object_0 =~= members.deep_view());
}

impl Clone for Json {
    fn clone(&self) -> (r: Self)
        ensures
            r.deep_view() == self.deep_view(),
    {
        copy_json(self)
    }
}

impl Replica for Json {
    fn replica(&self) -> (r: Self) {
        copy_json(self)
    }
}

fn copy_json(json: &Json) -> (r: Json)
    ensures
        r.deep_view() == json.deep_view(),
    decreases *json,
{
    match json {
        Json::Null => Json::Null,
        Json::Bool(b) => Json::Bool(*b),
        Json::Number(n) => Json::Number(n.clone()),
        Json::Text(t) => Json::Text(t.clone()),
        Json::Array(items) => {
            let mut out: Vec<Json> = Vec::new();
            let mut i: usize = 0;
            while i < items.len()
                invariant
                    i <= items@.len(),
                    out@.len() == i,
                    *json == Json::Array(*items),
                    forall|k: int|
                        0 <= k < i ==> (#[trigger] out@[k]).deep_view() == items@[k].deep_view(),
                decreases items@.len() - i,
            {
                assert(decreases_to!(*json => json->Array_0));
                assert(decreases_to!(json->Array_0 => items@[i as int]));
                out.push(copy_json(&items[i]));
                i += 1;
            }
            proof {
                lemma_array_view(*items);
                lemma_array_view(out);
                assert(out.deep_view() =~= items.deep_view());
            }
            Json::Array(out)
        },
        Json::Object(members) => {
            let mut out: Vec<(String, Json)> = Vec::new();
            let mut i: usize = 0;
            while i < members.len()
                invariant
                    i <= members@.len(),
                    out@.len() == i,
                    *json == Json::Object(*members),
                    forall|k: int|
                        0 <= k < i ==> (#[trigger] out@[k]).deep_view() == members@[k].deep_view(),
                decreases members@.len() - i,
            {
                assert(decreases_to!(*json => json->Object_0));
                assert(decreases_to!(json->Object_0 => members@[i as int]));
                assert(decreases_to!(members@[i as int] => members@[i as int].1));
                let copy = copy_json(&members[i].1);
                out.push((members[i].0.clone(), copy));
                i += 1;
            }
            proof {
                lemma_object_view(*members);
                lemma_object_view(out);
                assert(out.deep_view() =~= members.deep_view());
            }
            Json::Object(out)
        },
    }
}

/// Where `members` first has `key`.
pub open spec fn member_index(members: Seq<(Seq<char>, JsonView)>, key: Seq<char>) -> Option<int>
    decreases members.len(),
{
    if members.len() == 0 {
        None
    } else if members[0].0 == key {
        Some(0)
    } else {
        match member_index(members.drop_first(), key) {
            Some(i) => Some(i + 1),
            None => None,
        }
    }
}

/// The value of `key` in `members`.
pub open spec fn member(members: Seq<(Seq<char>, JsonView)>, key: Seq<char>) -> Option<JsonView> {
    match member_index(members, key) {
        Some(i) => Some(members[i].1),
        None => None,
    }
}

/// `members` with `key` set to `value`: in place when the key is there, at
/// the end when it is new.
pub open spec fn with_member(
    members: Seq<(Seq<char>, JsonView)>,
    key: Seq<char>,
    value: JsonView,
) -> Seq<(Seq<char>, JsonView)> {
    match member_index(members, key) {
        Some(i) => members.update(i, (key, value)),
        None => members.push((key, value)),
    }
}

/// `base` with every member of `over` set in turn.
pub open spec fn with_members(
    base: Seq<(Seq<char>, JsonView)>,
    over: Seq<(Seq<char>, JsonView)>,
) -> Seq<(Seq<char>, JsonView)>
    decreases over.len(),
{
    if over.len() == 0 {
        base
    } else {
        with_member(with_members(base, over.drop_last()), over.last().0, over.last().1)
    }
}

/// The first member with a key is where the key is found.
pub proof fn lemma_member_index_at(members: Seq<(Seq<char>, JsonView)>, key: Seq<char>, i: int)
    requires
        0 <= i <= members.len(),
        forall|k: int| 0 <= k < i ==> (#[trigger] members[k]).0 != key,
        i < members.len() ==> members[i].0 == key,
    ensures
        member_index(members, key) == (if i < members.len() {
            Some(i)
        } else {
            None
        }),
    decreases i,
{
    if i > 0 {
        let rest = members.drop_first();
        assert(members[0].0 != key);
        assert forall|k: int| 0 <= k < i - 1 implies (#[trigger] rest[k]).0 != key by {
            assert(rest[k] == members[k + 1]);
        }
        lemma_member_index_at(rest, key, i - 1);
    }
}

/// A member that is found is in range and has the key.
pub proof fn lemma_member_index_bounds(members: Seq<(Seq<char>, JsonView)>, key: Seq<char>)
    ensures
        member_index(members, key) matches Some(i) ==> 0 <= i < members.len() && members[i].0
            == key,
    decreases members.len(),
{
    if members.len() > 0 && members[0].0 != key {
        lemma_member_index_bounds(members.drop_first(), key);
    }
}

/// Members with the same keys have each key at the same place.
pub proof fn lemma_same_keys_same_index(
    a: Seq<(Seq<char>, JsonView)>,
    b: Seq<(Seq<char>, JsonView)>,
    key: Seq<char>,
)
    requires
        a.len() == b.len(),
        forall|i: int| 0 <= i < a.len() ==> (#[trigger] b[i]).0 == a[i].0,
    ensures
        member_index(a, key) == member_index(b, key),
    decreases a.len(),
{
    if a.len() > 0 {
        assert(b[0].0 == a[0].0);
        let x = a.drop_first();
        let y = b.drop_first();
        assert forall|i: int| 0 <= i < x.len() implies (#[trigger] y[i]).0 == x[i].0 by {
            assert(b[i + 1].0 == a[i + 1].0);
        }
        lemma_same_keys_same_index(x, y, key);
    }
}

/// Finds the position of `key`.
pub fn find_member(members: &Vec<(String, Json)>, key: &str) -> (r: Option<usize>)
    ensures
        r.is_some() == member_index(members.deep_view(), key@).is_some(),
        r matches Some(i) ==> i < members@.len() && member_index(members.deep_view(), key@) == Some(
            i as int,
        ),
{
    let mut i: usize = 0;
    while i < members.len()
        invariant
            i <= members@.len(),
            forall|k: int| 0 <= k < i ==> (#[trigger] members.deep_view()[k]).0 != key@,
        decreases members@.len() - i,
    {
        if text::same(members[i].0.as_str(), key) {
            proof {
                lemma_member_index_at(members.deep_view(), key@, i as int);
            }
            return Some(i);
        }
        i += 1;
    }
    proof {
        lemma_member_index_at(members.deep_view(), key@, i as int);
    }
    None
}

/// The value of `key`, if `members` has it.
pub fn get_member<'a>(members: &'a Vec<(String, Json)>, key: &str) -> (r: Option<&'a Json>)
    ensures
        r.is_some() == member(members.deep_view(), key@).is_some(),
        r matches Some(v) ==> member(members.deep_view(), key@) == Some(v.deep_view()),
{
    match find_member(members, key) {
        Some(i) => Some(&members[i].1),
        None => None,
    }
}

/// Sets `key` to `value`.
pub fn set_member(members: &mut Vec<(String, Json)>, key: String, value: Json)
    ensures
        final(members).deep_view() == with_member(
            old(members).deep_view(),
            key@,
            value.deep_view(),
        ),
{
    let ghost before = members.deep_view();
    let ghost pair = (key@, value.deep_view());
    match find_member(members, key.as_str()) {
        Some(i) => {
            members.set(i, (key, value));
            assert(members.deep_view() =~= before.update(i as int, pair));
        },
        None => {
            members.push((key, value));
            assert(members.deep_view() =~= before.push(pair));
        },
    }
}

/// Sets every member of `over` in `base`.
pub fn merge_members(base: &mut Vec<(String, Json)>, over: &Vec<(String, Json)>)
    ensures
        final(base).deep_view() == with_members(old(base).deep_view(), over.deep_view()),
{
    let ghost start = base.deep_view();
    let mut i: usize = 0;
    assert(over.deep_view().take(0) =~= Seq::<(Seq<char>, JsonView)>::empty());
    while i < over.len()
        invariant
            i <= over@.len(),
            base.deep_view() == with_members(start, over.deep_view().take(i as int)),
        decreases over@.len() - i,
    {
        let ghost longer = over.deep_view().take(i + 1);
        assert(longer.drop_last() =~= over.deep_view().take(i as int));
        assert(longer.last() == over@[i as int].deep_view());
        set_member(base, over[i].0.clone(), over[i].1.replica());
        i += 1;
    }
    assert(over.deep_view().take(i as int) =~= over.deep_view());
}

/// Setting a key gives it the value and leaves every other key alone.
pub proof fn lemma_with_member(
    members: Seq<(Seq<char>, JsonView)>,
    key: Seq<char>,
    value: JsonView,
    other: Seq<char>,
)
    ensures
        member(with_member(members, key, value), other) == (if other == key {
            Some(value)
        } else {
            member(members, other)
        }),
    decreases members.len(),
{
    if members.len() == 0 {
        assert(with_member(members, key, value) =~= seq![(key, value)]);
        assert(member_index(seq![(key, value)].drop_first(), other) == None::<int>);
    } else {
        let rest = members.drop_first();
        let after = with_member(members, key, value);
        lemma_member_index_bounds(members, key);
        if members[0].0 == key {
            assert(after.drop_first() =~= rest);
            lemma_member_index_bounds(rest, other);
        } else {
            lemma_with_member(rest, key, value, other);
            assert(after.drop_first() =~= with_member(rest, key, value)) by {
                lemma_member_index_bounds(rest, key);
            }
            assert(after[0] == members[0]);
            lemma_member_index_bounds(rest, other);
            lemma_member_index_bounds(after.drop_first(), other);
        }
    }
}

/// Setting members by key: a key of `over` takes the value that `over` gives
/// it last, and every other key keeps the value it had.
pub proof fn merged_members_prefer_the_newer(
    base: Seq<(Seq<char>, JsonView)>,
    over: Seq<(Seq<char>, JsonView)>,
    key: Seq<char>,
)
    ensures
        (forall|i: int| 0 <= i < over.len() ==> (#[trigger] over[i]).0 != key) ==> member(
            with_members(base, over),
            key,
        ) == member(base, key),
        forall|i: int|
            0 <= i < over.len() && (#[trigger] over[i]).0 == key && (forall|j: int|
                i < j < over.len() ==> (#[trigger] over[j]).0 != key) ==> member(
                with_members(base, over),
                key,
            ) == Some(over[i].1),
    decreases over.len(),
{
    if over.len() > 0 {
        let head = over.drop_last();
        merged_members_prefer_the_newer(base, head, key);
        lemma_with_member(with_members(base, head), over.last().0, over.last().1, key);
        assert forall|i: int|
            0 <= i < over.len() && (#[trigger] over[i]).0 == key && (forall|j: int|
                i < j < over.len() ==> (#[trigger] over[j]).0 != key) implies member(
            with_members(base, over),
            key,
        ) == Some(over[i].1) by {
            if i < over.len() - 1 {
                assert(over[over.len() - 1].0 != key);
                assert(head[i].0 == key);
                assert forall|j: int| i < j < head.len() implies (#[trigger] head[j]).0 != key by {
                    assert(over[j].0 != key);
                }
            }
        }
        if forall|i: int| 0 <= i < over.len() ==> (#[trigger] over[i]).0 != key {
            assert(over[over.len() - 1].0 != key);
            assert forall|i: int| 0 <= i < head.len() implies (#[trigger] head[i]).0 != key by {
                assert(over[i].0 != key);
            }
        }
    }
}

/// `serde_json::Value`, a JSON document as `serde_json` holds it.
#[verifier::external_type_specification]
#[verifier::external_body]
pub struct ExValue(serde_json::Value);

/// The document that a `serde_json::Value` holds: its numbers as they are
/// displayed, and the members of its objects by ascending key.
pub uninterp spec fn document(value: serde_json::Value) -> JsonView;

/// One level of a `serde_json::Value`.
pub enum Node {
    Null,
    Bool(bool),
    Number(String),
    Text(String),
    Array(Vec<serde_json::Value>),
    Object(Vec<(String, serde_json::Value)>),
}

/// The documents in `values`.
pub open spec fn documents(values: Seq<serde_json::Value>) -> Seq<JsonView> {
    values.map_values(|value: serde_json::Value| document(value))
}

/// The documents in `members`.
pub open spec fn member_documents(members: Seq<(String, serde_json::Value)>) -> Seq<
    (Seq<char>, JsonView),
> {
    members.map_values(
        |pair: (String, serde_json::Value)| (pair.0@, document(pair.1)),
    )
}

/// What one level of a document stands for.
pub open spec fn node_view(node: Node) -> JsonView {
    match node {
        Node::Null => JsonView::Null,
        Node::Bool(b) => JsonView::Bool(b),
        Node::Number(n) => JsonView::Number(n@),
        Node::Text(t) => JsonView::Text(t@),
        Node::Array(items) => JsonView::Array(documents(items@)),
        Node::Object(members) => JsonView::Object(member_documents(members@)),
    }
}

/// Takes a `serde_json::Value` apart by its variants: the node stands for the
/// document that the value holds.
#[verifier::external_body]
fn open_value(value: serde_json::Value) -> (r: Node)
    ensures
        node_view(r) == document(value),
{
    match value {
        serde_json::Value::Null => Node::Null,
        serde_json::Value::Bool(b) => Node::Bool(b),
        serde_json::Value::Number(n) => Node::Number(n.to_string()),
        serde_json::Value::String(t) => Node::Text(t),
        serde_json::Value::Array(items) => Node::Array(items),
        serde_json::Value::Object(members) => Node::Object(members.into_iter().collect()),
    }
}

fn from_value(value: serde_json::Value) -> (r: Json)
    ensures
        r.deep_view() == document(value),
    decreases document(value),
{
    let ghost whole = document(value);
    match open_value(value) {
        Node::Null => Json::Null,
        Node::Bool(b) => Json::Bool(b),
        Node::Number(n) => Json::Number(n),
        Node::Text(t) => Json::Text(t),
        Node::Array(items) => {
            let ghost all = documents(items@);
            let mut rest = items;
            let mut out: Vec<Json> = Vec::new();
            let ghost mut done: int = 0;
            while rest.len() > 0
                invariant
                    0 <= done <= all.len(),
                    rest@.len() == all.len() - done,
                    documents(rest@) == all.skip(done),
                    out.deep_view() == all.take(done),
                    whole == JsonView::Array(all),
                    document(value) == whole,
                decreases rest@.len(),
            {
                let ghost held = rest@;
                let item = rest.remove(0);
                proof {
                    assert(documents(held)[0] == all[done]);
                    assert(documents(rest@) =~= documents(held).drop_first());
                    assert(all.skip(done).drop_first() =~= all.skip(done + 1));
                    assert(decreases_to!(whole => whole->Array_0));
                    assert(decreases_to!(whole->Array_0 => all[done]));
                }
                let ghost before = out.deep_view();
                let json = from_value(item);
                out.push(json);
                proof {
                    assert(out.deep_view() =~= before.push(all[done]));
                    assert(all.take(done + 1) =~= all.take(done).push(all[done]));
                    done = done + 1;
                }
            }
            proof {
                assert(all.take(done) =~= all);
                lemma_array_view(out);
            }
            Json::Array(out)
        },
        Node::Object(members) => {
            let ghost all = member_documents(members@);
            let mut rest = members;
            let mut out: Vec<(String, Json)> = Vec::new();
            let ghost mut done: int = 0;
            while rest.len() > 0
                invariant
                    0 <= done <= all.len(),
                    rest@.len() == all.len() - done,
                    member_documents(rest@) == all.skip(done),
                    out.deep_view() == all.take(done),
                    whole == JsonView::Object(all),
                    document(value) == whole,
                decreases rest@.len(),
            {
                let ghost held = rest@;
                let (key, item) = rest.remove(0);
                proof {
                    assert(member_documents(held)[0] == all[done]);
                    assert(member_documents(rest@) =~= member_documents(held).drop_first());
                    assert(all.skip(done).drop_first() =~= all.skip(done + 1));
                    assert(decreases_to!(whole => whole->Object_0));
                    assert(decreases_to!(whole->Object_0 => all[done]));
                    assert(decreases_to!(all[done] => all[done].1));
                }
                let ghost before = out.deep_view();
                let json = from_value(item);
                out.push((key, json));
                proof {
                    assert(out.deep_view() =~= before.push(all[done]));
                    assert(all.take(done + 1) =~= all.take(done).push(all[done]));
                    done = done + 1;
                }
            }
            proof {
                assert(all.take(done) =~= all);
                lemma_object_view(out);
            }
            Json::Object(out)
        },
    }
}

/// Whether the keys of `members` ascend strictly.
pub open spec fn keys_ascend(members: Seq<(Seq<char>, JsonView)>) -> bool {
    forall|i: int, j: int|
        0 <= i < j < members.len() ==> table::key_lt(
            (#[trigger] members[i]).0,
            (#[trigger] members[j]).0,
        )
}

/// Puts a `serde_json::Value` together from one level of a document. Members
/// come by ascending key, as `serde_json` keeps them.
#[verifier::external_body]
fn close_node(node: Node) -> (r: serde_json::Value)
    requires
        node !is Number,
        node_view(node) matches JsonView::Object(members) ==> keys_ascend(members),
    ensures
        document(r) == node_view(node),
{
    match node {
        Node::Null => serde_json::Value::Null,
        Node::Bool(b) => serde_json::Value::Bool(b),
        Node::Number(n) => serde_json::Value::String(n),
        Node::Text(t) => serde_json::Value::String(t),
        Node::Array(items) => serde_json::Value::Array(items),
        Node::Object(members) => serde_json::Value::Object(members.into_iter().collect()),
    }
}

/// How `serde_json` displays the number it reads in a text, if it reads one.
pub uninterp spec fn number_spelling(s: Seq<char>) -> Option<Seq<char>>;

/// `serde_json::from_str` for a `serde_json::Number`. What is read is a
/// function of the text.
#[verifier::external_body]
fn number_value(s: &str) -> (r: Option<serde_json::Value>)
    ensures
        match r {
            Some(value) => number_spelling(s@) is Some && document(value) == JsonView::Number(
                number_spelling(s@)->0,
            ),
            None => number_spelling(s@) is None,
        },
{
    match serde_json::from_str::<serde_json::Number>(s) {
        Ok(number) => Some(serde_json::Value::Number(number)),
        Err(_) => None,
    }
}

/// `members`, with ascending keys, after `key` was given `value`.
pub open spec fn placed(
    members: Seq<(Seq<char>, JsonView)>,
    key: Seq<char>,
    value: JsonView,
) -> Seq<(Seq<char>, JsonView)>
    decreases members.len(),
{
    if members.len() == 0 {
        seq![(key, value)]
    } else if members.last().0 == key {
        members.update(members.len() - 1, (key, value))
    } else if text::text_le(members.last().0, key) {
        members.push((key, value))
    } else {
        placed(members.drop_last(), key, value).push(members.last())
    }
}

/// `document` as `serde_json` holds it: numbers in their own spelling, and the
/// members of objects by ascending key, the last of equal keys standing.
/// There is none when a number is not spelled like one.
pub open spec fn canonical(document: JsonView) -> Option<JsonView>
    decreases document,
{
    match document {
        JsonView::Null => Some(JsonView::Null),
        JsonView::Bool(b) => Some(JsonView::Bool(b)),
        JsonView::Text(t) => Some(JsonView::Text(t)),
        JsonView::Number(n) => match number_spelling(n) {
            Some(spelling) => Some(JsonView::Number(spelling)),
            None => None,
        },
        JsonView::Array(items) => match canonical_items(items) {
            Some(items) => Some(JsonView::Array(items)),
            None => None,
        },
        JsonView::Object(members) => match canonical_members(members) {
            Some(members) => Some(JsonView::Object(members)),
            None => None,
        },
    }
}

/// The items of an array as `serde_json` holds them.
pub open spec fn canonical_items(items: Seq<JsonView>) -> Option<Seq<JsonView>>
    decreases items,
{
    if items.len() == 0 {
        Some(Seq::empty())
    } else {
        match (canonical_items(items.drop_last()), canonical(items.last())) {
            (Some(head), Some(last)) => Some(head.push(last)),
            _ => None,
        }
    }
}

/// The members of an object as `serde_json` holds them.
pub open spec fn canonical_members(members: Seq<(Seq<char>, JsonView)>) -> Option<
    Seq<(Seq<char>, JsonView)>,
>
    decreases members,
{
    if members.len() == 0 {
        Some(Seq::empty())
    } else {
        match (canonical_members(members.drop_last()), canonical(members.last().1)) {
            (Some(head), Some(last)) => Some(placed(head, members.last().0, last)),
            _ => None,
        }
    }
}

proof fn lemma_placed_ascends(
    members: Seq<(Seq<char>, JsonView)>,
    key: Seq<char>,
    value: JsonView,
)
    requires
        keys_ascend(members),
    ensures
        keys_ascend(placed(members, key, value)),
        forall|i: int|
            0 <= i < placed(members, key, value).len() ==> {
                let k = (#[trigger] placed(members, key, value)[i]).0;
                k == key || exists|j: int| 0 <= j < members.len() && (#[trigger] members[j]).0 == k
            },
    decreases members.len(),
{
    let after = placed(members, key, value);
    if members.len() > 0 {
        let last = members.len() - 1;
        if members.last().0 == key {
            assert forall|i: int, j: int| 0 <= i < j < after.len() implies table::key_lt(
                (#[trigger] after[i]).0,
                (#[trigger] after[j]).0,
            ) by {
                assert(after[i].0 == members[i].0 && after[j].0 == members[j].0);
            }
            assert forall|i: int| 0 <= i < after.len() implies {
                let k = (#[trigger] after[i]).0;
                k == key || exists|j: int| 0 <= j < members.len() && (#[trigger] members[j]).0 == k
            } by {
                assert(after[i].0 == members[i].0);
            }
        } else if text::text_le(members.last().0, key) {
            assert forall|i: int, j: int| 0 <= i < j < after.len() implies table::key_lt(
                (#[trigger] after[i]).0,
                (#[trigger] after[j]).0,
            ) by {
                if j == members.len() && i < last {
                    assert(table::key_lt(members[i].0, members[last].0));
                    table::lemma_key_lt_transitive(members[i].0, members[last].0, key);
                }
            }
            assert forall|i: int| 0 <= i < after.len() implies {
                let k = (#[trigger] after[i]).0;
                k == key || exists|j: int| 0 <= j < members.len() && (#[trigger] members[j]).0 == k
            } by {
                if i < members.len() {
                    assert(after[i].0 == members[i].0);
                }
            }
        } else {
            let head = members.drop_last();
            let h = placed(head, key, value);
            lemma_placed_ascends(head, key, value);
            text::text_le_total(members.last().0, key);
            assert forall|i: int| 0 <= i < h.len() implies table::key_lt(
                (#[trigger] h[i]).0,
                members.last().0,
            ) by {
                if h[i].0 != key {
                    let j = choose|j: int| 0 <= j < head.len() && (#[trigger] head[j]).0 == h[i].0;
                    assert(table::key_lt(members[j].0, members[last].0));
                }
            }
            assert forall|i: int, j: int| 0 <= i < j < after.len() implies table::key_lt(
                (#[trigger] after[i]).0,
                (#[trigger] after[j]).0,
            ) by {
                assert(after[i] == h[i]);
                if j < h.len() {
                    assert(after[j] == h[j]);
                }
            }
            assert forall|i: int| 0 <= i < after.len() implies {
                let k = (#[trigger] after[i]).0;
                k == key || exists|j: int| 0 <= j < members.len() && (#[trigger] members[j]).0 == k
            } by {
                if i < h.len() {
                    assert(after[i] == h[i]);
                    if h[i].0 != key {
                        let j = choose|j: int|
                            0 <= j < head.len() && (#[trigger] head[j]).0 == h[i].0;
                        assert(members[j].0 == h[i].0);
                    }
                } else {
                    assert(members[last].0 == after[i].0);
                }
            }
        }
    }
}

proof fn lemma_placed_at(
    members: Seq<(Seq<char>, JsonView)>,
    key: Seq<char>,
    value: JsonView,
    at: int,
)
    requires
        0 <= at <= members.len(),
        forall|k: int|
            at <= k < members.len() ==> (#[trigger] members[k]).0 != key && !text::text_le(
                members[k].0,
                key,
            ),
        at == 0 || members[at - 1].0 == key || text::text_le(members[at - 1].0, key),
    ensures
        placed(members, key, value) == (if at > 0 && members[at - 1].0 == key {
            members.update(at - 1, (key, value))
        } else {
            members.insert(at, (key, value))
        }),
    decreases members.len(),
{
    if members.len() == 0 {
        assert(members.insert(0, (key, value)) =~= seq![(key, value)]);
    } else if at == members.len() {
        assert(members.insert(at, (key, value)) =~= members.push((key, value)));
    } else {
        let head = members.drop_last();
        assert(members[members.len() - 1].0 != key);
        assert forall|k: int| at <= k < head.len() implies (#[trigger] head[k]).0 != key
            && !text::text_le(head[k].0, key) by {
            assert(members[k].0 != key);
        }
        lemma_placed_at(head, key, value, at);
        if at > 0 && members[at - 1].0 == key {
            assert(members.update(at - 1, (key, value)) =~= head.update(at - 1, (key, value)).push(
                members.last(),
            ));
        } else {
            assert(members.insert(at, (key, value)) =~= head.insert(at, (key, value)).push(
                members.last(),
            ));
        }
    }
}

fn place_value(
    members: &mut Vec<(String, serde_json::Value)>,
    key: String,
    value: serde_json::Value,
)
    ensures
        member_documents(final(members)@) == placed(
            member_documents(old(members)@),
            key@,
            document(value),
        ),
{
    let ghost before = member_documents(members@);
    let mut at: usize = members.len();
    while at > 0 && !text::same(members[at - 1].0.as_str(), key.as_str()) && !text::at_most(
        members[at - 1].0.as_str(),
        key.as_str(),
    )
        invariant
            at <= members@.len(),
            before == member_documents(members@),
            forall|k: int|
                at <= k < before.len() ==> (#[trigger] before[k]).0 != key@ && !text::text_le(
                    before[k].0,
                    key@,
                ),
        decreases at,
    {
        at -= 1;
    }
    let ghost held = members@;
    let ghost pair = (key@, document(value));
    proof {
        lemma_placed_at(before, key@, document(value), at as int);
    }
    if at > 0 && text::same(members[at - 1].0.as_str(), key.as_str()) {
        members.set(at - 1, (key, value));
        assert(member_documents(members@) =~= before.update(at - 1, pair));
    } else {
        members.insert(at, (key, value));
        assert(member_documents(members@) =~= before.insert(at as int, pair));
    }
}

proof fn lemma_canonical_items_need_all(items: Seq<JsonView>, i: int)
    requires
        0 <= i <= items.len(),
        canonical_items(items.take(i)) is None,
    ensures
        canonical_items(items) is None,
    decreases items.len() - i,
{
    if i == items.len() {
        assert(items.take(i) =~= items);
    } else {
        assert(items.take(i + 1).drop_last() =~= items.take(i));
        lemma_canonical_items_need_all(items, i + 1);
    }
}

proof fn lemma_canonical_members_need_all(members: Seq<(Seq<char>, JsonView)>, i: int)
    requires
        0 <= i <= members.len(),
        canonical_members(members.take(i)) is None,
    ensures
        canonical_members(members) is None,
    decreases members.len() - i,
{
    if i == members.len() {
        assert(members.take(i) =~= members);
    } else {
        assert(members.take(i + 1).drop_last() =~= members.take(i));
        lemma_canonical_members_need_all(members, i + 1);
    }
}

pub(crate) fn to_value(json: &Json) -> (r: Option<serde_json::Value>)
    ensures
        match r {
            Some(value) => canonical(json.deep_view()) == Some(document(value)),
            None => canonical(json.deep_view()) is None,
        },
    decreases *json,
{
    match json {
        Json::Null => Some(close_node(Node::Null)),
        Json::Bool(b) => Some(close_node(Node::Bool(*b))),
        Json::Number(n) => number_value(n.as_str()),
        Json::Text(t) => Some(close_node(Node::Text(t.clone()))),
        Json::Array(items) => {
            let ghost all = items.deep_view();
            let mut out: Vec<serde_json::Value> = Vec::new();
            let mut i: usize = 0;
            proof {
                lemma_array_view(*items);
                assert(all.take(0) =~= Seq::<JsonView>::empty());
                assert(documents(out@) =~= Seq::<JsonView>::empty());
            }
            while i < items.len()
                invariant
                    i <= items@.len(),
                    *json == Json::Array(*items),
                    all == items.deep_view(),
                    json.deep_view() == JsonView::Array(all),
                    canonical_items(all.take(i as int)) == Some(documents(out@)),
                decreases items@.len() - i,
            {
                proof {
                    assert(decreases_to!(*json => json->Array_0));
                    assert(decreases_to!(json->Array_0 => items@[i as int]));
                    assert(all.take(i + 1).drop_last() =~= all.take(i as int));
                    assert(all.take(i + 1).last() == items@[i as int].deep_view());
                }
                let ghost before = out@;
                match to_value(&items[i]) {
                    Some(value) => {
                        out.push(value);
                        assert(documents(out@) =~= documents(before).push(document(value)));
                    },
                    None => {
                        proof {
                            lemma_canonical_items_need_all(all, i + 1);
                        }
                        return None;
                    },
                }
                i += 1;
            }
            assert(all.take(i as int) =~= all);
            Some(close_node(Node::Array(out)))
        },
        Json::Object(members) => {
            let ghost all = members.deep_view();
            let mut out: Vec<(String, serde_json::Value)> = Vec::new();
            let mut i: usize = 0;
            proof {
                lemma_object_view(*members);
                assert(all.take(0) =~= Seq::<(Seq<char>, JsonView)>::empty());
                assert(member_documents(out@) =~= Seq::<(Seq<char>, JsonView)>::empty());
            }
            while i < members.len()
                invariant
                    i <= members@.len(),
                    *json == Json::Object(*members),
                    all == members.deep_view(),
                    json.deep_view() == JsonView::Object(all),
                    canonical_members(all.take(i as int)) == Some(member_documents(out@)),
                    keys_ascend(member_documents(out@)),
                decreases members@.len() - i,
            {
                proof {
                    assert(decreases_to!(*json => json->Object_0));
                    assert(decreases_to!(json->Object_0 => members@[i as int]));
                    assert(decreases_to!(members@[i as int] => members@[i as int].1));
                    assert(all.take(i + 1).drop_last() =~= all.take(i as int));
                    assert(all.take(i + 1).last() == members@[i as int].deep_view());
                }
                match to_value(&members[i].1) {
                    Some(value) => {
                        proof {
                            lemma_placed_ascends(
                                member_documents(out@),
                                members@[i as int].0@,
                                document(value),
                            );
                        }
                        place_value(&mut out, members[i].0.clone(), value);
                    },
                    None => {
                        proof {
                            lemma_canonical_members_need_all(all, i + 1);
                        }
                        return None;
                    },
                }
                i += 1;
            }
            assert(all.take(i as int) =~= all);
            Some(close_node(Node::Object(out)))
        },
    }
}

/// What `serde_json::to_string_pretty` writes for a document.
pub uninterp spec fn pretty_text(document: JsonView) -> Option<Seq<char>>;

/// `serde_json::to_string_pretty`. The text is a function of the document.
#[verifier::external_body]
fn pretty_value(value: &serde_json::Value) -> (r: Option<String>)
    ensures
        r.deep_view() == pretty_text(document(*value)),
{
    serde_json::to_string_pretty(value).ok()
}

/// The indented text of `document`; that of null where it cannot be written.
pub open spec fn pretty(document: JsonView) -> Seq<char> {
    match canonical(document) {
        Some(held) => match pretty_text(held) {
            Some(text) => text,
            None => "null"@,
        },
        None => "null"@,
    }
}

/// Writes `json` as indented text.
pub fn to_pretty(json: &Json) -> (r: String)
    ensures
        r@ == pretty(json.deep_view()),
{
    match to_value(json) {
        Some(value) => match pretty_value(&value) {
            Some(text) => text,
            None => "null".to_string(),
        },
        None => "null".to_string(),
    }
}

/// What `serde_json::from_str` reads in a text: a document, or the reason why
/// there is none.
pub uninterp spec fn read_json(s: Seq<char>) -> Result<JsonView, Seq<char>>;

/// `serde_json::from_str` for a `serde_json::Value`. What is read, and the
/// message of the error, are functions of the text.
#[verifier::external_body]
fn read_value(s: &str) -> (r: Result<serde_json::Value, String>)
    ensures
        match r {
            Ok(value) => read_json(s@) == Ok::<JsonView, Seq<char>>(document(value)),
            Err(reason) => read_json(s@) == Err::<JsonView, Seq<char>>(reason@),
        },
{
    serde_json::from_str(s).map_err(|error: serde_json::Error| error.to_string())
}

/// Reads a JSON document.
pub fn parse_json(s: &str) -> (r: Result<Json, String>)
    ensures
        match r {
            Ok(json) => read_json(s@) == Ok::<JsonView, Seq<char>>(json.deep_view()),
            Err(reason) => read_json(s@) == Err::<JsonView, Seq<char>>(reason@),
        },
{
    match read_value(s) {
        Ok(value) => Ok(from_value(value)),
        Err(reason) => Err(reason),
    }
}

/// What `serde_json::to_string` writes for a string.
pub uninterp spec fn quoted(s: Seq<char>) -> Seq<char>;

/// `serde_json::to_string` for a string: its JSON spelling, with quotes and
/// escapes, which is a function of the string. `serde_json` writes every
/// string, so there is no error to hand on.
#[verifier::external_body]
pub(crate) fn quote(s: &str) -> (r: String)
    ensures
        r@ == quoted(s@),
{
    serde_json::to_string(s).unwrap_or_default()
}

} // verus!
