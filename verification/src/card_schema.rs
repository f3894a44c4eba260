//! Agent card validation against a bundle of JSON schemas.

use vstd::multiset::Multiset;
use vstd::prelude::*;

use crate::json;
use crate::json::{Json, JsonView};
use crate::order;
use crate::order::{Ordered, Ranked};
use crate::replica::Replica;
use crate::table::Table;
use crate::text;

verus! {

/// The protocol release that the schema bundle belongs to.
pub const SCHEMA_A2A_VERSION: &'static str = "v1.0.1-48-g2b93e318";

/// One violation of the schema.
#[derive(Debug, PartialEq, Eq)]
pub struct Violation {
    /// JSON pointer to the offending value; empty for the card itself.
    pub path: String,
    pub message: String,
}

/// What a [`Violation`] stands for.
#[verifier::ext_equal]
pub struct ViolationView {
    pub path: Seq<char>,
    pub message: Seq<char>,
}

impl DeepView for Violation {
    type V = ViolationView;

    open spec fn deep_view(&self) -> ViolationView {
        ViolationView { path: self.path@, message: self.message@ }
    }
}

impl Replica for Violation {
    fn replica(&self) -> (r: Self) {
        Violation { path: self.path.clone(), message: self.message.clone() }
    }
}

impl Clone for Violation {
    fn clone(&self) -> (r: Self)
        ensures
            r.deep_view() == self.deep_view(),
    {
        self.replica()
    }
}

impl Ranked for Violation {
    open spec fn ranks(a: ViolationView, b: ViolationView) -> bool {
        if a.path == b.path {
            text::text_le(a.message, b.message)
        } else {
            text::text_le(a.path, b.path)
        }
    }

    proof fn ranks_total(a: ViolationView, b: ViolationView) {
        text::text_le_total(a.path, b.path);
        text::text_le_total(a.message, b.message);
    }

    proof fn ranks_transitive(a: ViolationView, b: ViolationView, c: ViolationView) {
        if a.path == b.path && b.path == c.path {
            text::text_le_transitive(a.message, b.message, c.message);
        } else if a.path != b.path && b.path != c.path {
            text::text_le_transitive(a.path, b.path, c.path);
            if a.path == c.path {
                text::text_le_antisymmetric(a.path, b.path);
            }
        }
    }

    fn may_precede(&self, other: &Self) -> (r: bool) {
        if self.path == other.path {
            text::at_most(self.message.as_str(), other.message.as_str())
        } else {
            text::at_most(self.path.as_str(), other.path.as_str())
        }
    }
}

impl Ordered for Violation {
    proof fn ranks_antisymmetric(a: ViolationView, b: ViolationView) {
        if a.path == b.path {
            text::text_le_antisymmetric(a.message, b.message);
        } else {
            text::text_le_antisymmetric(a.path, b.path);
        }
    }
}

/// Whether `c` is an ASCII letter or digit.
pub open spec fn is_alphanumeric(c: char) -> bool {
    ('0' <= c <= '9') || ('a' <= c <= 'z') || ('A' <= c <= 'Z')
}

/// The letters and digits of `name`, in lower case. The bundle spells one
/// name in several ways, with and without spaces; this is what they share.
pub open spec fn normalised(name: Seq<char>) -> Seq<char>
    decreases name.len(),
{
    if name.len() == 0 {
        name
    } else if is_alphanumeric(name.last()) {
        normalised(name.drop_last()).push(text::lower_char(name.last()))
    } else {
        normalised(name.drop_last())
    }
}

/// The key that a name is known by.
pub fn normalise(name: &str) -> (r: String)
    ensures
        r@ == normalised(name@),
{
    let chars = text::chars_of(name);
    let mut out = String::new();
    let mut i: usize = 0;
    assert(chars@.take(0) =~= Seq::<char>::empty());
    while i < chars.len()
        invariant
            i <= chars@.len(),
            out@ == normalised(chars@.take(i as int)),
        decreases chars@.len() - i,
    {
        assert(chars@.take(i + 1).drop_last() =~= chars@.take(i as int));
        let c = chars[i];
        if ('0' <= c && c <= '9') || ('a' <= c && c <= 'z') || ('A' <= c && c <= 'Z') {
            out.push(text::to_lower_char(c));
        }
        i += 1;
    }
    assert(chars@.take(i as int) =~= chars@);
    out
}

/// `s` without the prefix `p`, if it has it.
pub open spec fn past_prefix(s: Seq<char>, p: Seq<char>) -> Seq<char> {
    match text::without_prefix(s, p) {
        Some(rest) => rest,
        None => s,
    }
}

/// `s` without the suffix `p`, if it has it.
pub open spec fn past_suffix(s: Seq<char>, p: Seq<char>) -> Seq<char> {
    match text::without_suffix(s, p) {
        Some(rest) => rest,
        None => s,
    }
}

/// The key of the type that a reference names: the last dotted part of an
/// internal `#/definitions/Agent Card` or of a file such as
/// `a2a.v1.AgentSkill.jsonschema.json`.
pub open spec fn reference_key(reference: Seq<char>) -> Seq<char> {
    normalised(
        text::after_last(
            past_suffix(past_prefix(reference, "#/definitions/"@), ".jsonschema.json"@),
            '.',
        ),
    )
}

/// The key that a reference names, if there is a definition for it.
pub open spec fn placed_reference(
    reference: Seq<char>,
    keys: Set<Seq<char>>,
) -> Option<Seq<char>> {
    if keys.contains(reference_key(reference)) {
        Some(reference_key(reference))
    } else {
        None
    }
}

/// The key that a reference names, if `index` has it.
pub fn definition_key(reference: &str, index: &Table<String>) -> (r: Option<String>)
    ensures
        r.deep_view() == placed_reference(reference@, index@.dom()),
{
    let name = match text::strip_prefix(reference, "#/definitions/") {
        Some(rest) => rest,
        None => reference.to_string(),
    };
    let base = match text::strip_suffix(name.as_str(), ".jsonschema.json") {
        Some(rest) => rest,
        None => name,
    };
    let named = text::last_segment(base.as_str(), '.');
    let key = normalise(named.as_str());
    if index.contains_key(key.as_str()) {
        Some(key)
    } else {
        None
    }
}

/// The reference of an object, if it has one.
pub open spec fn own_reference(members: Seq<(Seq<char>, JsonView)>) -> Option<Seq<char>> {
    match json::member(members, "$ref"@) {
        Some(JsonView::Text(reference)) => Some(reference),
        _ => None,
    }
}

/// A reference to the definition `key`.
pub open spec fn pointer(key: Seq<char>) -> Seq<char> {
    "#/definitions/"@ + key
}

/// `node` with every reference that can be placed turned into a pointer to
/// its definition.
pub open spec fn retargeted(node: JsonView, keys: Set<Seq<char>>) -> JsonView
    decreases node,
{
    match node {
        JsonView::Object(members) => {
            let inner = retargeted_members(members, keys);
            match own_reference(members) {
                Some(reference) => match placed_reference(reference, keys) {
                    Some(key) => JsonView::Object(
                        json::with_member(inner, "$ref"@, JsonView::Text(pointer(key))),
                    ),
                    None => JsonView::Object(inner),
                },
                None => JsonView::Object(inner),
            }
        },
        JsonView::Array(items) => JsonView::Array(retargeted_items(items, keys)),
        other => other,
    }
}

/// The members of an object with the references in their values retargeted.
pub open spec fn retargeted_members(
    members: Seq<(Seq<char>, JsonView)>,
    keys: Set<Seq<char>>,
) -> Seq<(Seq<char>, JsonView)>
    decreases members,
{
    if members.len() == 0 {
        members
    } else {
        retargeted_members(members.drop_last(), keys).push(
            (members.last().0, retargeted(members.last().1, keys)),
        )
    }
}

/// The items of an array with the references in them retargeted.
pub open spec fn retargeted_items(items: Seq<JsonView>, keys: Set<Seq<char>>) -> Seq<JsonView>
    decreases items,
{
    if items.len() == 0 {
        items
    } else {
        retargeted_items(items.drop_last(), keys).push(retargeted(items.last(), keys))
    }
}

/// The references in `node` that cannot be placed, in document order.
pub open spec fn unplaced(node: JsonView, keys: Set<Seq<char>>) -> Seq<Seq<char>>
    decreases node,
{
    match node {
        JsonView::Object(members) => {
            let own = match own_reference(members) {
                Some(reference) => if placed_reference(reference, keys) is None {
                    seq![reference]
                } else {
                    Seq::empty()
                },
                None => Seq::empty(),
            };
            own + unplaced_members(members, keys)
        },
        JsonView::Array(items) => unplaced_items(items, keys),
        _ => Seq::empty(),
    }
}

/// The references in the values of `members` that cannot be placed.
pub open spec fn unplaced_members(
    members: Seq<(Seq<char>, JsonView)>,
    keys: Set<Seq<char>>,
) -> Seq<Seq<char>>
    decreases members,
{
    if members.len() == 0 {
        Seq::empty()
    } else {
        unplaced_members(members.drop_last(), keys) + unplaced(members.last().1, keys)
    }
}

/// The references in `items` that cannot be placed.
pub open spec fn unplaced_items(items: Seq<JsonView>, keys: Set<Seq<char>>) -> Seq<Seq<char>>
    decreases items,
{
    if items.len() == 0 {
        Seq::empty()
    } else {
        unplaced_items(items.drop_last(), keys) + unplaced(items.last(), keys)
    }
}

/// Turns every reference in `node` into a pointer to its definition, and adds
/// those that cannot be placed to `unresolved`.
pub fn retarget_refs(node: &Json, index: &Table<String>, unresolved: &mut Vec<String>) -> (r: Json)
    ensures
        r.deep_view() == retargeted(node.deep_view(), index@.dom()),
        final(unresolved).deep_view() == old(unresolved).deep_view() + unplaced(
            node.deep_view(),
            index@.dom(),
        ),
    decreases *node,
{
    let ghost keys = index@.dom();
    let ghost start = unresolved.deep_view();
    match node {
        Json::Object(members) => {
            let ghost all = members.deep_view();
            proof {
                json::lemma_object_view(*members);
            }
            let mut own: Option<String> = None;
            if let Some(Json::Text(reference)) = json::get_member(members, "$ref") {
                assert(own_reference(all) == Some(reference@));
                match definition_key(reference.as_str(), index) {
                    Some(key) => {
                        own = Some(key);
                    },
                    None => {
                        unresolved.push(reference.clone());
                        assert(unresolved.deep_view() =~= start + seq![reference@]);
                    },
                }
            } else {
                assert(own_reference(all) is None);
                assert(unresolved.deep_view() =~= start + Seq::<Seq<char>>::empty());
            }
            let ghost led = unresolved.deep_view();
            assert(own is Some ==> led =~= start + Seq::<Seq<char>>::empty());
            let mut out: Vec<(String, Json)> = Vec::new();
            let mut i: usize = 0;
            proof {
                assert(all.take(0) =~= Seq::<(Seq<char>, JsonView)>::empty());
                assert(out.deep_view() =~= Seq::<(Seq<char>, JsonView)>::empty());
                assert(led + Seq::<Seq<char>>::empty() =~= led);
            }
            while i < members.len()
                invariant
                    i <= members@.len(),
                    *node == Json::Object(*members),
                    all == members.deep_view(),
                    keys == index@.dom(),
                    out.deep_view() == retargeted_members(all.take(i as int), keys),
                    unresolved.deep_view() == led + unplaced_members(all.take(i as int), keys),
                decreases members@.len() - i,
            {
                proof {
                    assert(decreases_to!(*node => node->Object_0));
                    assert(decreases_to!(node->Object_0 => members@[i as int]));
                    assert(decreases_to!(members@[i as int] => members@[i as int].1));
                    assert(all.take(i + 1).drop_last() =~= all.take(i as int));
                    assert(all.take(i + 1).last() == members@[i as int].deep_view());
                }
                let ghost before = out.deep_view();
                let ghost gone = unplaced_members(all.take(i as int), keys);
                let value = retarget_refs(&members[i].1, index, unresolved);
                let ghost view = value.deep_view();
                out.push((members[i].0.clone(), value));
                proof {
                    assert(out.deep_view() =~= before.push((members@[i as int].0@, view)));
                    let more = unplaced(members@[i as int].1.deep_view(), keys);
                    assert((led + gone) + more =~= led + (gone + more));
                }
                i += 1;
            }
            assert(all.take(i as int) =~= all);
            if let Some(key) = own {
                let mut target = "#/definitions/".to_string();
                target.append(key.as_str());
                json::set_member(&mut out, "$ref".to_string(), Json::Text(target));
            }
            proof {
                json::lemma_object_view(out);
                let none = Seq::<Seq<char>>::empty();
                assert((start + none) + unplaced_members(all, keys) =~= start + (none
                    + unplaced_members(all, keys)));
                if own_reference(all) is Some {
                    let one = seq![own_reference(all)->0];
                    assert((start + one) + unplaced_members(all, keys) =~= start + (one
                        + unplaced_members(all, keys)));
                }
            }
            Json::Object(out)
        },
        Json::Array(items) => {
            let ghost all = items.deep_view();
            let mut out: Vec<Json> = Vec::new();
            let mut i: usize = 0;
            proof {
                json::lemma_array_view(*items);
                assert(all.take(0) =~= Seq::<JsonView>::empty());
                assert(out.deep_view() =~= Seq::<JsonView>::empty());
                assert(start + Seq::<Seq<char>>::empty() =~= start);
            }
            while i < items.len()
                invariant
                    i <= items@.len(),
                    *node == Json::Array(*items),
                    all == items.deep_view(),
                    keys == index@.dom(),
                    out.deep_view() == retargeted_items(all.take(i as int), keys),
                    unresolved.deep_view() == start + unplaced_items(all.take(i as int), keys),
                decreases items@.len() - i,
            {
                proof {
                    assert(decreases_to!(*node => node->Array_0));
                    assert(decreases_to!(node->Array_0 => items@[i as int]));
                    assert(all.take(i + 1).drop_last() =~= all.take(i as int));
                    assert(all.take(i + 1).last() == items@[i as int].deep_view());
                }
                let ghost before = out.deep_view();
                let ghost gone = unplaced_items(all.take(i as int), keys);
                let item = retarget_refs(&items[i], index, unresolved);
                let ghost view = item.deep_view();
                out.push(item);
                proof {
                    assert(out.deep_view() =~= before.push(view));
                    let more = unplaced(items@[i as int].deep_view(), keys);
                    assert((start + gone) + more =~= start + (gone + more));
                }
                i += 1;
            }
            proof {
                assert(all.take(i as int) =~= all);
                json::lemma_array_view(out);
            }
            Json::Array(out)
        },
        _ => {
            assert(unresolved.deep_view() =~= start + Seq::<Seq<char>>::empty());
            node.replica()
        },
    }
}

/// The definitions of a bundle, if it has any.
pub open spec fn definitions(bundle: JsonView) -> Option<Seq<(Seq<char>, JsonView)>> {
    match bundle {
        JsonView::Object(members) => match json::member(members, "definitions"@) {
            Some(JsonView::Object(held)) => Some(held),
            _ => None,
        },
        _ => None,
    }
}

/// The keys that definitions are known by.
pub open spec fn definition_keys(held: Seq<(Seq<char>, JsonView)>) -> Set<Seq<char>>
    decreases held.len(),
{
    if held.len() == 0 {
        Set::empty()
    } else {
        definition_keys(held.drop_last()).insert(normalised(held.last().0))
    }
}

/// Definitions under the keys they are known by.
pub open spec fn rehoused(held: Seq<(Seq<char>, JsonView)>) -> Seq<(Seq<char>, JsonView)>
    decreases held.len(),
{
    if held.len() == 0 {
        held
    } else {
        json::with_member(
            rehoused(held.drop_last()),
            normalised(held.last().0),
            held.last().1,
        )
    }
}

/// The self-contained schema of an agent card, over `held` definitions.
pub open spec fn card_document(held: Seq<(Seq<char>, JsonView)>) -> JsonView {
    JsonView::Object(
        seq![
            (
                "$schema"@,
                JsonView::Text("https://json-schema.org/draft/2020-12/schema"@),
            ),
            ("$ref"@, JsonView::Text(pointer(normalised("Agent Card"@)))),
            ("definitions"@, JsonView::Object(rehoused(held))),
        ],
    )
}

/// The schema of an agent card that a bundle holds, or why it holds none.
pub open spec fn card_schema(bundle: JsonView) -> Result<JsonView, Seq<char>> {
    match definitions(bundle) {
        None => Err("vendored schema has no definitions"@),
        Some(held) => {
            let keys = definition_keys(held);
            if !keys.contains(normalised("Agent Card"@)) {
                Err("vendored schema has no Agent Card definition"@)
            } else if unplaced(bundle, keys).len() > 0 {
                Err(
                    "vendored schema has unplaceable references: "@ + text::joined(
                        order::deduped(order::sorted::<String>(unplaced(bundle, keys))),
                        ", "@,
                    ),
                )
            } else {
                match definitions(retargeted(bundle, keys)) {
                    Some(held) => Ok(card_document(held)),
                    None => Err("vendored schema has no definitions"@),
                }
            }
        },
    }
}

/// What a fallible document stands for.
pub open spec fn schema_view(schema: Result<Json, String>) -> Result<JsonView, Seq<char>> {
    match schema {
        Ok(json) => Ok(json.deep_view()),
        Err(reason) => Err(reason@),
    }
}

fn find_definitions(bundle: &Json) -> (r: Option<&Vec<(String, Json)>>)
    ensures
        match r {
            Some(held) => definitions(bundle.deep_view()) == Some(held.deep_view()),
            None => definitions(bundle.deep_view()) is None,
        },
{
    match bundle {
        Json::Object(members) => {
            proof {
                json::lemma_object_view(*members);
            }
            match json::get_member(members, "definitions") {
                Some(Json::Object(held)) => {
                    proof {
                        json::lemma_object_view(*held);
                    }
                    Some(held)
                },
                _ => None,
            }
        },
        _ => None,
    }
}

fn index_definitions(held: &Vec<(String, Json)>) -> (r: Table<String>)
    ensures
        r@.dom() == definition_keys(held.deep_view()),
{
    let mut index: Table<String> = Table::new();
    let mut i: usize = 0;
    let ghost all = held.deep_view();
    assert(all.take(0) =~= Seq::<(Seq<char>, JsonView)>::empty());
    assert(index@.dom() =~= Set::<Seq<char>>::empty());
    while i < held.len()
        invariant
            i <= held@.len(),
            all == held.deep_view(),
            index@.dom() == definition_keys(all.take(i as int)),
        decreases held@.len() - i,
    {
        assert(all.take(i + 1).drop_last() =~= all.take(i as int));
        assert(all.take(i + 1).last() == held@[i as int].deep_view());
        let ghost before = index@;
        let key = normalise(held[i].0.as_str());
        let ghost k = key@;
        index.insert(key, held[i].0.clone());
        assert(index@.dom() =~= before.dom().insert(k));
        i += 1;
    }
    assert(all.take(i as int) =~= all);
    index
}

fn rehouse(held: &Vec<(String, Json)>) -> (r: Vec<(String, Json)>)
    ensures
        r.deep_view() == rehoused(held.deep_view()),
{
    let mut out: Vec<(String, Json)> = Vec::new();
    let mut i: usize = 0;
    let ghost all = held.deep_view();
    assert(all.take(0) =~= Seq::<(Seq<char>, JsonView)>::empty());
    assert(out.deep_view() =~= Seq::<(Seq<char>, JsonView)>::empty());
    while i < held.len()
        invariant
            i <= held@.len(),
            all == held.deep_view(),
            out.deep_view() == rehoused(all.take(i as int)),
        decreases held@.len() - i,
    {
        assert(all.take(i + 1).drop_last() =~= all.take(i as int));
        assert(all.take(i + 1).last() == held@[i as int].deep_view());
        let key = normalise(held[i].0.as_str());
        json::set_member(&mut out, key, held[i].1.replica());
        i += 1;
    }
    assert(all.take(i as int) =~= all);
    out
}

/// Builds the schema of an agent card from a bundle.
pub fn build_schema(bundle: &Json) -> (r: Result<Json, String>)
    ensures
        schema_view(r) == card_schema(bundle.deep_view()),
{
    let held = match find_definitions(bundle) {
        Some(held) => held,
        None => {
            return Err("vendored schema has no definitions".to_string());
        },
    };
    let index = index_definitions(held);
    let card_key = normalise("Agent Card");
    if !index.contains_key(card_key.as_str()) {
        return Err("vendored schema has no Agent Card definition".to_string());
    }
    let mut unresolved: Vec<String> = Vec::new();
    let ghost none = unresolved.deep_view();
    assert(none =~= Seq::<Seq<char>>::empty());
    let target = retarget_refs(bundle, &index, &mut unresolved);
    assert(unresolved.deep_view() =~= unplaced(bundle.deep_view(), index@.dom()));
    assert(unresolved@.len() == unresolved.deep_view().len());
    if unresolved.len() > 0 {
        let names = order::dedup(order::sort(unresolved));
        let mut message = "vendored schema has unplaceable references: ".to_string();
        let list = text::join(&names, ", ");
        message.append(list.as_str());
        return Err(message);
    }
    let placed = match find_definitions(&target) {
        Some(placed) => placed,
        None => {
            return Err("vendored schema has no definitions".to_string());
        },
    };
    let homes = rehouse(placed);
    let mut pointer_text = "#/definitions/".to_string();
    pointer_text.append(card_key.as_str());
    let mut document: Vec<(String, Json)> = Vec::new();
    document.push(
        (
            "$schema".to_string(),
            Json::Text("https://json-schema.org/draft/2020-12/schema".to_string()),
        ),
    );
    document.push(("$ref".to_string(), Json::Text(pointer_text)));
    proof {
        json::lemma_object_view(homes);
    }
    document.push(("definitions".to_string(), Json::Object(homes)));
    proof {
        json::lemma_object_view(document);
        assert(document.deep_view() =~= card_document(
            definitions(target.deep_view())->0,
        )->Object_0);
    }
    Ok(Json::Object(document))
}

/// The schema of an agent card in the text of a bundle, or why there is none.
pub open spec fn card_schema_text(bundle: Seq<char>) -> Result<JsonView, Seq<char>> {
    match json::read_json(bundle) {
        Ok(document) => card_schema(document),
        Err(reason) => Err("vendored schema is not JSON: "@ + reason),
    }
}

/// Builds the schema of an agent card from the text of a bundle.
pub fn agent_card_schema(bundle: &str) -> (r: Result<Json, String>)
    ensures
        schema_view(r) == card_schema_text(bundle@),
{
    match json::parse_json(bundle) {
        Ok(document) => build_schema(&document),
        Err(reason) => {
            let mut message = "vendored schema is not JSON: ".to_string();
            message.append(reason.as_str());
            Err(message)
        },
    }
}

/// Everything that `jsonschema` finds wrong with a document by a schema, as
/// pairs of path and message, if the schema compiles.
pub uninterp spec fn schema_report(schema: JsonView, document: JsonView) -> Option<
    Multiset<(Seq<char>, Seq<char>)>,
>;

/// `jsonschema::validator_for`, and `iter_errors` of the validator it makes.
/// Whether the schema compiles, and which errors there are, are functions of
/// the two documents. The order of the errors is left unsaid, and so is the
/// reason why a schema does not compile: of several references that cannot be
/// followed it names the one that a hash set, seeded anew in each process,
/// gives first.
#[verifier::external_body]
fn schema_errors(schema: &serde_json::Value, document: &serde_json::Value) -> (r: Result<
    Vec<(String, String)>,
    String,
>)
    ensures
        match r {
            Ok(found) => schema_report(
                json::document(*schema),
                json::document(*document),
            ) == Some(found.deep_view().to_multiset()),
            Err(_) => schema_report(json::document(*schema), json::document(*document)) is None,
        },
{
    match jsonschema::validator_for(schema) {
        Ok(validator) => Ok(
            validator.iter_errors(document).map(
                |error| (error.instance_path().to_string(), error.to_string()),
            ).collect(),
        ),
        Err(error) => Err(error.to_string()),
    }
}

/// A pair of path and message as a violation.
pub open spec fn violation(found: (Seq<char>, Seq<char>)) -> ViolationView {
    ViolationView { path: found.0, message: found.1 }
}

/// What `found` comes to as a report: ordered by path, then by message, each
/// violation once.
pub open spec fn ordered_report(found: Seq<(Seq<char>, Seq<char>)>) -> Seq<ViolationView> {
    order::deduped(
        order::sorted::<Violation>(
            found.map_values(|pair: (Seq<char>, Seq<char>)| violation(pair)),
        ),
    )
}

/// Orders what was found wrong with a card.
pub fn order_violations(found: Vec<(String, String)>) -> (r: Vec<Violation>)
    ensures
        r.deep_view() == ordered_report(found.deep_view()),
{
    let ghost all = found.deep_view();
    let ghost goal = all.map_values(|pair: (Seq<char>, Seq<char>)| violation(pair));
    let mut violations: Vec<Violation> = Vec::new();
    let mut i: usize = 0;
    while i < found.len()
        invariant
            i <= found@.len(),
            all == found.deep_view(),
            goal == all.map_values(|pair: (Seq<char>, Seq<char>)| violation(pair)),
            violations.deep_view() == goal.take(i as int),
        decreases found@.len() - i,
    {
        let ghost before = violations.deep_view();
        violations.push(Violation { path: found[i].0.clone(), message: found[i].1.clone() });
        proof {
            assert(all[i as int] == found@[i as int].deep_view());
            assert(violations.deep_view() =~= before.push(goal[i as int]));
            assert(goal.take(i + 1) =~= goal.take(i as int).push(goal[i as int]));
        }
        i += 1;
    }
    assert(goal.take(i as int) =~= goal);
    order::dedup(order::sort(violations))
}

/// What `schema` finds wrong with `card`, where it can be applied to it.
pub open spec fn applied_report(schema: JsonView, card: JsonView) -> Option<
    Multiset<(Seq<char>, Seq<char>)>,
> {
    match (json::canonical(schema), json::canonical(card)) {
        (Some(schema), Some(card)) => schema_report(schema, card),
        _ => None,
    }
}

/// What is said of a schema that does not compile.
pub open spec fn uncompilable(reason: Seq<char>) -> Seq<char> {
    "vendored schema does not compile: "@ + reason
}

/// What is said where a number of the schema or of the card is no JSON.
pub open spec fn malformed_number() -> Seq<char> {
    "a number in the schema or the card is malformed"@
}

/// Turns what the schema found wrong with a card, or the reason why it does
/// not compile, into an answer.
pub fn report_violations(found: Result<Vec<(String, String)>, String>) -> (r: Result<
    Vec<Violation>,
    String,
>)
    ensures
        match (found, r) {
            (Ok(found), Ok(violations)) => violations.deep_view() == ordered_report(
                found.deep_view(),
            ),
            (Err(reason), Err(message)) => message@ == uncompilable(reason@),
            _ => false,
        },
{
    match found {
        Ok(found) => Ok(order_violations(found)),
        Err(reason) => {
            let mut message = "vendored schema does not compile: ".to_string();
            message.append(reason.as_str());
            Err(message)
        },
    }
}

/// Why a schema cannot be applied to a card. The reason that `jsonschema`
/// gives where the schema does not compile is left unsaid.
pub open spec fn inapplicable(schema: JsonView, card: JsonView, message: Seq<char>) -> bool {
    if json::canonical(schema) is Some && json::canonical(card) is Some {
        exists|reason: Seq<char>| message == #[trigger] uncompilable(reason)
    } else {
        message == malformed_number()
    }
}

/// Every violation in `card` of the schema in `bundle`, all of them and each
/// once, ordered by position so that the report is stable.
pub fn validate_agent_card(card: &Json, bundle: &str) -> (r: Result<Vec<Violation>, String>)
    ensures
        match card_schema_text(bundle@) {
            Err(reason) => r matches Err(e) && e@ == reason,
            Ok(schema) => match applied_report(schema, card.deep_view()) {
                Some(report) => r matches Ok(violations) && exists|found: Seq<
                    (Seq<char>, Seq<char>),
                >| #[trigger]
                    found.to_multiset() == report && violations.deep_view() == ordered_report(
                        found,
                    ),
                None => r matches Err(e) && inapplicable(schema, card.deep_view(), e@),
            },
        },
{
    let schema = match agent_card_schema(bundle) {
        Ok(schema) => schema,
        Err(reason) => {
            return Err(reason);
        },
    };
    let (schema, card) = match (json::to_value(&schema), json::to_value(card)) {
        (Some(schema), Some(card)) => (schema, card),
        _ => {
            return Err("a number in the schema or the card is malformed".to_string());
        },
    };
    let found = schema_errors(&schema, &card);
    proof {
        match &found {
            Ok(list) => {
                assert(list.deep_view().to_multiset() == list.deep_view().to_multiset());
            },
            Err(reason) => {
                assert(uncompilable(reason@) == uncompilable(reason@));
            },
        }
    }
    report_violations(found)
}

/// Whether every reference in `node` points to a definition in `keys`.
pub open spec fn refs_resolve(node: JsonView, keys: Set<Seq<char>>) -> bool
    decreases node,
{
    match node {
        JsonView::Object(members) => {
            &&& own_reference(members) matches Some(reference) ==> exists|key: Seq<char>|
                keys.contains(key) && reference == #[trigger] pointer(key)
            &&& member_refs_resolve(members, keys)
        },
        JsonView::Array(items) => item_refs_resolve(items, keys),
        _ => true,
    }
}

/// Whether every reference in the values of `members` points into `keys`.
pub open spec fn member_refs_resolve(
    members: Seq<(Seq<char>, JsonView)>,
    keys: Set<Seq<char>>,
) -> bool
    decreases members,
{
    members.len() > 0 ==> member_refs_resolve(members.drop_last(), keys) && refs_resolve(
        members.last().1,
        keys,
    )
}

/// Whether every reference in `items` points into `keys`.
pub open spec fn item_refs_resolve(items: Seq<JsonView>, keys: Set<Seq<char>>) -> bool
    decreases items,
{
    items.len() > 0 ==> item_refs_resolve(items.drop_last(), keys) && refs_resolve(
        items.last(),
        keys,
    )
}

/// Retargeting keeps every key at its place.
pub proof fn lemma_retargeted_keys(members: Seq<(Seq<char>, JsonView)>, keys: Set<Seq<char>>)
    ensures
        retargeted_members(members, keys).len() == members.len(),
        forall|i: int|
            0 <= i < members.len() ==> (#[trigger] retargeted_members(members, keys)[i])
                == (members[i].0, retargeted(members[i].1, keys)),
    decreases members.len(),
{
    if members.len() > 0 {
        let head = members.drop_last();
        lemma_retargeted_keys(head, keys);
        let all = retargeted_members(members, keys);
        let h = retargeted_members(head, keys);
        assert forall|i: int| 0 <= i < members.len() implies (#[trigger] all[i]) == (
            members[i].0,
            retargeted(members[i].1, keys),
        ) by {
            if i < head.len() {
                assert(all[i] == h[i]);
                assert(head[i] == members[i]);
            }
        }
    }
}

proof fn lemma_retargeted_member(
    members: Seq<(Seq<char>, JsonView)>,
    keys: Set<Seq<char>>,
    key: Seq<char>,
)
    ensures
        json::member(retargeted_members(members, keys), key) == match json::member(members, key) {
            Some(value) => Some(retargeted(value, keys)),
            None => None,
        },
{
    let inner = retargeted_members(members, keys);
    lemma_retargeted_keys(members, keys);
    json::lemma_same_keys_same_index(members, inner, key);
    json::lemma_member_index_bounds(members, key);
}

proof fn lemma_members_resolve_each(members: Seq<(Seq<char>, JsonView)>, keys: Set<Seq<char>>)
    ensures
        member_refs_resolve(members, keys) <==> forall|i: int|
            0 <= i < members.len() ==> refs_resolve((#[trigger] members[i]).1, keys),
    decreases members.len(),
{
    if members.len() > 0 {
        let head = members.drop_last();
        lemma_members_resolve_each(head, keys);
        if member_refs_resolve(members, keys) {
            assert forall|i: int| 0 <= i < members.len() implies refs_resolve(
                (#[trigger] members[i]).1,
                keys,
            ) by {
                if i < head.len() {
                    assert(head[i] == members[i]);
                }
            }
        }
        if forall|i: int| 0 <= i < members.len() ==> refs_resolve((#[trigger] members[i]).1, keys) {
            assert forall|i: int| 0 <= i < head.len() implies refs_resolve(
                (#[trigger] head[i]).1,
                keys,
            ) by {
                assert(head[i] == members[i]);
            }
            assert(refs_resolve(members[members.len() - 1].1, keys));
        }
    }
}

proof fn lemma_retargeting_resolves(node: JsonView, keys: Set<Seq<char>>)
    requires
        unplaced(node, keys).len() == 0,
    ensures
        refs_resolve(retargeted(node, keys), keys),
    decreases node,
{
    match node {
        JsonView::Object(members) => {
            lemma_retargeting_members_resolves(members, keys);
            let inner = retargeted_members(members, keys);
            lemma_retargeted_member(members, keys, "$ref"@);
            match own_reference(members) {
                Some(reference) => {
                    let key = reference_key(reference);
                    let target = JsonView::Text(pointer(key));
                    let outer = json::with_member(inner, "$ref"@, target);
                    json::lemma_with_member(inner, "$ref"@, target, "$ref"@);
                    assert(own_reference(outer) == Some(pointer(key)));
                    lemma_members_resolve_each(inner, keys);
                    assert forall|i: int| 0 <= i < outer.len() implies refs_resolve(
                        (#[trigger] outer[i]).1,
                        keys,
                    ) by {
                        json::lemma_member_index_bounds(inner, "$ref"@);
                        if outer[i] != ("$ref"@, target) {
                            assert(outer[i] == inner[i]);
                        }
                    }
                    lemma_members_resolve_each(outer, keys);
                },
                None => {
                    match json::member(members, "$ref"@) {
                        Some(value) => {
                            assert(retargeted(value, keys) !is Text);
                        },
                        None => {},
                    }
                },
            }
        },
        JsonView::Array(items) => {
            lemma_retargeting_items_resolves(items, keys);
        },
        _ => {},
    }
}

proof fn lemma_retargeting_members_resolves(
    members: Seq<(Seq<char>, JsonView)>,
    keys: Set<Seq<char>>,
)
    requires
        unplaced_members(members, keys).len() == 0,
    ensures
        member_refs_resolve(retargeted_members(members, keys), keys),
    decreases members,
{
    if members.len() > 0 {
        lemma_retargeting_members_resolves(members.drop_last(), keys);
        lemma_retargeting_resolves(members.last().1, keys);
        assert(retargeted_members(members, keys).drop_last() =~= retargeted_members(
            members.drop_last(),
            keys,
        ));
    }
}

proof fn lemma_retargeting_items_resolves(items: Seq<JsonView>, keys: Set<Seq<char>>)
    requires
        unplaced_items(items, keys).len() == 0,
    ensures
        item_refs_resolve(retargeted_items(items, keys), keys),
    decreases items,
{
    if items.len() > 0 {
        lemma_retargeting_items_resolves(items.drop_last(), keys);
        lemma_retargeting_resolves(items.last(), keys);
        assert(retargeted_items(items, keys).drop_last() =~= retargeted_items(
            items.drop_last(),
            keys,
        ));
    }
}

proof fn lemma_rehoused(held: Seq<(Seq<char>, JsonView)>, keys: Set<Seq<char>>)
    requires
        forall|i: int| 0 <= i < held.len() ==> refs_resolve((#[trigger] held[i]).1, keys),
    ensures
        forall|i: int|
            0 <= i < rehoused(held).len() ==> {
                &&& refs_resolve((#[trigger] rehoused(held)[i]).1, keys)
                &&& exists|name: Seq<char>| rehoused(held)[i].0 == #[trigger] normalised(name)
            },
        forall|key: Seq<char>|
            definition_keys(held).contains(key) <==> #[trigger] json::member(
                rehoused(held),
                key,
            ) is Some,
    decreases held.len(),
{
    if held.len() > 0 {
        let head = held.drop_last();
        assert forall|i: int| 0 <= i < head.len() implies refs_resolve(
            (#[trigger] head[i]).1,
            keys,
        ) by {
            assert(head[i] == held[i]);
        }
        lemma_rehoused(head, keys);
        let before = rehoused(head);
        let key = normalised(held.last().0);
        let after = rehoused(held);
        json::lemma_member_index_bounds(before, key);
        assert forall|i: int| 0 <= i < after.len() implies {
            &&& refs_resolve((#[trigger] after[i]).1, keys)
            &&& exists|name: Seq<char>| after[i].0 == #[trigger] normalised(name)
        } by {
            if after[i] == (key, held.last().1) {
                assert(refs_resolve(held[held.len() - 1].1, keys));
            } else {
                assert(after[i] == before[i]);
            }
        }
        assert forall|k: Seq<char>|
            definition_keys(held).contains(k) <==> #[trigger] json::member(after, k) is Some by {
            json::lemma_with_member(before, key, held.last().1, k);
            assert(definition_keys(head).contains(k) <==> json::member(before, k) is Some);
        }
    } else {
        assert forall|k: Seq<char>|
            definition_keys(held).contains(k) <==> #[trigger] json::member(
                rehoused(held),
                k,
            ) is Some by {}
    }
}

proof fn lemma_definition_keys_by_name(
    a: Seq<(Seq<char>, JsonView)>,
    b: Seq<(Seq<char>, JsonView)>,
)
    requires
        a.len() == b.len(),
        forall|i: int| 0 <= i < a.len() ==> (#[trigger] a[i]).0 == b[i].0,
    ensures
        definition_keys(a) == definition_keys(b),
    decreases a.len(),
{
    if a.len() > 0 {
        assert(a[a.len() - 1].0 == b[b.len() - 1].0);
        assert forall|i: int| 0 <= i < a.drop_last().len() implies (
        #[trigger] a.drop_last()[i]).0 == b.drop_last()[i].0 by {
            assert(a[i].0 == b[i].0);
        }
        lemma_definition_keys_by_name(a.drop_last(), b.drop_last());
    }
}

proof fn lemma_normalised_alphanumeric(name: Seq<char>, i: int)
    requires
        0 <= i < normalised(name).len(),
    ensures
        is_alphanumeric(normalised(name)[i]),
    decreases name.len(),
{
    if name.len() > 0 {
        if i < normalised(name.drop_last()).len() {
            lemma_normalised_alphanumeric(name.drop_last(), i);
        }
    }
}

proof fn lemma_normalised_again(name: Seq<char>)
    ensures
        normalised(normalised(name)) == normalised(name),
    decreases name.len(),
{
    if name.len() > 0 {
        let head = normalised(name.drop_last());
        lemma_normalised_again(name.drop_last());
        if is_alphanumeric(name.last()) {
            assert(normalised(name).drop_last() =~= head);
        }
    }
}

/// A pointer to a definition names that definition.
pub proof fn lemma_pointer_names_its_key(name: Seq<char>)
    ensures
        reference_key(pointer(normalised(name))) == normalised(name),
{
    let key = normalised(name);
    assert forall|i: int| 0 <= i < key.len() implies key[i] != '.' by {
        lemma_normalised_alphanumeric(name, i);
    }
    reveal_strlit(".jsonschema.json");
    let start = "#/definitions/"@;
    assert(pointer(key).subrange(0, start.len() as int) =~= start);
    assert(pointer(key).skip(start.len() as int) =~= key);
    let tail = ".jsonschema.json"@;
    if tail.is_suffix_of(key) {
        let at = key.len() - tail.len();
        assert(key.subrange(at, key.len() as int)[0] == tail[0]);
        assert(key[at] == '.');
    }
    assert(past_suffix(key, tail) == key);
    assert(!key.contains('.'));
    lemma_normalised_again(name);
}

proof fn lemma_retargeted_twice(node: JsonView, keys: Set<Seq<char>>)
    ensures
        retargeted(retargeted(node, keys), keys) == retargeted(node, keys),
        unplaced(retargeted(node, keys), keys) == unplaced(node, keys),
    decreases node,
{
    match node {
        JsonView::Object(members) => {
            let inner = retargeted_members(members, keys);
            lemma_retargeted_members_twice(members, keys);
            lemma_retargeted_keys(members, keys);
            lemma_retargeted_keys(inner, keys);
            lemma_retargeted_member(members, keys, "$ref"@);
            match own_reference(members) {
                Some(reference) => match placed_reference(reference, keys) {
                    Some(key) => {
                        let target = JsonView::Text(pointer(key));
                        let outer = json::with_member(inner, "$ref"@, target);
                        lemma_pointer_names_its_key(
                            text::after_last(
                                past_suffix(
                                    past_prefix(reference, "#/definitions/"@),
                                    ".jsonschema.json"@,
                                ),
                                '.',
                            ),
                        );
                        json::lemma_with_member(inner, "$ref"@, target, "$ref"@);
                        json::lemma_member_index_bounds(inner, "$ref"@);
                        json::lemma_member_index_bounds(outer, "$ref"@);
                        assert(own_reference(outer) == Some(pointer(key)));
                        assert(placed_reference(pointer(key), keys) == Some(key));
                        lemma_retargeted_keys(outer, keys);
                        assert(retargeted_members(outer, keys) =~= outer) by {
                            assert forall|i: int| 0 <= i < outer.len() implies
                                #[trigger] retargeted_members(outer, keys)[i] == outer[i] by {
                                if outer[i] != ("$ref"@, target) {
                                    assert(outer[i] == inner[i]);
                                    assert(retargeted_members(inner, keys)[i] == inner[i]);
                                }
                            }
                        }
                        assert(json::with_member(outer, "$ref"@, target) =~= outer);
                        let at = json::member_index(inner, "$ref"@)->0;
                        assert(inner[at].1 is Text);
                        lemma_unplaced_by_value(inner, outer, keys);
                    },
                    None => {
                        assert(own_reference(inner) == Some(reference));
                    },
                },
                None => {
                    match json::member(members, "$ref"@) {
                        Some(value) => {
                            assert(retargeted(value, keys) !is Text);
                        },
                        None => {},
                    }
                },
            }
        },
        JsonView::Array(items) => {
            lemma_retargeted_items_twice(items, keys);
        },
        _ => {},
    }
}

proof fn lemma_retargeted_members_twice(members: Seq<(Seq<char>, JsonView)>, keys: Set<Seq<char>>)
    ensures
        retargeted_members(retargeted_members(members, keys), keys) == retargeted_members(
            members,
            keys,
        ),
        unplaced_members(retargeted_members(members, keys), keys) == unplaced_members(
            members,
            keys,
        ),
    decreases members,
{
    if members.len() > 0 {
        lemma_retargeted_members_twice(members.drop_last(), keys);
        lemma_retargeted_twice(members.last().1, keys);
        assert(retargeted_members(members, keys).drop_last() =~= retargeted_members(
            members.drop_last(),
            keys,
        ));
    }
}

proof fn lemma_retargeted_items_twice(items: Seq<JsonView>, keys: Set<Seq<char>>)
    ensures
        retargeted_items(retargeted_items(items, keys), keys) == retargeted_items(items, keys),
        unplaced_items(retargeted_items(items, keys), keys) == unplaced_items(items, keys),
    decreases items,
{
    if items.len() > 0 {
        lemma_retargeted_items_twice(items.drop_last(), keys);
        lemma_retargeted_twice(items.last(), keys);
        assert(retargeted_items(items, keys).drop_last() =~= retargeted_items(
            items.drop_last(),
            keys,
        ));
    }
}

proof fn lemma_unplaced_by_value(
    a: Seq<(Seq<char>, JsonView)>,
    b: Seq<(Seq<char>, JsonView)>,
    keys: Set<Seq<char>>,
)
    requires
        a.len() == b.len(),
        forall|i: int|
            0 <= i < a.len() ==> (#[trigger] a[i]).1 == (#[trigger] b[i]).1 || a[i].1 is Text
                && b[i].1 is Text,
    ensures
        unplaced_members(a, keys) == unplaced_members(b, keys),
    decreases a.len(),
{
    if a.len() > 0 {
        let x = a.drop_last();
        let y = b.drop_last();
        assert forall|i: int| 0 <= i < x.len() implies (#[trigger] x[i]).1 == (#[trigger] y[i]).1
            || x[i].1 is Text && y[i].1 is Text by {
            assert(x[i] == a[i] && y[i] == b[i]);
        }
        lemma_unplaced_by_value(x, y, keys);
        let k = a.len() - 1;
        assert(a[k].1 == b[k].1 || a[k].1 is Text && b[k].1 is Text);
        assert(unplaced(a.last().1, keys) == unplaced(b.last().1, keys));
    }
}

/// Retargeting is done once and for all: a second time it changes nothing,
/// and the references that could not be placed are the same again.
pub proof fn retargeting_twice_changes_nothing(node: JsonView, keys: Set<Seq<char>>)
    ensures
        retargeted(retargeted(node, keys), keys) == retargeted(node, keys),
        unplaced(retargeted(node, keys), keys) == unplaced(node, keys),
{
    lemma_retargeted_twice(node, keys);
}

/// No part of a card goes unvalidated: a schema that is built refers to its
/// own definitions alone, and has every definition that it refers to. A
/// bundle with a reference that cannot be placed builds no schema.
pub proof fn built_schemas_are_self_contained(bundle: JsonView)
    requires
        card_schema(bundle) is Ok,
    ensures
        ({
            let schema = card_schema(bundle)->Ok_0;
            let held = definitions(schema);
            &&& held is Some
            &&& refs_resolve(schema, definition_keys(definitions(bundle)->0))
            &&& forall|key: Seq<char>|
                definition_keys(definitions(bundle)->0).contains(key) <==> #[trigger] json::member(
                    held->0,
                    key,
                ) is Some
        }),
{
    reveal_strlit("$schema");
    reveal_strlit("$ref");
    reveal_strlit("definitions");
    let given = definitions(bundle)->0;
    let keys = definition_keys(given);
    let target = retargeted(bundle, keys);
    lemma_retargeting_resolves(bundle, keys);
    let members = bundle->Object_0;
    let inner = retargeted_members(members, keys);
    lemma_retargeted_member(members, keys, "definitions"@);
    lemma_retargeted_keys(given, keys);
    let moved = definitions(target)->0;
    let outer = target->Object_0;
    assert("$ref"@.len() != "definitions"@.len());
    match own_reference(members) {
        Some(reference) => {
            let text = JsonView::Text(pointer(reference_key(reference)));
            json::lemma_with_member(inner, "$ref"@, text, "definitions"@);
        },
        None => {},
    }
    assert(json::member(outer, "definitions"@) == Some(JsonView::Object(moved)));
    let home = retargeted(JsonView::Object(given), keys);
    assert(home == JsonView::Object(moved));
    assert(refs_resolve(home, keys)) by {
        json::lemma_member_index_bounds(outer, "definitions"@);
        lemma_members_resolve_each(outer, keys);
        let i = json::member_index(outer, "definitions"@)->0;
        assert(refs_resolve(outer[i].1, keys));
    }
    lemma_members_resolve_each(moved, keys);
    lemma_moved_names(given, moved, keys);
    lemma_rehoused(moved, keys);
    let housed = rehoused(moved);
    lemma_members_resolve_each(housed, keys);
    assert(own_reference(housed) is None) by {
        json::lemma_member_index_bounds(housed, "$ref"@);
        if json::member(housed, "$ref"@) is Some {
            let i = json::member_index(housed, "$ref"@)->0;
            assert(housed[i].0 == "$ref"@);
            let name = choose|name: Seq<char>| housed[i].0 == #[trigger] normalised(name);
            assert(normalised(name)[0] == '$');
            lemma_normalised_alphanumeric(name, 0);
        }
    }
    let schema = card_document(moved);
    let top = schema->Object_0;
    assert(refs_resolve(JsonView::Object(housed), keys));
    assert(top[0].0 == "$schema"@ && top[1].0 == "$ref"@ && top[2].0 == "definitions"@);
    assert("$schema"@.len() == 7 && "$ref"@.len() == 4 && "definitions"@.len() == 11);
    json::lemma_member_index_at(top, "$ref"@, 1);
    json::lemma_member_index_at(top, "definitions"@, 2);
    assert(own_reference(top) == Some(pointer(normalised("Agent Card"@))));
    assert forall|i: int| 0 <= i < top.len() implies refs_resolve((#[trigger] top[i]).1, keys) by {}
    lemma_members_resolve_each(top, keys);
    assert(definitions(schema) == Some(housed));
}

proof fn lemma_moved_names(
    given: Seq<(Seq<char>, JsonView)>,
    moved: Seq<(Seq<char>, JsonView)>,
    keys: Set<Seq<char>>,
)
    requires
        retargeted(JsonView::Object(given), keys) == JsonView::Object(moved),
    ensures
        definition_keys(moved) == definition_keys(given),
{
    lemma_retargeted_keys(given, keys);
    let inner = retargeted_members(given, keys);
    json::lemma_member_index_bounds(given, "$ref"@);
    json::lemma_same_keys_same_index(given, inner, "$ref"@);
    assert(moved.len() == given.len());
    assert forall|i: int| 0 <= i < moved.len() implies (#[trigger] moved[i]).0 == given[i].0 by {
        assert(inner[i].0 == given[i].0);
    }
    lemma_definition_keys_by_name(moved, given);
}

/// The report of a card does not depend on the order in which the violations
/// were found. It is ordered, and holds each of them once.
pub proof fn reports_are_stable_and_complete(
    a: Seq<(Seq<char>, Seq<char>)>,
    b: Seq<(Seq<char>, Seq<char>)>,
)
    requires
        a.to_multiset() == b.to_multiset(),
    ensures
        ordered_report(a) == ordered_report(b),
        order::in_order::<Violation>(ordered_report(a)),
        ordered_report(a).no_duplicates(),
        forall|path: Seq<char>, message: Seq<char>|
            ordered_report(a).contains(ViolationView { path, message }) <==> #[trigger] a.contains(
                (path, message),
            ),
{
    let f = |pair: (Seq<char>, Seq<char>)| violation(pair);
    let x = a.map_values(f);
    let y = b.map_values(f);
    order::lemma_mapped_multisets_agree(a, b, f);
    order::sorting_forgets_the_order::<Violation>(x, y);
    order::sorted_is_ordered_rearrangement::<Violation>(x);
    let s = order::sorted::<Violation>(x);
    order::sorted_and_deduped_ascends::<Violation>(s);
    assert forall|path: Seq<char>, message: Seq<char>|
        ordered_report(a).contains(ViolationView { path, message }) <==> #[trigger] a.contains(
            (path, message),
        ) by {
        let v = ViolationView { path, message };
        order::lemma_same_multiset_same_members(s, x, v);
        if a.contains((path, message)) {
            let i = choose|i: int| 0 <= i < a.len() && a[i] == (path, message);
            assert(x[i] == v);
            assert(x.contains(v));
        }
        if x.contains(v) {
            let i = choose|i: int| 0 <= i < x.len() && x[i] == v;
            assert(violation(a[i]) == v);
            assert(a[i] == (path, message));
        }
    }
}

} // verus!
