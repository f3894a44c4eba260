//! What building a schema does to the bundle it is built from.

use vstd::prelude::*;

use crate::card_schema::{
    card_schema, definition_keys, definitions, item_refs_resolve, lemma_pointer_names_its_key,
    lemma_retargeted_keys, member_refs_resolve, normalised, ordered_report, own_reference,
    past_prefix, past_suffix, pointer, reference_key, refs_resolve, rehoused,
    reports_are_stable_and_complete, retargeted, retargeted_items, retargeted_members,
    retargeting_twice_changes_nothing, unplaced, unplaced_items, unplaced_members, Violation,
};
use crate::json;
use crate::json::JsonView;
use crate::order;
use crate::text;

verus! {

/// A name is known by its letters and digits in lower case, one after the
/// other; everything else of it makes no difference.
pub proof fn names_are_known_by_letters_and_digits(a: Seq<char>, b: Seq<char>, c: char)
    ensures
        normalised(a + b) == normalised(a) + normalised(b),
        ('a' <= c <= 'z') || ('0' <= c <= '9') ==> normalised(seq![c]) == seq![c],
        'A' <= c <= 'Z' ==> normalised(seq![c]) == seq![(c as u8 + 32) as u8 as char],
        !(('a' <= c <= 'z') || ('0' <= c <= '9') || ('A' <= c <= 'Z')) ==> normalised(
            seq![c],
        ).len() == 0,
    decreases b.len(),
{
    let one = seq![c];
    assert(one.drop_last() =~= Seq::<char>::empty());
    reveal_with_fuel(normalised, 2);
    assert(Seq::<char>::empty().push(text::lower_char(c)) =~= seq![text::lower_char(c)]);
    if b.len() == 0 {
        assert(a + b =~= a);
        assert(normalised(a) + normalised(b) =~= normalised(a));
    } else {
        names_are_known_by_letters_and_digits(a, b.drop_last(), c);
        assert((a + b).drop_last() =~= a + b.drop_last());
        assert(normalised(a + b) =~= normalised(a) + normalised(b));
    }
}

/// A reference inside the bundle and one to a file, below any package, name
/// the same definition: the one that the type's name is known by.
pub proof fn references_name_a_type(package: Seq<char>, name: Seq<char>)
    requires
        !name.contains('.'),
        !"#/definitions/"@.is_prefix_of(package + seq!['.'] + name + ".jsonschema.json"@),
    ensures
        reference_key("#/definitions/"@ + name) == normalised(name),
        reference_key(package + seq!['.'] + name + ".jsonschema.json"@) == normalised(name),
{
    reveal_strlit("#/definitions/");
    reveal_strlit(".jsonschema.json");
    let inside = "#/definitions/"@ + name;
    assert(inside.subrange(0, 14) =~= "#/definitions/"@);
    assert("#/definitions/"@.is_prefix_of(inside));
    assert(inside.skip(14) =~= name);
    if ".jsonschema.json"@.is_suffix_of(name) {
        let at = name.len() - 16;
        assert(name.subrange(at, name.len() as int)[0] == '.');
        assert(name.contains(name[at]));
    }
    assert(past_suffix(past_prefix(inside, "#/definitions/"@), ".jsonschema.json"@) == name);
    assert(text::after_last(name, '.') == name);
    let full = package + seq!['.'] + name;
    let file = full + ".jsonschema.json"@;
    assert(file.subrange(full.len() as int, file.len() as int) =~= ".jsonschema.json"@);
    assert(".jsonschema.json"@.is_suffix_of(file));
    assert(file.take(file.len() - 16) =~= full);
    text::ends_follow_the_last_separator(full, '.');
    let end = text::after_last(full, '.');
    let n = full.len() - end.len();
    if n < package.len() + 1 {
        assert(end[package.len() - n] == '.');
        assert(end.contains('.'));
    } else if n > package.len() + 1 {
        assert(full[n - 1] == name[n - 2 - package.len()]);
        assert(name.contains('.'));
    }
    assert(end =~= name);
}

/// Retargeting changes nothing but references: numbers, texts and the like
/// stay, arrays keep their items and objects their members, each retargeted and
/// at its place. A reference that names a definition points to it afterwards,
/// and any other reference stays as it was.
pub proof fn retargeting_changes_references_alone(
    members: Seq<(Seq<char>, JsonView)>,
    items: Seq<JsonView>,
    other: JsonView,
    keys: Set<Seq<char>>,
    i: int,
)
    requires
        !(other is Object),
        !(other is Array),
    ensures
        retargeted(other, keys) == other,
        retargeted(JsonView::Array(items), keys) matches JsonView::Array(after) && {
            &&& after.len() == items.len()
            &&& 0 <= i < items.len() ==> after[i] == retargeted(items[i], keys)
        },
        retargeted(JsonView::Object(members), keys) matches JsonView::Object(after) && {
            &&& after.len() == members.len()
            &&& 0 <= i < members.len() ==> after[i].0 == members[i].0
            &&& 0 <= i < members.len() && members[i].0 != "$ref"@ ==> after[i].1 == retargeted(
                members[i].1,
                keys,
            )
            &&& own_reference(members) matches Some(reference) ==> own_reference(after)
                == if keys.contains(reference_key(reference)) {
                Some("#/definitions/"@ + reference_key(reference))
            } else {
                Some(reference)
            }
        },
{
    lemma_retargeted_items(items, keys);
    lemma_retargeted_keys(members, keys);
    let inner = retargeted_members(members, keys);
    json::lemma_member_index_bounds(members, "$ref"@);
    json::lemma_same_keys_same_index(members, inner, "$ref"@);
    if let Some(reference) = own_reference(members) {
        let text = JsonView::Text("#/definitions/"@ + reference_key(reference));
        json::lemma_with_member(inner, "$ref"@, text, "$ref"@);
        let at = json::member_index(members, "$ref"@)->0;
        assert(inner[at] == (members[at].0, retargeted(members[at].1, keys)));
    }
}

proof fn lemma_retargeted_items(items: Seq<JsonView>, keys: Set<Seq<char>>)
    ensures
        retargeted_items(items, keys).len() == items.len(),
        forall|i: int|
            0 <= i < items.len() ==> #[trigger] retargeted_items(items, keys)[i] == retargeted(
                items[i],
                keys,
            ),
    decreases items.len(),
{
    if items.len() > 0 {
        let head = items.drop_last();
        lemma_retargeted_items(head, keys);
        let all = retargeted_items(items, keys);
        let h = retargeted_items(head, keys);
        assert forall|i: int| 0 <= i < items.len() implies #[trigger] all[i] == retargeted(
            items[i],
            keys,
        ) by {
            if i < head.len() {
                assert(all[i] == h[i]);
                assert(head[i] == items[i]);
            }
        }
    }
}

/// A definition is housed under what its name is known by, and the last one
/// stands where several share that.
pub proof fn definitions_are_housed_by_name(held: Seq<(Seq<char>, JsonView)>, i: int)
    requires
        0 <= i < held.len(),
        forall|j: int|
            i < j < held.len() ==> normalised((#[trigger] held[j]).0) != normalised(held[i].0),
    ensures
        json::member(rehoused(held), normalised(held[i].0)) == Some(held[i].1),
        definition_keys(held).contains(normalised(held[i].0)),
    decreases held.len(),
{
    let head = held.drop_last();
    let key = normalised(held[i].0);
    json::lemma_with_member(rehoused(head), normalised(held.last().0), held.last().1, key);
    if i < held.len() - 1 {
        assert(normalised(held[held.len() - 1].0) != key);
        assert forall|j: int| i < j < head.len() implies normalised((#[trigger] head[j]).0)
            != normalised(head[i].0) by {
            assert(head[j] == held[j]);
        }
        definitions_are_housed_by_name(head, i);
    }
}

/// A bundle builds a schema exactly where it has definitions, one of them that
/// of the agent card, and every reference in it names one of them.
pub proof fn bundles_build_a_schema_or_tell_why(bundle: JsonView)
    ensures
        card_schema(bundle) is Ok <==> {
            &&& definitions(bundle) is Some
            &&& definition_keys(definitions(bundle)->0).contains(normalised("Agent Card"@))
            &&& unplaced(bundle, definition_keys(definitions(bundle)->0)).len() == 0
            &&& definitions(retargeted(bundle, definition_keys(definitions(bundle)->0))) is Some
        },
        card_schema(bundle) matches Ok(schema) ==> (schema matches JsonView::Object(members) && {
            &&& members.len() == 3
            &&& members[0].0 == "$schema"@
            &&& members[1] == ("$ref"@, JsonView::Text("#/definitions/"@ + normalised("Agent Card"@)))
            &&& members[2].0 == "definitions"@
        }),
{
}

/// Violations are reported by their path, and those of one path by their
/// message.
pub proof fn reports_go_by_path_and_message(
    found: Seq<(Seq<char>, Seq<char>)>,
    i: int,
    j: int,
)
    requires
        0 <= i < j < ordered_report(found).len(),
    ensures
        ({
            let a = ordered_report(found)[i];
            let b = ordered_report(found)[j];
            &&& text::text_le(a.path, b.path)
            &&& a.path == b.path ==> text::text_le(a.message, b.message)
        }),
{
    reports_are_stable_and_complete(found, found);
    let report = ordered_report(found);
    assert(<Violation as order::Ranked>::ranks(report[i], report[j]));
    text::text_le_reflexive(report[i].path);
}

/// Whether every key is what some name is known by.
pub open spec fn are_known_names(keys: Set<Seq<char>>) -> bool {
    forall|key: Seq<char>| #[trigger]
        keys.contains(key) ==> exists|name: Seq<char>| key == #[trigger] normalised(name)
}

proof fn lemma_resolved_are_placed(node: JsonView, keys: Set<Seq<char>>)
    requires
        are_known_names(keys),
        refs_resolve(node, keys),
    ensures
        unplaced(node, keys).len() == 0,
    decreases node,
{
    match node {
        JsonView::Object(members) => {
            if let Some(reference) = own_reference(members) {
                let key = choose|key: Seq<char>|
                    keys.contains(key) && reference == #[trigger] pointer(key);
                let name = choose|name: Seq<char>| key == #[trigger] normalised(name);
                lemma_pointer_names_its_key(name);
            }
            lemma_resolved_members_are_placed(members, keys);
        },
        JsonView::Array(items) => {
            lemma_resolved_items_are_placed(items, keys);
        },
        _ => {},
    }
}

proof fn lemma_resolved_members_are_placed(
    members: Seq<(Seq<char>, JsonView)>,
    keys: Set<Seq<char>>,
)
    requires
        are_known_names(keys),
        member_refs_resolve(members, keys),
    ensures
        unplaced_members(members, keys).len() == 0,
    decreases members,
{
    if members.len() > 0 {
        lemma_resolved_members_are_placed(members.drop_last(), keys);
        lemma_resolved_are_placed(members.last().1, keys);
    }
}

proof fn lemma_resolved_items_are_placed(items: Seq<JsonView>, keys: Set<Seq<char>>)
    requires
        are_known_names(keys),
        item_refs_resolve(items, keys),
    ensures
        unplaced_items(items, keys).len() == 0,
    decreases items,
{
    if items.len() > 0 {
        lemma_resolved_items_are_placed(items.drop_last(), keys);
        lemma_resolved_are_placed(items.last(), keys);
    }
}

/// A reference counts as one that cannot be placed only where it really cannot:
/// a document whose references all point to definitions once it was retargeted
/// has none.
pub proof fn only_dangling_references_are_reported(node: JsonView, keys: Set<Seq<char>>)
    requires
        are_known_names(keys),
        refs_resolve(retargeted(node, keys), keys),
    ensures
        unplaced(node, keys).len() == 0,
{
    lemma_resolved_are_placed(retargeted(node, keys), keys);
    retargeting_twice_changes_nothing(node, keys);
}

} // verus!
