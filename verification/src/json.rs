//! The passage between canonical values and `serde_json` values, in which
//! the diff engine takes and gives its trees.
//!
//! A `serde_json::Value` is opaque here. `json_model` names what it holds,
//! and each function below that touches one says what it does in terms of
//! that name.

use vstd::prelude::*;
use crate::number::{
    float_of_int, number_as_float, number_as_int, number_from_int, number_model, CanonicalNumber,
    Float, NumberModel,
};
use crate::value::{
    distinct_keys, has_key, key_position, value_items, CanonicalValue, Mapping, ValueModel,
};

verus! {

#[verifier::external_type_specification]
#[verifier::external_body]
pub struct ExJsonValue(serde_json::Value);

/// What a `serde_json::Value` holds. A number stands by `number_model`, an
/// object by its entries in the order in which its map walks them.
pub uninterp spec fn json_model(j: serde_json::Value) -> ValueModel;

/// The entries of the `serde_json::Map` that is collected from these entries,
/// in the order in which the map walks them: by their keys.
pub uninterp spec fn map_entries(entries: Seq<(Seq<char>, ValueModel)>) -> Seq<
    (Seq<char>, ValueModel),
>;

/// What a list of JSON values holds.
pub open spec fn json_items(items: Seq<serde_json::Value>) -> Seq<ValueModel> {
    Seq::new(items.len(), |i: int| json_model(items[i]))
}

/// What a list of JSON entries holds.
pub open spec fn json_entries(entries: Seq<(String, serde_json::Value)>) -> Seq<
    (Seq<char>, ValueModel),
> {
    Seq::new(entries.len(), |i: int| (entries[i].0@, json_model(entries[i].1)))
}

/// What a list of borrowed JSON entries holds.
pub open spec fn json_entry_refs(entries: Seq<(&String, &serde_json::Value)>) -> Seq<
    (Seq<char>, ValueModel),
> {
    Seq::new(entries.len(), |i: int| (entries[i].0@, json_model(*entries[i].1)))
}

/// `serde_json::Value::Null`.
#[verifier::external_body]
fn json_null() -> (r: serde_json::Value)
    ensures
        json_model(r) == ValueModel::Null,
{
    serde_json::Value::Null
}

/// `serde_json::Value::Bool`.
#[verifier::external_body]
fn json_bool(b: bool) -> (r: serde_json::Value)
    ensures
        json_model(r) == ValueModel::Bool(b),
{
    serde_json::Value::Bool(b)
}

/// `serde_json::Value::Number`, of a copy of the number.
#[verifier::external_body]
fn json_number(n: &serde_json::Number) -> (r: serde_json::Value)
    ensures
        json_model(r) == ValueModel::Number(number_model(*n)),
{
    serde_json::Value::Number(n.clone())
}

/// `serde_json::Value::String`, of a copy of the text.
#[verifier::external_body]
fn json_string(s: &String) -> (r: serde_json::Value)
    ensures
        json_model(r) == ValueModel::String(s@),
{
    serde_json::Value::String(s.clone())
}

/// `serde_json::Value::Array`.
#[verifier::external_body]
fn json_array(items: Vec<serde_json::Value>) -> (r: serde_json::Value)
    ensures
        json_model(r) == ValueModel::Array(json_items(items@)),
{
    serde_json::Value::Array(items)
}

/// `serde_json::Value::Object`, of the `serde_json::Map` that `FromIterator`
/// collects from the entries. The map holds no key twice, and of entries with
/// distinct keys it holds each, once.
#[verifier::external_body]
fn json_object(entries: Vec<(String, serde_json::Value)>) -> (r: serde_json::Value)
    ensures
        json_model(r) == ValueModel::Object(map_entries(json_entries(entries@))),
        distinct_keys(json_model(r)->Object_0),
        distinct_keys(json_entries(entries@)) ==> json_model(r)->Object_0.to_multiset()
            == json_entries(entries@).to_multiset(),
{
    serde_json::Value::Object(entries.into_iter().collect())
}

/// The six variants of a `serde_json::Value`, with what each holds.
pub(crate) enum JsonParts<'a> {
    Null,
    Bool(bool),
    Number(&'a serde_json::Number),
    String(&'a str),
    Array(&'a Vec<serde_json::Value>),
    /// The entries of the map, in the order in which it walks them.
    Object(Vec<(&'a String, &'a serde_json::Value)>),
}

/// The variant of a `serde_json::Value` and what it holds; for an object, the
/// entries that `serde_json::Map::iter` walks. A map holds no key twice.
#[verifier::external_body]
fn json_parts(j: &serde_json::Value) -> (parts: JsonParts<'_>)
    ensures
        match parts {
            JsonParts::Null => json_model(*j) == ValueModel::Null,
            JsonParts::Bool(b) => json_model(*j) == ValueModel::Bool(b),
            JsonParts::Number(n) => json_model(*j) == ValueModel::Number(number_model(*n)),
            JsonParts::String(s) => json_model(*j) == ValueModel::String(s@),
            JsonParts::Array(items) => json_model(*j) == ValueModel::Array(json_items(items@)),
            JsonParts::Object(entries) => json_model(*j) == ValueModel::Object(
                json_entry_refs(entries@),
            ) && distinct_keys(json_entry_refs(entries@)),
        },
{
    match j {
        serde_json::Value::Null => JsonParts::Null,
        serde_json::Value::Bool(b) => JsonParts::Bool(*b),
        serde_json::Value::Number(n) => JsonParts::Number(n),
        serde_json::Value::String(s) => JsonParts::String(s),
        serde_json::Value::Array(items) => JsonParts::Array(items),
        serde_json::Value::Object(map) => JsonParts::Object(map.iter().collect()),
    }
}

/// What the engine is handed for a canonical value: the same tree, the entries
/// of each mapping as the JSON map keeps them.
pub open spec fn json_image(v: ValueModel) -> ValueModel
    decreases v,
{
    match v {
        ValueModel::Array(items) => ValueModel::Array(
            Seq::new(
                items.len(),
                |i: int|
                    if 0 <= i < items.len() {
                        json_image(items[i])
                    } else {
                        ValueModel::Null
                    },
            ),
        ),
        ValueModel::Object(entries) => ValueModel::Object(map_entries(json_image_entries(entries))),
        other => other,
    }
}

/// The entries of a mapping, each value as the engine is handed it.
pub open spec fn json_image_entries(entries: Seq<(Seq<char>, ValueModel)>) -> Seq<
    (Seq<char>, ValueModel),
>
    decreases entries,
{
    Seq::new(
        entries.len(),
        |i: int|
            if 0 <= i < entries.len() {
                (entries[i].0, json_image(entries[i].1))
            } else {
                (Seq::empty(), ValueModel::Null)
            },
    )
}

/// The canonical number for a JSON number: an integer of 64 signed bits stays
/// an integer, a float stays a float, and a larger integer becomes the float
/// that the JSON library makes of it. A number without one becomes null.
pub open spec fn canonical_number(m: NumberModel) -> ValueModel {
    match m {
        NumberModel::Float(bits) => ValueModel::Number(m),
        NumberModel::Int(k) => if i64::MIN <= k <= i64::MAX {
            ValueModel::Number(m)
        } else {
            match float_of_int(k) {
                Some(bits) => ValueModel::Number(NumberModel::Float(bits)),
                None => ValueModel::Null,
            }
        },
    }
}

/// The canonical value for what a JSON value holds: the same tree, every
/// number a canonical number.
pub open spec fn canonical_image(v: ValueModel) -> ValueModel
    decreases v,
{
    match v {
        ValueModel::Number(m) => canonical_number(m),
        ValueModel::Array(items) => ValueModel::Array(
            Seq::new(
                items.len(),
                |i: int|
                    if 0 <= i < items.len() {
                        canonical_image(items[i])
                    } else {
                        ValueModel::Null
                    },
            ),
        ),
        ValueModel::Object(entries) => ValueModel::Object(
            Seq::new(
                entries.len(),
                |i: int|
                    if 0 <= i < entries.len() {
                        (entries[i].0, canonical_image(entries[i].1))
                    } else {
                        (Seq::empty(), ValueModel::Null)
                    },
            ),
        ),
        other => other,
    }
}

/// Hands a canonical value over as a JSON value. What is handed over is the
/// same value: only the order of the entries of mappings may be another.
pub(crate) fn to_json(value: &CanonicalValue) -> (r: serde_json::Value)
    ensures
        json_model(r) == json_image(value@),
        value@.same_as(json_model(r)),
    decreases value@,
{
    match value {
        CanonicalValue::Null => json_null(),
        CanonicalValue::Bool(b) => json_bool(*b),
        CanonicalValue::Number(CanonicalNumber::Int(i)) => {
            let n = number_from_int(*i);
            json_number(&n)
        },
        CanonicalValue::Number(CanonicalNumber::Float(f)) => json_number(f.as_number()),
        CanonicalValue::String(s) => json_string(s),
        CanonicalValue::Array(items) => {
            let mut converted: Vec<serde_json::Value> = Vec::new();
            let mut i: usize = 0;
            assert(value@->Array_0 =~= value_items(items@));
            while i < items.len()
                invariant
                    i <= items.len(),
                    converted.len() == i,
                    value@ == ValueModel::Array(value_items(items@)),
                    forall|j: int|
                        0 <= j < i ==> json_model(#[trigger] converted[j]) == json_image(items[j]@)
                            && items[j]@.same_as(json_model(converted[j])),
                decreases items.len() - i,
            {
                proof {
                    assert(value_items(items@)[i as int] == items[i as int]@);
                    vstd::seq::axiom_seq_index_decreases(value@->Array_0, i as int);
                }
                converted.push(to_json(&items[i]));
                i = i + 1;
            }
            proof {
                assert(json_items(converted@) =~= json_image(value@)->Array_0);
                assert forall|j: int| 0 <= j < items.len() implies (
                #[trigger] value_items(items@)[j]).same_as(json_items(converted@)[j]) by {
                    assert(items[j]@.same_as(json_model(converted[j])));
                }
            }
            json_array(converted)
        },
        CanonicalValue::Object(mapping) => {
            let mut converted: Vec<(String, serde_json::Value)> = Vec::new();
            let n = mapping.len();
            let mut i: usize = 0;
            while i < n
                invariant
                    i <= n,
                    n == mapping@.len(),
                    converted.len() == i,
                    value@ == ValueModel::Object(mapping@),
                    forall|j: int|
                        0 <= j < i ==> (#[trigger] converted[j]).0@ == mapping@[j].0 && json_model(
                            converted[j].1,
                        ) == json_image(mapping@[j].1) && mapping@[j].1.same_as(
                            json_model(converted[j].1),
                        ),
                decreases n - i,
            {
                proof {
                    vstd::seq::axiom_seq_index_decreases(value@->Object_0, i as int);
                }
                let item = to_json(mapping.value(i));
                converted.push((mapping.key(i).clone(), item));
                i = i + 1;
            }
            let ghost handed = json_entries(converted@);
            assert(handed =~= json_image_entries(mapping@));
            let r = json_object(converted);
            proof {
                lemma_same_entries(mapping@, handed, json_model(r)->Object_0);
            }
            r
        },
    }
}

/// Entries that were handed over under the keys of a mapping, each value the
/// same value, and then kept as a map keeps them, are the same mapping.
proof fn lemma_same_entries(
    entries: Seq<(Seq<char>, ValueModel)>,
    handed: Seq<(Seq<char>, ValueModel)>,
    held: Seq<(Seq<char>, ValueModel)>,
)
    requires
        distinct_keys(entries),
        distinct_keys(held),
        handed.len() == entries.len(),
        forall|i: int|
            0 <= i < entries.len() ==> (#[trigger] handed[i]).0 == entries[i].0 && entries[i].1.same_as(
                handed[i].1,
            ),
        distinct_keys(handed) ==> held.to_multiset() == handed.to_multiset(),
    ensures
        ValueModel::Object(entries).same_as(ValueModel::Object(held)),
{
    assert forall|i: int, j: int| 0 <= i < j < handed.len() implies (#[trigger] handed[i]).0 != (
    #[trigger] handed[j]).0 by {
        assert(entries[i].0 != entries[j].0);
    }
    assert(distinct_keys(handed));
    held.to_multiset_ensures();
    handed.to_multiset_ensures();
    assert(held.len() == handed.len());
    assert forall|i: int| 0 <= i < entries.len() implies has_key(held, (#[trigger] entries[i]).0)
        && entries[i].1.same_as(held[key_position(held, entries[i].0)].1) by {
        assert(handed.contains(handed[i]));
        assert(held.to_multiset().count(handed[i]) > 0);
        assert(held.contains(handed[i]));
        let j = choose|j: int| 0 <= j < held.len() && held[j] == handed[i];
        assert(held[j].0 == entries[i].0);
        let p = key_position(held, entries[i].0);
        assert(held[p].0 == entries[i].0);
        if p < j {
            assert(held[p].0 != held[j].0);
        } else if j < p {
            assert(held[j].0 != held[p].0);
        }
    }
}

/// Takes the canonical number out of a JSON number.
fn number_from_json(n: &serde_json::Number) -> (r: CanonicalValue)
    ensures
        r@ == canonical_number(number_model(*n)),
        r@.wf(),
{
    if let Some(f) = Float::copy_of(n) {
        CanonicalValue::Number(CanonicalNumber::Float(f))
    } else if let Some(i) = number_as_int(n) {
        CanonicalValue::Number(CanonicalNumber::Int(i))
    } else {
        match number_as_float(n) {
            Some(number) => match Float::from_number(number) {
                Some(f) => CanonicalValue::Number(CanonicalNumber::Float(f)),
                None => unreached(),
            },
            None => CanonicalValue::Null,
        }
    }
}

/// Takes the canonical value out of a JSON value.
pub(crate) fn from_json(j: &serde_json::Value) -> (r: CanonicalValue)
    ensures
        r@ == canonical_image(json_model(*j)),
        r@.wf(),
    decreases json_model(*j),
{
    let ghost whole = json_model(*j);
    match json_parts(j) {
        JsonParts::Null => CanonicalValue::Null,
        JsonParts::Bool(b) => CanonicalValue::Bool(b),
        JsonParts::Number(n) => number_from_json(n),
        JsonParts::String(s) => CanonicalValue::String(s.to_owned()),
        JsonParts::Array(items) => {
            let mut converted: Vec<CanonicalValue> = Vec::new();
            let mut i: usize = 0;
            while i < items.len()
                invariant
                    i <= items.len(),
                    converted.len() == i,
                    whole == json_model(*j),
                    whole == ValueModel::Array(json_items(items@)),
                    forall|k: int|
                        0 <= k < i ==> (#[trigger] converted[k])@ == canonical_image(
                            json_model(items[k]),
                        ) && converted[k]@.wf(),
                decreases items.len() - i,
            {
                proof {
                    assert(json_items(items@)[i as int] == json_model(items[i as int]));
                    vstd::seq::axiom_seq_index_decreases(whole->Array_0, i as int);
                }
                converted.push(from_json(&items[i]));
                i = i + 1;
            }
            assert(CanonicalValue::Array(converted)@->Array_0 =~= canonical_image(whole)->Array_0);
            assert(CanonicalValue::Array(converted)@->Array_0 =~= value_items(converted@));
            CanonicalValue::Array(converted)
        },
        JsonParts::Object(entries) => {
            let ghost all = json_entry_refs(entries@);
            let mut converted = Mapping::new();
            let mut i: usize = 0;
            while i < entries.len()
                invariant
                    i <= entries.len(),
                    whole == json_model(*j),
                    whole == ValueModel::Object(all),
                    all == json_entry_refs(entries@),
                    distinct_keys(all),
                    distinct_keys(converted@),
                    converted@.len() == i,
                    forall|k: int|
                        0 <= k < i ==> (#[trigger] converted@[k]).0 == all[k].0 && converted@[k].1
                            == canonical_image(all[k].1) && converted@[k].1.wf(),
                decreases entries.len() - i,
            {
                proof {
                    vstd::seq::axiom_seq_index_decreases(whole->Object_0, i as int);
                    assert(decreases_to!(whole->Object_0[i as int] => whole->Object_0[i as int].1));
                    assert(all[i as int] == (entries[i as int].0@, json_model(*entries[i as int].1)));
                    assert(!has_key(converted@, entries[i as int].0@)) by {
                        if has_key(converted@, entries[i as int].0@) {
                            let p = key_position(converted@, entries[i as int].0@);
                            assert(converted@[p].0 == all[p].0);
                            assert(all[p].0 != all[i as int].0);
                        }
                    }
                }
                let item = from_json(entries[i].1);
                converted.push_new(entries[i].0.clone(), item);
                i = i + 1;
            }
            assert(converted@ =~= canonical_image(whole)->Object_0);
            CanonicalValue::Object(converted)
        },
    }
}

} // verus!
