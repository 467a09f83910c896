//! The two converters between host values and canonical values.

use vstd::prelude::*;
use crate::error::{BridgeError, ErrorModel};
use crate::host::{host_entries, host_items, HostModel, HostValue};
use crate::number::{CanonicalNumber, NumberModel};
use crate::value::{
    distinct_keys, has_key, insert_entry, key_position, lemma_insert_keeps_distinct, value_items,
    CanonicalValue, Mapping, ValueModel,
};

verus! {

/// How deep containers may be nested in a host value. A value nested deeper
/// is taken to refer to itself.
pub const MAX_DEPTH: usize = 128;

/// The canonical form of a host value whose containers may still be nested
/// `depth` deep, or the first failure met on the way through it.
pub open spec fn canonical_of(h: HostModel, depth: nat) -> Result<ValueModel, ErrorModel>
    decreases depth, 1nat,
{
    match h {
        HostModel::Nil => Ok(ValueModel::Null),
        HostModel::Bool(b) => Ok(ValueModel::Bool(b)),
        HostModel::Int(i) => Ok(ValueModel::Number(NumberModel::Int(i as int))),
        HostModel::Float(bits) => Ok(ValueModel::Number(NumberModel::Float(bits))),
        HostModel::NonFinite(_) => Ok(ValueModel::Number(NumberModel::Int(0))),
        HostModel::Text(s) => Ok(ValueModel::String(s)),
        HostModel::List(items) => canonical_sequence(items, depth),
        HostModel::Tuple(items) => canonical_sequence(items, depth),
        HostModel::Dict(entries) => if depth == 0 {
            Err(ErrorModel::CyclicStructure)
        } else {
            match canonical_entries(entries, (depth - 1) as nat) {
                Ok(converted) => Ok(ValueModel::Object(converted)),
                Err(e) => Err(e),
            }
        },
        HostModel::Other(kind) => Err(ErrorModel::UnsupportedType { kind }),
    }
}

/// The canonical form of an ordered sequence container.
pub open spec fn canonical_sequence(items: Seq<HostModel>, depth: nat) -> Result<
    ValueModel,
    ErrorModel,
>
    decreases depth, 0nat,
{
    if depth == 0 {
        Err(ErrorModel::CyclicStructure)
    } else {
        match canonical_items(items, (depth - 1) as nat) {
            Ok(converted) => Ok(ValueModel::Array(converted)),
            Err(e) => Err(e),
        }
    }
}

/// The canonical forms of the items, in order, or the first failure.
pub open spec fn canonical_items(items: Seq<HostModel>, depth: nat) -> Result<
    Seq<ValueModel>,
    ErrorModel,
>
    decreases depth, items.len() + 2,
{
    if items.len() == 0 {
        Ok(Seq::empty())
    } else {
        match canonical_items(items.drop_last(), depth) {
            Err(e) => Err(e),
            Ok(converted) => match canonical_of(items.last(), depth) {
                Err(e) => Err(e),
                Ok(v) => Ok(converted.push(v)),
            },
        }
    }
}

/// The canonical entries of a key-value container, or the first failure. Every
/// key has to be text; an entry whose key came before takes that key's place.
pub open spec fn canonical_entries(entries: Seq<(HostModel, HostModel)>, depth: nat) -> Result<
    Seq<(Seq<char>, ValueModel)>,
    ErrorModel,
>
    decreases depth, entries.len() + 2,
{
    if entries.len() == 0 {
        Ok(Seq::empty())
    } else {
        match canonical_entries(entries.drop_last(), depth) {
            Err(e) => Err(e),
            Ok(converted) => match entries.last().0 {
                HostModel::Text(key) => match canonical_of(entries.last().1, depth) {
                    Err(e) => Err(e),
                    Ok(v) => Ok(insert_entry(converted, key, v)),
                },
                other => Err(ErrorModel::UnsupportedType { kind: other.kind_name() }),
            },
        }
    }
}

/// A failure among the first items is the failure of the whole list.
proof fn lemma_items_failure_stays(items: Seq<HostModel>, n: int, depth: nat)
    requires
        0 <= n <= items.len(),
        canonical_items(items.take(n), depth) is Err,
    ensures
        canonical_items(items, depth) == canonical_items(items.take(n), depth),
    decreases items.len() - n,
{
    if n < items.len() {
        assert(items.take(n + 1).drop_last() =~= items.take(n));
        lemma_items_failure_stays(items, n + 1, depth);
    } else {
        assert(items.take(n) =~= items);
    }
}

/// A failure among the first entries is the failure of the whole container.
proof fn lemma_entries_failure_stays(entries: Seq<(HostModel, HostModel)>, n: int, depth: nat)
    requires
        0 <= n <= entries.len(),
        canonical_entries(entries.take(n), depth) is Err,
    ensures
        canonical_entries(entries, depth) == canonical_entries(entries.take(n), depth),
    decreases entries.len() - n,
{
    if n < entries.len() {
        assert(entries.take(n + 1).drop_last() =~= entries.take(n));
        lemma_entries_failure_stays(entries, n + 1, depth);
    } else {
        assert(entries.take(n) =~= entries);
    }
}

/// Converts a host value into its canonical form.
///
/// The kinds are asked for in a fixed order, the boolean before the integer:
/// the host counts its booleans among the integers, and a boolean has to stay
/// one. A float that is infinite or not a number becomes the integer zero.
pub fn to_canonical(value: &HostValue) -> (r: Result<CanonicalValue, BridgeError>)
    ensures
        match r {
            Ok(v) => canonical_of(value@, MAX_DEPTH as nat) == Ok::<ValueModel, ErrorModel>(v@),
            Err(e) => canonical_of(value@, MAX_DEPTH as nat) == Err::<ValueModel, ErrorModel>(e@),
        },
        r matches Ok(v) ==> v@.wf() && v@.fits(MAX_DEPTH as nat),
{
    proof {
        lemma_canonical_is_valid(value@, MAX_DEPTH as nat);
    }
    convert(value, MAX_DEPTH)
}

fn convert(value: &HostValue, depth: usize) -> (r: Result<CanonicalValue, BridgeError>)
    ensures
        match r {
            Ok(v) => canonical_of(value@, depth as nat) == Ok::<ValueModel, ErrorModel>(v@),
            Err(e) => canonical_of(value@, depth as nat) == Err::<ValueModel, ErrorModel>(e@),
        },
    decreases depth, 0nat,
{
    if value.is_nil() {
        Ok(CanonicalValue::Null)
    } else if let Some(b) = value.as_bool() {
        Ok(CanonicalValue::Bool(b))
    } else if let Some(i) = value.as_int() {
        Ok(CanonicalValue::Number(CanonicalNumber::Int(i)))
    } else if let Some(f) = value.as_float() {
        Ok(CanonicalValue::Number(CanonicalNumber::Float(f.clone())))
    } else if value.as_non_finite().is_some() {
        Ok(CanonicalValue::Number(CanonicalNumber::Int(0)))
    } else if let Some(s) = value.as_text() {
        Ok(CanonicalValue::String(s.clone()))
    } else if let Some(items) = value.as_sequence() {
        if depth == 0 {
            Err(BridgeError::CyclicStructure)
        } else {
            match convert_items(items, depth - 1) {
                Ok(converted) => {
                    assert(CanonicalValue::Array(converted)@->Array_0 =~= value_items(converted@));
                    Ok(CanonicalValue::Array(converted))
                },
                Err(e) => Err(e),
            }
        }
    } else if let Some(entries) = value.as_mapping() {
        if depth == 0 {
            Err(BridgeError::CyclicStructure)
        } else {
            match convert_entries(entries, depth - 1) {
                Ok(converted) => Ok(CanonicalValue::Object(converted)),
                Err(e) => Err(e),
            }
        }
    } else {
        Err(BridgeError::UnsupportedType { kind: value.kind_name() })
    }
}

fn convert_items(items: &Vec<HostValue>, depth: usize) -> (r: Result<
    Vec<CanonicalValue>,
    BridgeError,
>)
    ensures
        match r {
            Ok(converted) => canonical_items(host_items(items@), depth as nat) == Ok::<
                Seq<ValueModel>,
                ErrorModel,
            >(value_items(converted@)),
            Err(e) => canonical_items(host_items(items@), depth as nat) == Err::<
                Seq<ValueModel>,
                ErrorModel,
            >(e@),
        },
    decreases depth, 1nat,
{
    let ghost all = host_items(items@);
    let mut converted: Vec<CanonicalValue> = Vec::new();
    let mut i: usize = 0;
    assert(all.take(0) =~= Seq::<HostModel>::empty());
    assert(value_items(converted@) =~= Seq::<ValueModel>::empty());
    while i < items.len()
        invariant
            i <= items.len(),
            all == host_items(items@),
            canonical_items(all.take(i as int), depth as nat) == Ok::<Seq<ValueModel>, ErrorModel>(
                value_items(converted@),
            ),
        decreases items.len() - i,
    {
        proof {
            assert(all.take(i + 1).drop_last() =~= all.take(i as int));
            assert(all.take(i + 1).last() == items[i as int]@);
        }
        match convert(&items[i], depth) {
            Ok(v) => {
                let ghost before = value_items(converted@);
                converted.push(v);
                assert(value_items(converted@) =~= before.push(v@));
            },
            Err(e) => {
                proof {
                    lemma_items_failure_stays(all, i + 1, depth as nat);
                }
                return Err(e);
            },
        }
        i = i + 1;
    }
    assert(all.take(i as int) =~= all);
    Ok(converted)
}

fn convert_entries(entries: &Vec<(HostValue, HostValue)>, depth: usize) -> (r: Result<
    Mapping,
    BridgeError,
>)
    ensures
        match r {
            Ok(converted) => canonical_entries(host_entries(entries@), depth as nat) == Ok::<
                Seq<(Seq<char>, ValueModel)>,
                ErrorModel,
            >(converted@),
            Err(e) => canonical_entries(host_entries(entries@), depth as nat) == Err::<
                Seq<(Seq<char>, ValueModel)>,
                ErrorModel,
            >(e@),
        },
    decreases depth, 1nat,
{
    let ghost all = host_entries(entries@);
    let mut converted = Mapping::new();
    let mut i: usize = 0;
    assert(all.take(0) =~= Seq::<(HostModel, HostModel)>::empty());
    while i < entries.len()
        invariant
            i <= entries.len(),
            all == host_entries(entries@),
            canonical_entries(all.take(i as int), depth as nat) == Ok::<
                Seq<(Seq<char>, ValueModel)>,
                ErrorModel,
            >(converted@),
        decreases entries.len() - i,
    {
        proof {
            assert(all.take(i + 1).drop_last() =~= all.take(i as int));
            assert(all.take(i + 1).last() == (entries[i as int].0@, entries[i as int].1@));
        }
        let key = match entries[i].0.as_text() {
            Some(key) => key.clone(),
            None => {
                proof {
                    lemma_entries_failure_stays(all, i + 1, depth as nat);
                }
                return Err(BridgeError::UnsupportedType { kind: entries[i].0.kind_name() });
            },
        };
        match convert(&entries[i].1, depth) {
            Ok(v) => {
                converted.insert(key, v);
            },
            Err(e) => {
                proof {
                    lemma_entries_failure_stays(all, i + 1, depth as nat);
                }
                return Err(e);
            },
        }
        i = i + 1;
    }
    assert(all.take(i as int) =~= all);
    Ok(converted)
}

/// The host form of the items, in order.
pub open spec fn dynamic_items(items: Seq<ValueModel>) -> Seq<HostModel> {
    Seq::new(items.len(), |i: int| dynamic_of(items[i]))
}

/// The host form of the entries, in order, each under its key as text.
pub open spec fn dynamic_entries(entries: Seq<(Seq<char>, ValueModel)>) -> Seq<
    (HostModel, HostModel),
> {
    Seq::new(entries.len(), |i: int| (HostModel::Text(entries[i].0), dynamic_of(entries[i].1)))
}

/// The host form of a canonical value: an integer for an integer, a float for
/// a float, a list for a sequence, and a key-value container that keeps the
/// order of the entries for a mapping.
pub open spec fn dynamic_of(v: ValueModel) -> HostModel
    decreases v,
{
    match v {
        ValueModel::Null => HostModel::Nil,
        ValueModel::Bool(b) => HostModel::Bool(b),
        ValueModel::Number(NumberModel::Int(k)) => HostModel::Int(k as i64),
        ValueModel::Number(NumberModel::Float(bits)) => HostModel::Float(bits),
        ValueModel::String(s) => HostModel::Text(s),
        ValueModel::Array(items) => HostModel::List(
            Seq::new(
                items.len(),
                |i: int|
                    if 0 <= i < items.len() {
                        dynamic_of(items[i])
                    } else {
                        HostModel::Nil
                    },
            ),
        ),
        ValueModel::Object(entries) => HostModel::Dict(
            Seq::new(
                entries.len(),
                |i: int|
                    if 0 <= i < entries.len() {
                        (HostModel::Text(entries[i].0), dynamic_of(entries[i].1))
                    } else {
                        (HostModel::Nil, HostModel::Nil)
                    },
            ),
        ),
    }
}

/// The host form of a sequence is the list of its items' host forms, that of a
/// mapping the container of its entries' host forms.
pub proof fn lemma_dynamic_of_containers(v: ValueModel)
    ensures
        v matches ValueModel::Array(items) ==> dynamic_of(v) == HostModel::List(
            dynamic_items(items),
        ),
        v matches ValueModel::Object(entries) ==> dynamic_of(v) == HostModel::Dict(
            dynamic_entries(entries),
        ),
{
    match v {
        ValueModel::Array(items) => {
            assert(dynamic_of(v)->List_0 =~= dynamic_items(items));
        },
        ValueModel::Object(entries) => {
            assert(dynamic_of(v)->Dict_0 =~= dynamic_entries(entries));
        },
        _ => {},
    }
}

/// Converts a canonical value into its host form. Every canonical value has
/// one.
pub fn to_dynamic(value: &CanonicalValue) -> (r: HostValue)
    ensures
        r@ == dynamic_of(value@),
    decreases value@,
{
    match value {
        CanonicalValue::Null => HostValue::Nil,
        CanonicalValue::Bool(b) => HostValue::Bool(*b),
        CanonicalValue::Number(CanonicalNumber::Int(i)) => HostValue::Int(*i),
        CanonicalValue::Number(CanonicalNumber::Float(f)) => HostValue::Float(f.clone()),
        CanonicalValue::String(s) => HostValue::Text(s.clone()),
        CanonicalValue::Array(items) => {
            let mut converted: Vec<HostValue> = Vec::new();
            let mut i: usize = 0;
            assert(value@->Array_0 =~= value_items(items@));
            while i < items.len()
                invariant
                    i <= items.len(),
                    converted.len() == i,
                    value@ == ValueModel::Array(value_items(items@)),
                    forall|j: int| 0 <= j < i ==> (#[trigger] converted[j])@ == dynamic_of(items[j]@),
                decreases items.len() - i,
            {
                proof {
                    assert(value_items(items@)[i as int] == items[i as int]@);
                    vstd::seq::axiom_seq_index_decreases(value@->Array_0, i as int);
                }
                converted.push(to_dynamic(&items[i]));
                i = i + 1;
            }
            proof {
                lemma_dynamic_of_containers(value@);
                assert(HostValue::List(converted)@->List_0 =~= dynamic_items(value_items(items@)));
            }
            HostValue::List(converted)
        },
        CanonicalValue::Object(mapping) => {
            let mut converted: Vec<(HostValue, HostValue)> = Vec::new();
            let n = mapping.len();
            let mut i: usize = 0;
            while i < n
                invariant
                    i <= n,
                    n == mapping@.len(),
                    converted.len() == i,
                    value@ == ValueModel::Object(mapping@),
                    forall|j: int|
                        0 <= j < i ==> (#[trigger] converted[j]).0@ == HostModel::Text(mapping@[j].0)
                            && converted[j].1@ == dynamic_of(mapping@[j].1),
                decreases n - i,
            {
                let key = HostValue::Text(mapping.key(i).clone());
                proof {
                    vstd::seq::axiom_seq_index_decreases(value@->Object_0, i as int);
                }
                let item = to_dynamic(mapping.value(i));
                converted.push((key, item));
                i = i + 1;
            }
            proof {
                lemma_dynamic_of_containers(value@);
                assert(HostValue::Dict(converted)@->Dict_0 =~= dynamic_entries(mapping@));
            }
            HostValue::Dict(converted)
        },
    }
}

impl HostModel {
    /// The value can be converted when its containers may still be nested
    /// `depth` deep: it holds no value of another kind, every key is text, and
    /// nothing is nested deeper.
    pub open spec fn convertible(self, depth: nat) -> bool
        decreases self,
    {
        match self {
            HostModel::List(items) => depth > 0 && forall|i: int|
                0 <= i < items.len() ==> (#[trigger] items[i]).convertible((depth - 1) as nat),
            HostModel::Tuple(items) => depth > 0 && forall|i: int|
                0 <= i < items.len() ==> (#[trigger] items[i]).convertible((depth - 1) as nat),
            HostModel::Dict(entries) => depth > 0 && forall|i: int|
                0 <= i < entries.len() ==> (#[trigger] entries[i]).0 is Text && entries[i].1.convertible(
                    (depth - 1) as nat,
                ),
            HostModel::Other(_) => false,
            _ => true,
        }
    }
}

/// The items convert exactly when each of them does, and then one by one.
proof fn lemma_items_pointwise(items: Seq<HostModel>, depth: nat)
    ensures
        canonical_items(items, depth) is Ok <==> forall|i: int|
            0 <= i < items.len() ==> canonical_of(#[trigger] items[i], depth) is Ok,
        canonical_items(items, depth) matches Ok(converted) ==> converted.len() == items.len()
            && forall|i: int|
            0 <= i < items.len() ==> canonical_of(#[trigger] items[i], depth) == Ok::<
                ValueModel,
                ErrorModel,
            >(converted[i]),
        canonical_items(items, depth) matches Err(e) ==> e is CyclicStructure
            || e is UnsupportedType,
    decreases depth, items.len() + 2,
{
    if items.len() > 0 {
        let front = items.drop_last();
        lemma_items_pointwise(front, depth);
        lemma_failures(items.last(), depth);
        if canonical_items(items, depth) is Ok {
            assert forall|i: int| 0 <= i < items.len() implies canonical_of(
                #[trigger] items[i],
                depth,
            ) is Ok by {
                if i < front.len() {
                    assert(front[i] == items[i]);
                }
            }
        } else if canonical_items(front, depth) is Ok {
            assert(canonical_of(items[items.len() - 1], depth) is Err);
        } else {
            let i = choose|i: int| 0 <= i < front.len() && !(canonical_of(#[trigger] front[i], depth) is Ok);
            assert(front[i] == items[i]);
        }
        if let Ok(converted) = canonical_items(items, depth) {
            assert forall|i: int| 0 <= i < items.len() implies canonical_of(
                #[trigger] items[i],
                depth,
            ) == Ok::<ValueModel, ErrorModel>(converted[i]) by {
                if i < front.len() {
                    assert(front[i] == items[i]);
                }
            }
        }
    }
}

/// A conversion fails only for a value that is nested too deep or of a kind
/// without canonical form.
proof fn lemma_failures(h: HostModel, depth: nat)
    ensures
        canonical_of(h, depth) matches Err(e) ==> e is CyclicStructure || e is UnsupportedType,
    decreases depth, 1nat,
{
    match h {
        HostModel::List(items) => {
            if depth > 0 {
                lemma_items_pointwise(items, (depth - 1) as nat);
            }
        },
        HostModel::Tuple(items) => {
            if depth > 0 {
                lemma_items_pointwise(items, (depth - 1) as nat);
            }
        },
        HostModel::Dict(entries) => {
            if depth > 0 {
                lemma_entries_pointwise(entries, (depth - 1) as nat);
            }
        },
        _ => {},
    }
}

/// The entries convert exactly when every key is text and every value
/// converts. The converted entries have distinct keys, and each of their
/// values is the canonical form of one of the values.
proof fn lemma_entries_pointwise(entries: Seq<(HostModel, HostModel)>, depth: nat)
    ensures
        canonical_entries(entries, depth) is Ok <==> forall|i: int|
            0 <= i < entries.len() ==> (#[trigger] entries[i]).0 is Text && canonical_of(
                entries[i].1,
                depth,
            ) is Ok,
        canonical_entries(entries, depth) matches Ok(converted) ==> distinct_keys(converted)
            && forall|j: int|
            0 <= j < converted.len() ==> exists|i: int|
                0 <= i < entries.len() && canonical_of((#[trigger] entries[i]).1, depth) == Ok::<
                    ValueModel,
                    ErrorModel,
                >((#[trigger] converted[j]).1),
        canonical_entries(entries, depth) matches Err(e) ==> e is CyclicStructure
            || e is UnsupportedType,
    decreases depth, entries.len() + 2,
{
    if entries.len() > 0 {
        let front = entries.drop_last();
        let last = entries.last();
        lemma_entries_pointwise(front, depth);
        lemma_failures(last.1, depth);
        if canonical_entries(entries, depth) is Ok {
            assert forall|i: int| 0 <= i < entries.len() implies (#[trigger] entries[i]).0 is Text
                && canonical_of(entries[i].1, depth) is Ok by {
                if i < front.len() {
                    assert(front[i] == entries[i]);
                }
            }
        } else if canonical_entries(front, depth) is Ok {
            assert(!(entries[entries.len() - 1].0 is Text && canonical_of(
                entries[entries.len() - 1].1,
                depth,
            ) is Ok));
        } else {
            let i = choose|i: int|
                0 <= i < front.len() && !((#[trigger] front[i]).0 is Text && canonical_of(
                    front[i].1,
                    depth,
                ) is Ok);
            assert(front[i] == entries[i]);
        }
        if let Ok(converted) = canonical_entries(entries, depth) {
            let before = canonical_entries(front, depth)->Ok_0;
            let key = last.0->Text_0;
            let v = canonical_of(last.1, depth)->Ok_0;
            lemma_insert_keeps_distinct(before, key, v);
            assert forall|j: int| 0 <= j < converted.len() implies exists|i: int|
                0 <= i < entries.len() && canonical_of((#[trigger] entries[i]).1, depth) == Ok::<
                    ValueModel,
                    ErrorModel,
                >((#[trigger] converted[j]).1) by {
                if j < before.len() && converted[j] == before[j] {
                    let i = choose|i: int|
                        0 <= i < front.len() && canonical_of((#[trigger] front[i]).1, depth) == Ok::<
                            ValueModel,
                            ErrorModel,
                        >((#[trigger] before[j]).1);
                    assert(front[i] == entries[i]);
                } else {
                    assert(converted[j].1 == v);
                    assert(entries[entries.len() - 1] == last);
                }
            }
        }
    }
}

/// What a conversion yields has no key twice in a mapping, holds integers of
/// 64 bits, and is nested no deeper than the host value was allowed to be.
proof fn lemma_canonical_is_valid(h: HostModel, depth: nat)
    ensures
        canonical_of(h, depth) matches Ok(v) ==> v.wf() && v.fits(depth),
    decreases depth, 1nat,
{
    if depth > 0 {
        let inner = (depth - 1) as nat;
        match h {
            HostModel::List(items) => {
                lemma_valid_items(items, inner);
            },
            HostModel::Tuple(items) => {
                lemma_valid_items(items, inner);
            },
            HostModel::Dict(entries) => {
                lemma_entries_pointwise(entries, inner);
                if let Ok(converted) = canonical_entries(entries, inner) {
                    assert forall|j: int| 0 <= j < converted.len() implies (
                    #[trigger] converted[j]).1.wf() && converted[j].1.fits(inner) by {
                        let i = choose|i: int|
                            0 <= i < entries.len() && canonical_of(
                                (#[trigger] entries[i]).1,
                                inner,
                            ) == Ok::<ValueModel, ErrorModel>(converted[j].1);
                        lemma_canonical_is_valid(entries[i].1, inner);
                    }
                }
            },
            _ => {},
        }
    }
}

proof fn lemma_valid_items(items: Seq<HostModel>, depth: nat)
    ensures
        canonical_items(items, depth) matches Ok(converted) ==> forall|i: int|
            0 <= i < converted.len() ==> (#[trigger] converted[i]).wf() && converted[i].fits(depth),
    decreases depth, 2nat,
{
    lemma_items_pointwise(items, depth);
    if let Ok(converted) = canonical_items(items, depth) {
        assert forall|i: int| 0 <= i < converted.len() implies (#[trigger] converted[i]).wf()
            && converted[i].fits(depth) by {
            assert(canonical_of(items[i], depth) == Ok::<ValueModel, ErrorModel>(converted[i]));
            lemma_canonical_is_valid(items[i], depth);
        }
    }
}

/// A value converts exactly when it is convertible.
proof fn lemma_ok_iff_convertible(h: HostModel, depth: nat)
    ensures
        canonical_of(h, depth) is Ok <==> h.convertible(depth),
    decreases depth, 0nat,
{
    if depth > 0 {
        let inner = (depth - 1) as nat;
        match h {
            HostModel::List(items) => {
                lemma_items_ok_iff_convertible(items, inner);
            },
            HostModel::Tuple(items) => {
                lemma_items_ok_iff_convertible(items, inner);
            },
            HostModel::Dict(entries) => {
                lemma_entries_pointwise(entries, inner);
                assert forall|i: int| 0 <= i < entries.len() implies (canonical_of(
                    (#[trigger] entries[i]).1,
                    inner,
                ) is Ok <==> entries[i].1.convertible(inner)) by {
                    lemma_ok_iff_convertible(entries[i].1, inner);
                }
            },
            _ => {},
        }
    }
}

proof fn lemma_items_ok_iff_convertible(items: Seq<HostModel>, depth: nat)
    ensures
        canonical_items(items, depth) is Ok <==> forall|i: int|
            0 <= i < items.len() ==> (#[trigger] items[i]).convertible(depth),
    decreases depth, 1nat,
{
    lemma_items_pointwise(items, depth);
    assert forall|i: int| 0 <= i < items.len() implies (canonical_of(#[trigger] items[i], depth) is Ok
        <==> items[i].convertible(depth)) by {
        lemma_ok_iff_convertible(items[i], depth);
    }
}

/// A valid canonical value comes back from its host form.
proof fn lemma_round_trip(v: ValueModel, depth: nat)
    requires
        v.wf(),
        v.fits(depth),
    ensures
        canonical_of(dynamic_of(v), depth) == Ok::<ValueModel, ErrorModel>(v),
    decreases v, 0nat,
{
    lemma_dynamic_of_containers(v);
    match v {
        ValueModel::Array(items) => {
            let inner = (depth - 1) as nat;
            lemma_round_trip_items(v->Array_0, items.len() as int, inner);
            assert(dynamic_items(items).take(items.len() as int) =~= dynamic_items(items));
            assert(items.take(items.len() as int) =~= items);
        },
        ValueModel::Object(entries) => {
            let inner = (depth - 1) as nat;
            lemma_round_trip_entries(v->Object_0, entries.len() as int, inner);
            assert(dynamic_entries(entries).take(entries.len() as int) =~= dynamic_entries(entries));
            assert(entries.take(entries.len() as int) =~= entries);
        },
        _ => {},
    }
}

proof fn lemma_round_trip_items(items: Seq<ValueModel>, n: int, depth: nat)
    requires
        0 <= n <= items.len(),
        forall|i: int| 0 <= i < items.len() ==> (#[trigger] items[i]).wf() && items[i].fits(depth),
    ensures
        canonical_items(dynamic_items(items).take(n), depth) == Ok::<Seq<ValueModel>, ErrorModel>(
            items.take(n),
        ),
    decreases items, n,
{
    let hosts = dynamic_items(items);
    if n == 0 {
        assert(items.take(0) =~= Seq::<ValueModel>::empty());
    } else {
        lemma_round_trip_items(items, n - 1, depth);
        vstd::seq::axiom_seq_index_decreases(items, n - 1);
        lemma_round_trip(items[n - 1], depth);
        assert(hosts.take(n).drop_last() =~= hosts.take(n - 1));
        assert(hosts.take(n).last() == dynamic_of(items[n - 1]));
        assert(items.take(n - 1).push(items[n - 1]) =~= items.take(n));
    }
}

proof fn lemma_round_trip_entries(entries: Seq<(Seq<char>, ValueModel)>, n: int, depth: nat)
    requires
        0 <= n <= entries.len(),
        distinct_keys(entries),
        forall|i: int|
            0 <= i < entries.len() ==> (#[trigger] entries[i]).1.wf() && entries[i].1.fits(depth),
    ensures
        canonical_entries(dynamic_entries(entries).take(n), depth) == Ok::<
            Seq<(Seq<char>, ValueModel)>,
            ErrorModel,
        >(entries.take(n)),
    decreases entries, n,
{
    let hosts = dynamic_entries(entries);
    if n == 0 {
        assert(entries.take(0) =~= Seq::<(Seq<char>, ValueModel)>::empty());
    } else {
        lemma_round_trip_entries(entries, n - 1, depth);
        vstd::seq::axiom_seq_index_decreases(entries, n - 1);
        lemma_round_trip(entries[n - 1].1, depth);
        assert(hosts.take(n).drop_last() =~= hosts.take(n - 1));
        assert(hosts.take(n).last() == (
            HostModel::Text(entries[n - 1].0),
            dynamic_of(entries[n - 1].1),
        ));
        let front = entries.take(n - 1);
        let key = entries[n - 1].0;
        assert(!has_key(front, key)) by {
            if has_key(front, key) {
                let p = key_position(front, key);
                assert(front[p] == entries[p]);
                assert(entries[p].0 != entries[n - 1].0);
            }
        }
        assert(front.push((key, entries[n - 1].1)) =~= entries.take(n));
    }
}

/// A canonical value that is valid comes back from its host form.
pub proof fn law_valid_value_comes_back(v: ValueModel)
    requires
        v.wf(),
        v.fits(MAX_DEPTH as nat),
    ensures
        canonical_of(dynamic_of(v), MAX_DEPTH as nat) == Ok::<ValueModel, ErrorModel>(v),
{
    lemma_round_trip(v, MAX_DEPTH as nat);
}

/// A host value that has a canonical form gets the same canonical form again
/// from the host form of that canonical form.
pub proof fn law_round_trip(x: HostModel)
    ensures
        canonical_of(x, MAX_DEPTH as nat) matches Ok(v) ==> canonical_of(
            dynamic_of(v),
            MAX_DEPTH as nat,
        ) == Ok::<ValueModel, ErrorModel>(v),
{
    lemma_canonical_is_valid(x, MAX_DEPTH as nat);
    if let Ok(v) = canonical_of(x, MAX_DEPTH as nat) {
        lemma_round_trip(v, MAX_DEPTH as nat);
    }
}

/// The canonical form of a host value has no key twice in any mapping, and no
/// container in it is nested deeper than `MAX_DEPTH`.
pub proof fn law_canonical_is_valid(x: HostModel)
    ensures
        canonical_of(x, MAX_DEPTH as nat) matches Ok(v) ==> v.wf() && v.fits(MAX_DEPTH as nat),
{
    lemma_canonical_is_valid(x, MAX_DEPTH as nat);
}

/// A host value has a canonical form exactly when it is convertible. Where it
/// has none, the failure says that a kind is unsupported or that the value is
/// nested too deep.
pub proof fn law_success_iff_convertible(x: HostModel)
    ensures
        canonical_of(x, MAX_DEPTH as nat) is Ok <==> x.convertible(MAX_DEPTH as nat),
        canonical_of(x, MAX_DEPTH as nat) matches Err(e) ==> e is CyclicStructure
            || e is UnsupportedType,
{
    lemma_ok_iff_convertible(x, MAX_DEPTH as nat);
    lemma_failures(x, MAX_DEPTH as nat);
}

/// The host form of a valid canonical value is convertible: the host can hand
/// back whatever it was handed.
pub proof fn law_host_form_is_convertible(v: ValueModel)
    requires
        v.wf(),
        v.fits(MAX_DEPTH as nat),
    ensures
        dynamic_of(v).convertible(MAX_DEPTH as nat),
{
    lemma_round_trip(v, MAX_DEPTH as nat);
    lemma_ok_iff_convertible(dynamic_of(v), MAX_DEPTH as nat);
}

/// A value of a kind that has no canonical form is refused, with the name of
/// its kind, whether it stands alone or as an item of a list.
pub proof fn law_unsupported_kind_is_rejected(kind: Seq<char>, before: Seq<HostModel>)
    requires
        forall|i: int| 0 <= i < before.len() ==> (#[trigger] before[i]).convertible(
            (MAX_DEPTH - 1) as nat,
        ),
    ensures
        canonical_of(HostModel::Other(kind), MAX_DEPTH as nat) == Err::<ValueModel, ErrorModel>(
            ErrorModel::UnsupportedType { kind },
        ),
        canonical_of(HostModel::List(before.push(HostModel::Other(kind))), MAX_DEPTH as nat) == Err::<
            ValueModel,
            ErrorModel,
        >(ErrorModel::UnsupportedType { kind }),
{
    let inner = (MAX_DEPTH - 1) as nat;
    let items = before.push(HostModel::Other(kind));
    let refused = Err::<ValueModel, ErrorModel>(ErrorModel::UnsupportedType { kind });
    assert(items.drop_last() =~= before);
    assert(items.last() == HostModel::Other(kind));
    lemma_items_ok_iff_convertible(before, inner);
    assert(canonical_items(before, inner) is Ok);
    assert(canonical_of(items.last(), inner) == refused);
    assert(canonical_items(items, inner) is Err);
    assert(canonical_items(items, inner)->Err_0 == refused->Err_0);
    assert(canonical_sequence(items, MAX_DEPTH as nat) == refused);
}

} // verus!
