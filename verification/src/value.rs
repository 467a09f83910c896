//! The canonical value model: the one representation into which every host
//! value and every parsed document is normalised before comparison.

use vstd::prelude::*;
use crate::number::{CanonicalNumber, NumberModel};

verus! {

/// What a canonical value denotes.
pub enum ValueModel {
    Null,
    Bool(bool),
    Number(NumberModel),
    String(Seq<char>),
    /// An ordered sequence.
    Array(Seq<ValueModel>),
    /// A mapping, as its entries in order.
    Object(Seq<(Seq<char>, ValueModel)>),
}

/// Some entry has this key.
pub open spec fn has_key(entries: Seq<(Seq<char>, ValueModel)>, key: Seq<char>) -> bool {
    exists|i: int| 0 <= i < entries.len() && (#[trigger] entries[i]).0 == key
}

/// The place of an entry with this key, where there is one.
pub open spec fn key_position(entries: Seq<(Seq<char>, ValueModel)>, key: Seq<char>) -> int {
    choose|i: int| 0 <= i < entries.len() && (#[trigger] entries[i]).0 == key
}

/// No key occurs twice.
pub open spec fn distinct_keys(entries: Seq<(Seq<char>, ValueModel)>) -> bool {
    forall|i: int, j: int|
        0 <= i < j < entries.len() ==> (#[trigger] entries[i]).0 != (#[trigger] entries[j]).0
}

/// The entries after `key` is set to `value`: a key that is present keeps its
/// place and takes the new value, a new key goes to the end.
pub open spec fn insert_entry(
    entries: Seq<(Seq<char>, ValueModel)>,
    key: Seq<char>,
    value: ValueModel,
) -> Seq<(Seq<char>, ValueModel)> {
    if has_key(entries, key) {
        entries.update(key_position(entries, key), (key, value))
    } else {
        entries.push((key, value))
    }
}

impl ValueModel {
    /// Within every mapping of the value, at any depth, no key occurs twice,
    /// and every integer fits in 64 signed bits.
    pub open spec fn wf(self) -> bool
        decreases self,
    {
        match self {
            ValueModel::Array(items) => forall|i: int|
                0 <= i < items.len() ==> (#[trigger] items[i]).wf(),
            ValueModel::Object(entries) => distinct_keys(entries) && forall|i: int|
                0 <= i < entries.len() ==> (#[trigger] entries[i]).1.wf(),
            ValueModel::Number(NumberModel::Int(k)) => i64::MIN <= k <= i64::MAX,
            _ => true,
        }
    }

    /// The two values are the same value: the same scalar, sequences of the
    /// same values in the same order, or mappings that hold the same values
    /// under the same keys, in whatever order.
    pub open spec fn same_as(self, other: ValueModel) -> bool
        decreases self,
    {
        match self {
            ValueModel::Array(items) => other matches ValueModel::Array(others) && items.len()
                == others.len() && forall|i: int|
                0 <= i < items.len() ==> (#[trigger] items[i]).same_as(others[i]),
            ValueModel::Object(entries) => other matches ValueModel::Object(others)
                && entries.len() == others.len() && forall|i: int|
                0 <= i < entries.len() ==> has_key(others, (#[trigger] entries[i]).0)
                    && entries[i].1.same_as(others[key_position(others, entries[i].0)].1),
            _ => self == other,
        }
    }

    /// Containers are nested at most `depth` deep.
    pub open spec fn fits(self, depth: nat) -> bool
        decreases self,
    {
        match self {
            ValueModel::Array(items) => depth > 0 && forall|i: int|
                0 <= i < items.len() ==> (#[trigger] items[i]).fits((depth - 1) as nat),
            ValueModel::Object(entries) => depth > 0 && forall|i: int|
                0 <= i < entries.len() ==> (#[trigger] entries[i]).1.fits((depth - 1) as nat),
            _ => true,
        }
    }
}

/// Setting a key keeps the keys distinct.
pub proof fn lemma_insert_keeps_distinct(
    entries: Seq<(Seq<char>, ValueModel)>,
    key: Seq<char>,
    value: ValueModel,
)
    requires
        distinct_keys(entries),
    ensures
        distinct_keys(insert_entry(entries, key, value)),
        has_key(insert_entry(entries, key, value), key),
{
    let after = insert_entry(entries, key, value);
    if has_key(entries, key) {
        let p = key_position(entries, key);
        assert forall|i: int, j: int| 0 <= i < j < after.len() implies (#[trigger] after[i]).0 != (
        #[trigger] after[j]).0 by {
            assert(entries[i].0 != entries[j].0);
        }
        assert(after[p].0 == key);
    } else {
        assert forall|i: int, j: int| 0 <= i < j < after.len() implies (#[trigger] after[i]).0 != (
        #[trigger] after[j]).0 by {
            if j < entries.len() {
                assert(entries[i].0 != entries[j].0);
            } else {
                assert(entries[i].0 != key);
            }
        }
        assert(after[entries.len() as int].0 == key);
    }
}

/// Every valid value is the same value as itself.
pub proof fn law_same_as_itself(v: ValueModel)
    requires
        v.wf(),
    ensures
        v.same_as(v),
    decreases v,
{
    match v {
        ValueModel::Array(items) => {
            assert forall|i: int| 0 <= i < items.len() implies (#[trigger] items[i]).same_as(
                items[i],
            ) by {
                law_same_as_itself(items[i]);
            }
        },
        ValueModel::Object(entries) => {
            assert forall|i: int| 0 <= i < entries.len() implies has_key(
                entries,
                (#[trigger] entries[i]).0,
            ) && entries[i].1.same_as(entries[key_position(entries, entries[i].0)].1) by {
                let p = key_position(entries, entries[i].0);
                assert(entries[p].0 == entries[i].0);
                if p < i {
                    assert(entries[p].0 != entries[i].0);
                } else if i < p {
                    assert(entries[i].0 != entries[p].0);
                }
                law_same_as_itself(entries[i].1);
            }
        },
        _ => {},
    }
}

/// The order of two entries of a mapping does not count.
pub proof fn law_order_of_entries_does_not_count(
    first: (Seq<char>, ValueModel),
    second: (Seq<char>, ValueModel),
)
    requires
        first.0 != second.0,
        first.1.wf(),
        second.1.wf(),
    ensures
        ValueModel::Object(seq![first, second]).same_as(ValueModel::Object(seq![second, first])),
{
    let entries = seq![first, second];
    let others = seq![second, first];
    law_same_as_itself(first.1);
    law_same_as_itself(second.1);
    assert(others[1] == first);
    assert(others[0] == second);
    assert forall|i: int| 0 <= i < entries.len() implies has_key(others, (#[trigger] entries[i]).0)
        && entries[i].1.same_as(others[key_position(others, entries[i].0)].1) by {
        let p = key_position(others, entries[i].0);
        assert(others[p].0 == entries[i].0);
    }
}

/// A canonical value. `==` takes the entries of mappings in their order;
/// `same_as` is the equality for which that order does not count.
#[derive(Debug, PartialEq)]
pub enum CanonicalValue {
    Null,
    Bool(bool),
    Number(CanonicalNumber),
    String(String),
    Array(Vec<CanonicalValue>),
    Object(Mapping),
}

/// The entries of a mapping, in the order in which their keys were first set.
/// No key occurs twice.
#[derive(Debug, PartialEq)]
pub struct Mapping {
    entries: Vec<(String, CanonicalValue)>,
}

impl CanonicalValue {
    /// What the value denotes.
    pub open spec fn model(self) -> ValueModel
        decreases self,
    {
        match self {
            CanonicalValue::Null => ValueModel::Null,
            CanonicalValue::Bool(b) => ValueModel::Bool(b),
            CanonicalValue::Number(n) => ValueModel::Number(n@),
            CanonicalValue::String(s) => ValueModel::String(s@),
            CanonicalValue::Array(items) => ValueModel::Array(
                Seq::new(
                    items.len() as nat,
                    |i: int|
                        if 0 <= i < items.len() {
                            items[i].model()
                        } else {
                            ValueModel::Null
                        },
                ),
            ),
            CanonicalValue::Object(m) => ValueModel::Object(m.model()),
        }
    }
}

impl Mapping {
    /// The entries as they are denoted.
    pub closed spec fn model(self) -> Seq<(Seq<char>, ValueModel)>
        decreases self,
    {
        Seq::new(
            self.entries.len() as nat,
            |i: int|
                if 0 <= i < self.entries.len() {
                    (self.entries[i].0@, self.entries[i].1.model())
                } else {
                    (Seq::empty(), ValueModel::Null)
                },
        )
    }

    #[verifier::type_invariant]
    spec fn keys_are_distinct(self) -> bool {
        distinct_keys(self.model())
    }
}

impl View for CanonicalValue {
    type V = ValueModel;

    open spec fn view(&self) -> ValueModel {
        self.model()
    }
}

impl View for Mapping {
    type V = Seq<(Seq<char>, ValueModel)>;

    open spec fn view(&self) -> Seq<(Seq<char>, ValueModel)> {
        self.model()
    }
}

/// What a list of canonical values denotes.
pub open spec fn value_items(items: Seq<CanonicalValue>) -> Seq<ValueModel> {
    Seq::new(items.len(), |i: int| items[i]@)
}

impl Mapping {
    /// The mapping without entries.
    pub fn new() -> (r: Mapping)
        ensures
            r@ == Seq::<(Seq<char>, ValueModel)>::empty(),
    {
        Mapping { entries: Vec::new() }
    }

    /// The number of entries.
    pub fn len(&self) -> (r: usize)
        ensures
            r == self@.len(),
            distinct_keys(self@),
    {
        proof {
            use_type_invariant(self);
        }
        self.entries.len()
    }

    /// The key of the entry at `index`.
    pub fn key(&self, index: usize) -> (r: &String)
        requires
            index < self@.len(),
        ensures
            r@ == self@[index as int].0,
    {
        &self.entries[index].0
    }

    /// The value of the entry at `index`.
    pub fn value(&self, index: usize) -> (r: &CanonicalValue)
        requires
            index < self@.len(),
        ensures
            r@ == self@[index as int].1,
    {
        &self.entries[index].1
    }

    /// The place of the entry with this key.
    pub fn position(&self, key: &String) -> (r: Option<usize>)
        ensures
            match r {
                Some(i) => i < self@.len() && self@[i as int].0 == key@ && has_key(self@, key@)
                    && key_position(self@, key@) == i,
                None => !has_key(self@, key@),
            },
    {
        proof {
            use_type_invariant(self);
        }
        let n = self.entries.len();
        let mut i: usize = 0;
        while i < n
            invariant
                n == self.entries.len(),
                i <= n,
                distinct_keys(self@),
                forall|j: int| 0 <= j < i ==> (#[trigger] self@[j]).0 != key@,
            decreases n - i,
        {
            if self.entries[i].0 == *key {
                proof {
                    assert(self@[i as int].0 == key@);
                    let p = key_position(self@, key@);
                    assert(self@[p].0 == key@);
                    if p < i {
                        assert(self@[p].0 != self@[i as int].0);
                    } else if i < p {
                        assert(self@[i as int].0 != self@[p].0);
                    }
                }
                return Some(i);
            }
            i = i + 1;
        }
        None
    }

    /// The value under this key.
    pub fn get(&self, key: &String) -> (r: Option<&CanonicalValue>)
        ensures
            match r {
                Some(v) => has_key(self@, key@) && v@ == self@[key_position(self@, key@)].1,
                None => !has_key(self@, key@),
            },
    {
        match self.position(key) {
            Some(i) => Some(&self.entries[i].1),
            None => None,
        }
    }

    /// Appends an entry under a key that is not yet there.
    pub fn push_new(&mut self, key: String, value: CanonicalValue)
        requires
            !has_key(old(self)@, key@),
        ensures
            final(self)@ == old(self)@.push((key@, value@)),
            distinct_keys(final(self)@),
    {
        self.insert(key, value);
    }

    /// Sets `key` to `value`.
    pub fn insert(&mut self, key: String, value: CanonicalValue)
        ensures
            final(self)@ == insert_entry(old(self)@, key@, value@),
            distinct_keys(final(self)@),
    {
        proof {
            use_type_invariant(&*self);
            lemma_insert_keeps_distinct(self@, key@, value@);
        }
        let ghost before = self@;
        let found = self.position(&key);
        let mut entries: Vec<(String, CanonicalValue)> = Vec::new();
        proof {
            let ghost emptied = Mapping { entries: entries };
            assert(emptied.model() =~= Seq::<(Seq<char>, ValueModel)>::empty());
        }
        std::mem::swap(&mut self.entries, &mut entries);
        match found {
            Some(i) => {
                entries.set(i, (key, value));
            },
            None => {
                entries.push((key, value));
            },
        }
        proof {
            let ghost filled = Mapping { entries: entries };
            assert(filled.model() =~= insert_entry(before, key@, value@));
        }
        std::mem::swap(&mut self.entries, &mut entries);
    }
}

impl Clone for CanonicalValue {
    fn clone(&self) -> (r: CanonicalValue)
        ensures
            r@ == self@,
        decreases self,
    {
        match self {
            CanonicalValue::Null => CanonicalValue::Null,
            CanonicalValue::Bool(b) => CanonicalValue::Bool(*b),
            CanonicalValue::Number(n) => CanonicalValue::Number(n.clone()),
            CanonicalValue::String(s) => CanonicalValue::String(s.clone()),
            CanonicalValue::Array(items) => {
                let mut copies: Vec<CanonicalValue> = Vec::new();
                let mut i: usize = 0;
                while i < items.len()
                    invariant
                        i <= items.len(),
                        copies.len() == i,
                        forall|j: int| 0 <= j < i ==> (#[trigger] copies[j])@ == items[j]@,
                        *self == CanonicalValue::Array(*items),
                    decreases items.len() - i,
                {
                    proof {
                        vstd::std_specs::vec::axiom_vec_index_decreases(self->Array_0, i as int);
                        assert(items[i as int] == (self->Array_0)[i as int]);
                    }
                    copies.push(items[i].clone());
                    i = i + 1;
                }
                assert(CanonicalValue::Array(copies)@->Array_0 =~= self@->Array_0);
                CanonicalValue::Array(copies)
            },
            CanonicalValue::Object(m) => CanonicalValue::Object(m.clone()),
        }
    }
}

impl Clone for Mapping {
    fn clone(&self) -> (r: Mapping)
        ensures
            r@ == self@,
        decreases self,
    {
        proof {
            use_type_invariant(self);
        }
        let mut copies: Vec<(String, CanonicalValue)> = Vec::new();
        let mut i: usize = 0;
        while i < self.entries.len()
            invariant
                i <= self.entries.len(),
                copies.len() == i,
                forall|j: int|
                    0 <= j < i ==> (#[trigger] copies[j]).0@ == self.entries[j].0@ && copies[j].1@
                        == self.entries[j].1@,
            decreases self.entries.len() - i,
        {
            proof {
                vstd::std_specs::vec::axiom_vec_index_decreases(self.entries, i as int);
            }
            copies.push((self.entries[i].0.clone(), self.entries[i].1.clone()));
            i = i + 1;
        }
        proof {
            let ghost copy = Mapping { entries: copies };
            assert(copy.model() =~= self.model());
        }
        Mapping { entries: copies }
    }
}

impl CanonicalValue {
    /// Whether two values are the same value. The order of the entries of a
    /// mapping does not count.
    pub fn same_as(&self, other: &CanonicalValue) -> (r: bool)
        ensures
            r == self@.same_as(other@),
        decreases self@,
    {
        match (self, other) {
            (CanonicalValue::Null, CanonicalValue::Null) => true,
            (CanonicalValue::Bool(a), CanonicalValue::Bool(b)) => *a == *b,
            (CanonicalValue::Number(a), CanonicalValue::Number(b)) => a.same_as(b),
            (CanonicalValue::String(a), CanonicalValue::String(b)) => *a == *b,
            (CanonicalValue::Array(items), CanonicalValue::Array(others)) => {
                assert(self@->Array_0 =~= value_items(items@));
                assert(other@->Array_0 =~= value_items(others@));
                if items.len() != others.len() {
                    return false;
                }
                let mut i: usize = 0;
                while i < items.len()
                    invariant
                        i <= items.len(),
                        items.len() == others.len(),
                        self@ == ValueModel::Array(value_items(items@)),
                        other@ == ValueModel::Array(value_items(others@)),
                        forall|j: int| 0 <= j < i ==> (#[trigger] items[j]@).same_as(others[j]@),
                    decreases items.len() - i,
                {
                    proof {
                        assert(value_items(items@)[i as int] == items[i as int]@);
                        assert(value_items(others@)[i as int] == others[i as int]@);
                        vstd::seq::axiom_seq_index_decreases(self@->Array_0, i as int);
                    }
                    if !items[i].same_as(&others[i]) {
                        return false;
                    }
                    i = i + 1;
                }
                proof {
                    assert forall|j: int| 0 <= j < items.len() implies (
                    #[trigger] value_items(items@)[j]).same_as(value_items(others@)[j]) by {
                        assert(items[j]@.same_as(others[j]@));
                    }
                }
                true
            },
            (CanonicalValue::Object(entries), CanonicalValue::Object(others)) => {
                let n = entries.len();
                if n != others.len() {
                    return false;
                }
                let mut i: usize = 0;
                while i < n
                    invariant
                        i <= n,
                        n == entries@.len(),
                        n == others@.len(),
                        self@ == ValueModel::Object(entries@),
                        other@ == ValueModel::Object(others@),
                        forall|j: int|
                            0 <= j < i ==> has_key(others@, (#[trigger] entries@[j]).0)
                                && entries@[j].1.same_as(
                                others@[key_position(others@, entries@[j].0)].1,
                            ),
                    decreases n - i,
                {
                    proof {
                        vstd::seq::axiom_seq_index_decreases(self@->Object_0, i as int);
                    }
                    match others.position(entries.key(i)) {
                        None => {
                            return false;
                        },
                        Some(p) => {
                            if !entries.value(i).same_as(others.value(p)) {
                                return false;
                            }
                        },
                    }
                    i = i + 1;
                }
                true
            },
            _ => false,
        }
    }
}

} // verus!
