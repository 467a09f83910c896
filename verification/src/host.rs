//! Values of the dynamically typed host, as the bridge sees them.
//!
//! A host value tells its kind by the extractions it answers. The host counts
//! a boolean among its integers, so a boolean also answers the integer
//! extraction: whoever classifies a value has to ask for a boolean first.

use vstd::prelude::*;
use crate::number::{Float, NonFinite};

verus! {

/// What a host value denotes.
pub enum HostModel {
    Nil,
    Bool(bool),
    Int(i64),
    /// A finite float, by its bit pattern.
    Float(u64),
    NonFinite(NonFinite),
    Text(Seq<char>),
    List(Seq<HostModel>),
    Tuple(Seq<HostModel>),
    Dict(Seq<(HostModel, HostModel)>),
    Other(Seq<char>),
}

impl HostModel {
    /// What the integer extraction answers: booleans count as 0 and 1.
    pub open spec fn as_int(self) -> Option<i64> {
        match self {
            HostModel::Bool(b) => Some(if b { 1i64 } else { 0i64 }),
            HostModel::Int(i) => Some(i),
            _ => None,
        }
    }

    /// The items of an ordered sequence container.
    pub open spec fn as_sequence(self) -> Option<Seq<HostModel>> {
        match self {
            HostModel::List(items) => Some(items),
            HostModel::Tuple(items) => Some(items),
            _ => None,
        }
    }

    /// The name of the value's runtime kind.
    pub open spec fn kind_name(self) -> Seq<char> {
        match self {
            HostModel::Nil => "nil"@,
            HostModel::Bool(_) => "bool"@,
            HostModel::Int(_) => "int"@,
            HostModel::Float(_) => "float"@,
            HostModel::NonFinite(_) => "float"@,
            HostModel::Text(_) => "str"@,
            HostModel::List(_) => "list"@,
            HostModel::Tuple(_) => "tuple"@,
            HostModel::Dict(_) => "dict"@,
            HostModel::Other(kind) => kind,
        }
    }
}

/// A value of the host.
#[derive(Debug, PartialEq)]
pub enum HostValue {
    /// The host's null.
    Nil,
    Bool(bool),
    /// An integer of at most 64 signed bits.
    Int(i64),
    /// A finite floating-point number.
    Float(Float),
    /// A floating-point number that is infinite or not a number.
    NonFinite(NonFinite),
    Text(String),
    List(Vec<HostValue>),
    Tuple(Vec<HostValue>),
    /// A key-value container, as its entries in order of insertion.
    Dict(Vec<(HostValue, HostValue)>),
    /// A value of any other kind, by the name of that kind.
    Other(String),
}

impl HostValue {
    /// What the value denotes.
    pub open spec fn model(self) -> HostModel
        decreases self,
    {
        match self {
            HostValue::Nil => HostModel::Nil,
            HostValue::Bool(b) => HostModel::Bool(b),
            HostValue::Int(i) => HostModel::Int(i),
            HostValue::Float(f) => HostModel::Float(f@),
            HostValue::NonFinite(kind) => HostModel::NonFinite(kind),
            HostValue::Text(s) => HostModel::Text(s@),
            HostValue::List(items) => HostModel::List(
                Seq::new(
                    items.len() as nat,
                    |i: int|
                        if 0 <= i < items.len() {
                            items[i].model()
                        } else {
                            HostModel::Nil
                        },
                ),
            ),
            HostValue::Tuple(items) => HostModel::Tuple(
                Seq::new(
                    items.len() as nat,
                    |i: int|
                        if 0 <= i < items.len() {
                            items[i].model()
                        } else {
                            HostModel::Nil
                        },
                ),
            ),
            HostValue::Dict(entries) => HostModel::Dict(
                Seq::new(
                    entries.len() as nat,
                    |i: int|
                        if 0 <= i < entries.len() {
                            (entries[i].0.model(), entries[i].1.model())
                        } else {
                            (HostModel::Nil, HostModel::Nil)
                        },
                ),
            ),
            HostValue::Other(kind) => HostModel::Other(kind@),
        }
    }
}

impl View for HostValue {
    type V = HostModel;

    open spec fn view(&self) -> HostModel {
        self.model()
    }
}

/// What a list of host values denotes.
pub open spec fn host_items(items: Seq<HostValue>) -> Seq<HostModel> {
    Seq::new(items.len(), |i: int| items[i]@)
}

/// What a list of host entries denotes.
pub open spec fn host_entries(entries: Seq<(HostValue, HostValue)>) -> Seq<(HostModel, HostModel)> {
    Seq::new(entries.len(), |i: int| (entries[i].0@, entries[i].1@))
}

impl HostValue {
    /// Whether the value is the host's null.
    pub fn is_nil(&self) -> (r: bool)
        ensures
            r == (self@ is Nil),
    {
        match self {
            HostValue::Nil => true,
            _ => false,
        }
    }

    /// The boolean extraction: answered by a boolean only.
    pub fn as_bool(&self) -> (r: Option<bool>)
        ensures
            r == (match self@ {
                HostModel::Bool(b) => Some(b),
                _ => None,
            }),
    {
        match self {
            HostValue::Bool(b) => Some(*b),
            _ => None,
        }
    }

    /// The integer extraction: answered by an integer, and by a boolean as 0
    /// or 1.
    pub fn as_int(&self) -> (r: Option<i64>)
        ensures
            r == self@.as_int(),
    {
        match self {
            HostValue::Bool(b) => Some(if *b { 1 } else { 0 }),
            HostValue::Int(i) => Some(*i),
            _ => None,
        }
    }

    /// The float extraction: answered by a finite float.
    pub fn as_float(&self) -> (r: Option<&Float>)
        ensures
            match r {
                Some(f) => self@ == HostModel::Float(f@),
                None => !(self@ is Float),
            },
    {
        match self {
            HostValue::Float(f) => Some(f),
            _ => None,
        }
    }

    /// The float extraction of a float that is infinite or not a number.
    pub fn as_non_finite(&self) -> (r: Option<NonFinite>)
        ensures
            r == (match self@ {
                HostModel::NonFinite(kind) => Some(kind),
                _ => None,
            }),
    {
        match self {
            HostValue::NonFinite(kind) => Some(*kind),
            _ => None,
        }
    }

    /// The text extraction.
    pub fn as_text(&self) -> (r: Option<&String>)
        ensures
            match r {
                Some(s) => self@ == HostModel::Text(s@),
                None => !(self@ is Text),
            },
    {
        match self {
            HostValue::Text(s) => Some(s),
            _ => None,
        }
    }

    /// The items of an ordered sequence container: a list or a tuple.
    pub fn as_sequence(&self) -> (r: Option<&Vec<HostValue>>)
        ensures
            match r {
                Some(items) => self@.as_sequence() == Some(host_items(items@)),
                None => self@.as_sequence() is None,
            },
    {
        match self {
            HostValue::List(items) => {
                assert(self@->List_0 =~= host_items(items@));
                Some(items)
            },
            HostValue::Tuple(items) => {
                assert(self@->Tuple_0 =~= host_items(items@));
                Some(items)
            },
            _ => None,
        }
    }

    /// The entries of a key-value container.
    pub fn as_mapping(&self) -> (r: Option<&Vec<(HostValue, HostValue)>>)
        ensures
            match r {
                Some(entries) => self@ == HostModel::Dict(host_entries(entries@)),
                None => !(self@ is Dict),
            },
    {
        match self {
            HostValue::Dict(entries) => {
                assert(self@->Dict_0 =~= host_entries(entries@));
                Some(entries)
            },
            _ => None,
        }
    }

    /// The name of the value's runtime kind.
    pub fn kind_name(&self) -> (r: String)
        ensures
            r@ == self@.kind_name(),
    {
        match self {
            HostValue::Nil => String::from_str("nil"),
            HostValue::Bool(_) => String::from_str("bool"),
            HostValue::Int(_) => String::from_str("int"),
            HostValue::Float(_) => String::from_str("float"),
            HostValue::NonFinite(_) => String::from_str("float"),
            HostValue::Text(_) => String::from_str("str"),
            HostValue::List(_) => String::from_str("list"),
            HostValue::Tuple(_) => String::from_str("tuple"),
            HostValue::Dict(_) => String::from_str("dict"),
            HostValue::Other(kind) => kind.clone(),
        }
    }
}

/// Copies a list of host values.
fn clone_items(items: &Vec<HostValue>) -> (r: Vec<HostValue>)
    ensures
        host_items(r@) == host_items(items@),
    decreases items,
{
    let mut copies: Vec<HostValue> = Vec::new();
    let mut i: usize = 0;
    while i < items.len()
        invariant
            i <= items.len(),
            copies.len() == i,
            forall|j: int| 0 <= j < i ==> (#[trigger] copies[j])@ == items[j]@,
        decreases items.len() - i,
    {
        proof {
            vstd::std_specs::vec::axiom_vec_index_decreases(*items, i as int);
        }
        copies.push(items[i].clone());
        i = i + 1;
    }
    assert(host_items(copies@) =~= host_items(items@));
    copies
}

impl Clone for HostValue {
    fn clone(&self) -> (r: HostValue)
        ensures
            r@ == self@,
        decreases self,
    {
        match self {
            HostValue::Nil => HostValue::Nil,
            HostValue::Bool(b) => HostValue::Bool(*b),
            HostValue::Int(i) => HostValue::Int(*i),
            HostValue::Float(f) => HostValue::Float(f.clone()),
            HostValue::NonFinite(kind) => HostValue::NonFinite(*kind),
            HostValue::Text(s) => HostValue::Text(s.clone()),
            HostValue::List(items) => {
                let copies = clone_items(items);
                assert(HostValue::List(copies)@->List_0 =~= host_items(copies@));
                assert(self@->List_0 =~= host_items(items@));
                HostValue::List(copies)
            },
            HostValue::Tuple(items) => {
                let copies = clone_items(items);
                assert(HostValue::Tuple(copies)@->Tuple_0 =~= host_items(copies@));
                assert(self@->Tuple_0 =~= host_items(items@));
                HostValue::Tuple(copies)
            },
            HostValue::Dict(entries) => {
                let mut copies: Vec<(HostValue, HostValue)> = Vec::new();
                let mut i: usize = 0;
                while i < entries.len()
                    invariant
                        i <= entries.len(),
                        copies.len() == i,
                        forall|j: int|
                            0 <= j < i ==> (#[trigger] copies[j]).0@ == entries[j].0@
                                && copies[j].1@ == entries[j].1@,
                        *self == HostValue::Dict(*entries),
                    decreases entries.len() - i,
                {
                    proof {
                        vstd::std_specs::vec::axiom_vec_index_decreases(self->Dict_0, i as int);
                        assert(entries[i as int] == (self->Dict_0)[i as int]);
                    }
                    copies.push((entries[i].0.clone(), entries[i].1.clone()));
                    i = i + 1;
                }
                assert(HostValue::Dict(copies)@->Dict_0 =~= self@->Dict_0);
                HostValue::Dict(copies)
            },
            HostValue::Other(kind) => HostValue::Other(kind.clone()),
        }
    }
}

/// What the float extraction answered.
#[derive(Debug, PartialEq)]
pub enum FloatProbe {
    /// A finite floating-point number.
    Finite(Float),
    /// An infinite number, or no number.
    NonFinite(NonFinite),
}

/// What a value of the host answered to each extraction, and the name of its
/// runtime kind. A value may answer several of them: a boolean of the host
/// answers the integer and the float extraction too, an integer the float
/// extraction.
#[derive(Debug, PartialEq)]
pub struct Probes {
    /// Whether the value is the host's null.
    pub nil: bool,
    pub boolean: Option<bool>,
    pub integer: Option<i64>,
    pub float: Option<FloatProbe>,
    pub text: Option<String>,
    pub list: Option<Vec<HostValue>>,
    pub tuple: Option<Vec<HostValue>>,
    pub dict: Option<Vec<(HostValue, HostValue)>>,
    pub kind: String,
}

impl Probes {
    /// The value that the answers stand for. The answers count in a fixed
    /// order: null, boolean, integer, float, text, list, tuple, key-value
    /// container. A value that gave none of them is of another kind.
    pub open spec fn classified(self) -> HostModel {
        if self.nil {
            HostModel::Nil
        } else if let Some(b) = self.boolean {
            HostModel::Bool(b)
        } else if let Some(i) = self.integer {
            HostModel::Int(i)
        } else if let Some(f) = self.float {
            match f {
                FloatProbe::Finite(x) => HostModel::Float(x@),
                FloatProbe::NonFinite(kind) => HostModel::NonFinite(kind),
            }
        } else if let Some(s) = self.text {
            HostModel::Text(s@)
        } else if let Some(items) = self.list {
            HostModel::List(host_items(items@))
        } else if let Some(items) = self.tuple {
            HostModel::Tuple(host_items(items@))
        } else if let Some(entries) = self.dict {
            HostModel::Dict(host_entries(entries@))
        } else {
            HostModel::Other(self.kind@)
        }
    }

    /// The answers are those that the host gives for the scalar `h`: each
    /// extraction that the host answers for a value of that kind is answered,
    /// with that value, and none that stands before the kind's own.
    pub open spec fn answers_for(self, h: HostModel) -> bool {
        match h {
            HostModel::Nil => self.nil,
            HostModel::Bool(b) => !self.nil && self.boolean == Some(b) && self.integer is Some
                && self.float is Some,
            HostModel::Int(i) => !self.nil && self.boolean is None && self.integer == Some(i)
                && self.float is Some,
            HostModel::Float(bits) => !self.nil && self.boolean is None && self.integer is None
                && (self.float matches Some(FloatProbe::Finite(x)) && x@ == bits),
            HostModel::NonFinite(kind) => !self.nil && self.boolean is None && self.integer is None
                && self.float == Some(FloatProbe::NonFinite(kind)),
            HostModel::Text(s) => !self.nil && self.boolean is None && self.integer is None
                && self.float is None && (self.text matches Some(t) && t@ == s),
            _ => false,
        }
    }
}

impl HostValue {
    /// The host value that the answers stand for.
    pub fn from_probes(probes: Probes) -> (r: HostValue)
        ensures
            r@ == probes.classified(),
    {
        if probes.nil {
            HostValue::Nil
        } else if let Some(b) = probes.boolean {
            HostValue::Bool(b)
        } else if let Some(i) = probes.integer {
            HostValue::Int(i)
        } else if let Some(f) = probes.float {
            match f {
                FloatProbe::Finite(x) => HostValue::Float(x),
                FloatProbe::NonFinite(kind) => HostValue::NonFinite(kind),
            }
        } else if let Some(s) = probes.text {
            HostValue::Text(s)
        } else if let Some(items) = probes.list {
            assert(HostValue::List(items)@->List_0 =~= host_items(items@));
            HostValue::List(items)
        } else if let Some(items) = probes.tuple {
            assert(HostValue::Tuple(items)@->Tuple_0 =~= host_items(items@));
            HostValue::Tuple(items)
        } else if let Some(entries) = probes.dict {
            assert(HostValue::Dict(entries)@->Dict_0 =~= host_entries(entries@));
            HostValue::Dict(entries)
        } else {
            HostValue::Other(probes.kind)
        }
    }
}

/// A scalar of the host is classified as what it is, though a boolean answers
/// the integer and the float extraction as well, and an integer the float
/// extraction.
pub proof fn law_scalars_are_classified_as_they_are(probes: Probes, h: HostModel)
    requires
        probes.answers_for(h),
    ensures
        probes.classified() == h,
{
}

} // verus!
