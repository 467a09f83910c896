//! Numbers of the canonical model.
//!
//! A number is either a 64-bit integer or a finite floating-point number. This
//! library never computes on floating-point numbers: it carries them as
//! `serde_json::Number` values and speaks of them by their bit pattern.

use vstd::prelude::*;

verus! {

#[verifier::external_type_specification]
#[verifier::external_body]
pub struct ExJsonNumber(serde_json::Number);

/// What a number denotes.
pub enum NumberModel {
    /// An integer.
    Int(int),
    /// A finite binary64 floating-point number, given by its bit pattern.
    Float(u64),
}

/// What a `serde_json::Number` holds: its integer, or the bit pattern of its
/// float.
pub uninterp spec fn number_model(n: serde_json::Number) -> NumberModel;

/// The float that `serde_json::Number::as_f64` followed by
/// `serde_json::Number::from_f64` makes of an integer, by its bit pattern.
pub uninterp spec fn float_of_int(k: int) -> Option<u64>;

/// The integer of a number that fits in 64 signed bits.
pub open spec fn int_of(m: NumberModel) -> Option<i64> {
    match m {
        NumberModel::Int(k) => if i64::MIN <= k <= i64::MAX {
            Some(k as i64)
        } else {
            None
        },
        NumberModel::Float(_) => None,
    }
}

/// `serde_json::Number::is_f64`: true exactly of a number stored as a float.
#[verifier::external_body]
fn number_is_float(n: &serde_json::Number) -> (r: bool)
    ensures
        r == (number_model(*n) is Float),
{
    n.is_f64()
}

/// `Clone::clone` of `serde_json::Number`: the copy holds the same number.
#[verifier::external_body]
fn number_clone(n: &serde_json::Number) -> (r: serde_json::Number)
    ensures
        number_model(r) == number_model(*n),
{
    n.clone()
}

/// `From<i64>` of `serde_json::Number`: the number holds that integer.
#[verifier::external_body]
pub(crate) fn number_from_int(i: i64) -> (r: serde_json::Number)
    ensures
        number_model(r) == NumberModel::Int(i as int),
{
    serde_json::Number::from(i)
}

/// `serde_json::Number::as_i64`: the integer, where the number is an integer
/// between `i64::MIN` and `i64::MAX`.
#[verifier::external_body]
pub(crate) fn number_as_int(n: &serde_json::Number) -> (r: Option<i64>)
    ensures
        r == int_of(number_model(*n)),
{
    n.as_i64()
}

/// `serde_json::Number::as_f64` followed by `serde_json::Number::from_f64`:
/// the float next to an integer, as a number that is stored as a float.
#[verifier::external_body]
pub(crate) fn number_as_float(n: &serde_json::Number) -> (r: Option<serde_json::Number>)
    ensures
        number_model(*n) matches NumberModel::Int(k) ==> match r {
            Some(f) => number_model(f) is Float && float_of_int(k) == Some(float_bits(f)),
            None => float_of_int(k) is None,
        },
{
    n.as_f64().and_then(serde_json::Number::from_f64)
}

/// `serde_json::Number::as_f64` followed by `f64::to_bits`: the bit pattern of
/// a number that is stored as a float.
#[verifier::external_body]
fn number_bits(n: &serde_json::Number) -> (r: Option<u64>)
    ensures
        number_model(*n) matches NumberModel::Float(bits) ==> r == Some(bits),
{
    n.as_f64().map(|x| x.to_bits())
}

/// The bit pattern of a number that is a float.
pub open spec fn float_bits(n: serde_json::Number) -> u64 {
    number_model(n)->Float_0
}

/// A finite floating-point number. It is made from, and read as, the
/// `serde_json::Number` that carries it.
#[derive(Debug, PartialEq)]
pub struct Float {
    number: serde_json::Number,
}

impl View for Float {
    type V = u64;

    /// The bit pattern of the float.
    closed spec fn view(&self) -> u64 {
        float_bits(self.number)
    }
}

impl Float {
    #[verifier::type_invariant]
    spec fn holds_float(self) -> bool {
        number_model(self.number) is Float
    }

    /// Takes a JSON number that is stored as a float; an integer is refused.
    pub fn from_number(number: serde_json::Number) -> (r: Option<Float>)
        ensures
            match r {
                Some(f) => number_model(number) == NumberModel::Float(f@),
                None => number_model(number) is Int,
            },
    {
        if number_is_float(&number) {
            Some(Float { number })
        } else {
            None
        }
    }

    /// Takes a copy of a JSON number that is stored as a float.
    pub fn copy_of(number: &serde_json::Number) -> (r: Option<Float>)
        ensures
            match r {
                Some(f) => number_model(*number) == NumberModel::Float(f@),
                None => number_model(*number) is Int,
            },
    {
        if number_is_float(number) {
            Some(Float { number: number_clone(number) })
        } else {
            None
        }
    }

    /// The float that the host makes of an integer, where it makes one.
    pub fn from_int(i: i64) -> (r: Option<Float>)
        ensures
            match r {
                Some(f) => float_of_int(i as int) == Some(f@),
                None => float_of_int(i as int) is None,
            },
    {
        let exact = number_from_int(i);
        match number_as_float(&exact) {
            Some(number) => Some(Float { number }),
            None => None,
        }
    }

    /// The bit pattern of the float.
    pub fn to_bits(&self) -> (r: u64)
        ensures
            r == self@,
    {
        proof {
            use_type_invariant(self);
        }
        match number_bits(&self.number) {
            Some(bits) => bits,
            None => unreached(),
        }
    }

    /// The JSON number that carries the float.
    pub fn as_number(&self) -> (r: &serde_json::Number)
        ensures
            number_model(*r) == NumberModel::Float(self@),
    {
        proof {
            use_type_invariant(self);
        }
        &self.number
    }
}

impl Clone for Float {
    fn clone(&self) -> (r: Float)
        ensures
            r@ == self@,
    {
        proof {
            use_type_invariant(self);
        }
        Float { number: number_clone(&self.number) }
    }
}

/// The floating-point values that are no finite number.
#[derive(Clone, Copy, Debug, PartialEq, Eq, Structural)]
pub enum NonFinite {
    NotANumber,
    PositiveInfinity,
    NegativeInfinity,
}

impl NonFinite {
    /// The name of the value, as the standard library reads and writes it.
    pub open spec fn spec_name(self) -> Seq<char> {
        match self {
            NonFinite::NotANumber => "NaN"@,
            NonFinite::PositiveInfinity => "inf"@,
            NonFinite::NegativeInfinity => "-inf"@,
        }
    }

    /// The name of the value, as the standard library reads and writes it.
    pub fn name(self) -> (r: String)
        ensures
            r@ == self.spec_name(),
    {
        match self {
            NonFinite::NotANumber => String::from_str("NaN"),
            NonFinite::PositiveInfinity => String::from_str("inf"),
            NonFinite::NegativeInfinity => String::from_str("-inf"),
        }
    }
}

/// A canonical number.
#[derive(Debug, PartialEq)]
pub enum CanonicalNumber {
    /// An integer, kept exactly.
    Int(i64),
    /// A finite floating-point number.
    Float(Float),
}

impl View for CanonicalNumber {
    type V = NumberModel;

    open spec fn view(&self) -> NumberModel {
        match self {
            CanonicalNumber::Int(i) => NumberModel::Int(*i as int),
            CanonicalNumber::Float(f) => NumberModel::Float(f@),
        }
    }
}

impl CanonicalNumber {
    /// Whether two numbers are the same number. An integer and a float are
    /// never the same, and two floats are the same when their bit patterns are.
    pub fn same_as(&self, other: &CanonicalNumber) -> (r: bool)
        ensures
            r == (self@ == other@),
    {
        match (self, other) {
            (CanonicalNumber::Int(a), CanonicalNumber::Int(b)) => *a == *b,
            (CanonicalNumber::Float(a), CanonicalNumber::Float(b)) => a.to_bits() == b.to_bits(),
            _ => false,
        }
    }
}

impl Clone for CanonicalNumber {
    fn clone(&self) -> (r: CanonicalNumber)
        ensures
            r@ == self@,
    {
        match self {
            CanonicalNumber::Int(i) => CanonicalNumber::Int(*i),
            CanonicalNumber::Float(f) => CanonicalNumber::Float(f.clone()),
        }
    }
}

} // verus!
