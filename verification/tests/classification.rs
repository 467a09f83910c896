use diffx_bridge::convert::to_canonical;
use diffx_bridge::host::{FloatProbe, HostValue, Probes};
use diffx_bridge::number::{CanonicalNumber, Float, NonFinite};
use diffx_bridge::value::CanonicalValue;

fn float(x: f64) -> Float {
    Float::from_number(serde_json::Number::from_f64(x).unwrap()).unwrap()
}

fn silent(kind: &str) -> Probes {
    Probes {
        nil: false,
        boolean: None,
        integer: None,
        float: None,
        text: None,
        list: None,
        tuple: None,
        dict: None,
        kind: kind.to_string(),
    }
}

#[test]
fn host_boolean_is_classified_as_boolean() {
    let probes = Probes {
        boolean: Some(true),
        integer: Some(1),
        float: Some(FloatProbe::Finite(float(1.0))),
        ..silent("bool")
    };
    let value = HostValue::from_probes(probes);
    assert_eq!(value, HostValue::Bool(true));
    assert_eq!(to_canonical(&value), Ok(CanonicalValue::Bool(true)));
}

#[test]
fn host_integer_is_classified_as_integer() {
    let probes = Probes {
        integer: Some(7),
        float: Some(FloatProbe::Finite(float(7.0))),
        ..silent("int")
    };
    let value = HostValue::from_probes(probes);
    assert_eq!(value, HostValue::Int(7));
    assert_eq!(to_canonical(&value), Ok(CanonicalValue::Number(CanonicalNumber::Int(7))));
}

#[test]
fn integer_that_answers_the_float_extraction_only_is_a_float() {
    let probes = Probes { float: Some(FloatProbe::Finite(float(1e30))), ..silent("int") };
    assert_eq!(HostValue::from_probes(probes), HostValue::Float(float(1e30)));
}

#[test]
fn host_float_is_classified_as_float() {
    let finite = Probes { float: Some(FloatProbe::Finite(float(0.5))), ..silent("float") };
    assert_eq!(HostValue::from_probes(finite), HostValue::Float(float(0.5)));
    for kind in [NonFinite::NotANumber, NonFinite::PositiveInfinity, NonFinite::NegativeInfinity] {
        let other = Probes { float: Some(FloatProbe::NonFinite(kind)), ..silent("float") };
        assert_eq!(HostValue::from_probes(other), HostValue::NonFinite(kind));
    }
}

#[test]
fn null_stands_before_every_other_answer() {
    let probes = Probes { nil: true, text: Some("x".to_string()), ..silent("NoneType") };
    assert_eq!(HostValue::from_probes(probes), HostValue::Nil);
}

#[test]
fn text_and_containers_are_classified() {
    let text = Probes { text: Some("x".to_string()), ..silent("str") };
    assert_eq!(HostValue::from_probes(text), HostValue::Text("x".to_string()));
    let list = Probes { list: Some(vec![HostValue::Int(1)]), ..silent("list") };
    assert_eq!(HostValue::from_probes(list), HostValue::List(vec![HostValue::Int(1)]));
    let tuple = Probes { tuple: Some(vec![HostValue::Nil]), ..silent("tuple") };
    assert_eq!(HostValue::from_probes(tuple), HostValue::Tuple(vec![HostValue::Nil]));
    let dict = Probes {
        dict: Some(vec![(HostValue::Text("k".to_string()), HostValue::Int(1))]),
        ..silent("dict")
    };
    assert_eq!(
        HostValue::from_probes(dict),
        HostValue::Dict(vec![(HostValue::Text("k".to_string()), HostValue::Int(1))])
    );
}

#[test]
fn value_without_an_answer_is_of_another_kind() {
    assert_eq!(
        HostValue::from_probes(silent("function")),
        HostValue::Other("function".to_string())
    );
}
