use diffx_bridge::error::{BridgeError, ResultFault, ResultField};
use diffx_bridge::host::HostValue;
use diffx_bridge::number::{CanonicalNumber, Float};
use diffx_bridge::result::{
    marshal_result, marshal_results, unmarshal_result, unmarshal_results, DiffKind, DiffRecord,
};
use diffx_bridge::value::{CanonicalValue, Mapping};

fn text(s: &str) -> HostValue {
    HostValue::Text(s.to_string())
}

fn whole(i: i64) -> CanonicalValue {
    CanonicalValue::Number(CanonicalNumber::Int(i))
}

fn entry(key: &str, value: HostValue) -> (HostValue, HostValue) {
    (text(key), value)
}

fn malformed(fault: ResultFault) -> BridgeError {
    BridgeError::MalformedResult { fault }
}

fn sample_value() -> CanonicalValue {
    let mut mapping = Mapping::new();
    mapping.insert("k".to_string(), CanonicalValue::Array(vec![whole(1), CanonicalValue::Null]));
    let half = Float::from_number(serde_json::Number::from_f64(0.5).unwrap()).unwrap();
    mapping.insert("f".to_string(), CanonicalValue::Number(CanonicalNumber::Float(half)));
    CanonicalValue::Object(mapping)
}

#[test]
fn added_is_marshalled_with_its_discriminator() {
    let result = DiffRecord::Added("/a".to_string(), whole(1));
    let expected = HostValue::Dict(vec![
        entry("type", text("Added")),
        entry("path", text("/a")),
        entry("value", HostValue::Int(1)),
    ]);
    assert_eq!(marshal_result(&result), expected);
}

#[test]
fn marshalled_added_is_read_back() {
    let host = HostValue::Dict(vec![
        entry("type", text("Added")),
        entry("path", text("/a")),
        entry("value", HostValue::Int(1)),
    ]);
    assert_eq!(unmarshal_result(&host), Ok(DiffRecord::Added("/a".to_string(), whole(1))));
}

#[test]
fn removed_is_marshalled() {
    let result = DiffRecord::Removed("a.b".to_string(), CanonicalValue::Bool(true));
    let expected = HostValue::Dict(vec![
        entry("type", text("Removed")),
        entry("path", text("a.b")),
        entry("value", HostValue::Bool(true)),
    ]);
    assert_eq!(marshal_result(&result), expected);
}

#[test]
fn modified_is_marshalled() {
    let result = DiffRecord::Modified("b".to_string(), whole(2), whole(3));
    let expected = HostValue::Dict(vec![
        entry("type", text("Modified")),
        entry("path", text("b")),
        entry("old_value", HostValue::Int(2)),
        entry("new_value", HostValue::Int(3)),
    ]);
    assert_eq!(marshal_result(&result), expected);
}

#[test]
fn type_changed_is_marshalled() {
    let result = DiffRecord::TypeChanged(
        "x".to_string(),
        whole(5),
        CanonicalValue::String("5".to_string()),
    );
    let expected = HostValue::Dict(vec![
        entry("type", text("TypeChanged")),
        entry("path", text("x")),
        entry("old_value", HostValue::Int(5)),
        entry("new_value", text("5")),
    ]);
    assert_eq!(marshal_result(&result), expected);
}

#[test]
fn every_variant_comes_back_from_its_host_form() {
    let results = vec![
        DiffRecord::Added("a".to_string(), sample_value()),
        DiffRecord::Removed("b[0]".to_string(), CanonicalValue::Null),
        DiffRecord::Modified("c".to_string(), whole(1), sample_value()),
        DiffRecord::TypeChanged("d".to_string(), sample_value(), CanonicalValue::Bool(false)),
    ];
    for result in &results {
        assert_eq!(unmarshal_result(&marshal_result(result)), Ok(result.clone()));
    }
    assert_eq!(unmarshal_results(&marshal_results(&results)), Ok(results));
}

#[test]
fn empty_list_of_results() {
    assert_eq!(marshal_results(&vec![]), vec![]);
    assert_eq!(unmarshal_results(&vec![]), Ok(vec![]));
}

#[test]
fn discriminators_are_exact() {
    assert_eq!(DiffKind::Added.name(), "Added");
    assert_eq!(DiffKind::Removed.name(), "Removed");
    assert_eq!(DiffKind::Modified.name(), "Modified");
    assert_eq!(DiffKind::TypeChanged.name(), "TypeChanged");
    assert_eq!(DiffKind::from_name(&"Added".to_string()), Some(DiffKind::Added));
    assert_eq!(DiffKind::from_name(&"Removed".to_string()), Some(DiffKind::Removed));
    assert_eq!(DiffKind::from_name(&"Modified".to_string()), Some(DiffKind::Modified));
    assert_eq!(DiffKind::from_name(&"TypeChanged".to_string()), Some(DiffKind::TypeChanged));
    assert_eq!(DiffKind::from_name(&"added".to_string()), None);
    assert_eq!(DiffKind::from_name(&"Typechanged".to_string()), None);
    assert!(!DiffKind::Added.has_two_values());
    assert!(!DiffKind::Removed.has_two_values());
    assert!(DiffKind::Modified.has_two_values());
    assert!(DiffKind::TypeChanged.has_two_values());
}

#[test]
fn field_names_are_exact() {
    assert_eq!(ResultField::Type.name(), "type");
    assert_eq!(ResultField::Path.name(), "path");
    assert_eq!(ResultField::Value.name(), "value");
    assert_eq!(ResultField::OldValue.name(), "old_value");
    assert_eq!(ResultField::NewValue.name(), "new_value");
}

#[test]
fn value_that_is_no_mapping_is_malformed() {
    assert_eq!(
        unmarshal_result(&HostValue::List(vec![])),
        Err(malformed(ResultFault::NotAMapping))
    );
    assert_eq!(unmarshal_result(&text("Added")), Err(malformed(ResultFault::NotAMapping)));
}

#[test]
fn missing_type_is_malformed() {
    let host = HostValue::Dict(vec![entry("path", text("a")), entry("value", HostValue::Int(1))]);
    assert_eq!(
        unmarshal_result(&host),
        Err(malformed(ResultFault::MissingField(ResultField::Type)))
    );
}

#[test]
fn missing_path_is_malformed() {
    let host = HostValue::Dict(vec![entry("type", text("Added")), entry("value", HostValue::Int(1))]);
    assert_eq!(
        unmarshal_result(&host),
        Err(malformed(ResultFault::MissingField(ResultField::Path)))
    );
}

#[test]
fn missing_path_is_reported_before_an_unknown_discriminator() {
    let host = HostValue::Dict(vec![entry("type", text("Moved"))]);
    assert_eq!(
        unmarshal_result(&host),
        Err(malformed(ResultFault::MissingField(ResultField::Path)))
    );
}

#[test]
fn missing_value_is_malformed() {
    for kind in ["Added", "Removed"] {
        let host = HostValue::Dict(vec![
            entry("type", text(kind)),
            entry("path", text("a")),
            entry("old_value", HostValue::Int(1)),
        ]);
        assert_eq!(
            unmarshal_result(&host),
            Err(malformed(ResultFault::MissingField(ResultField::Value)))
        );
    }
}

#[test]
fn missing_old_value_is_malformed() {
    for kind in ["Modified", "TypeChanged"] {
        let host = HostValue::Dict(vec![
            entry("type", text(kind)),
            entry("path", text("a")),
            entry("new_value", HostValue::Int(1)),
        ]);
        assert_eq!(
            unmarshal_result(&host),
            Err(malformed(ResultFault::MissingField(ResultField::OldValue)))
        );
    }
}

#[test]
fn missing_new_value_is_malformed() {
    for kind in ["Modified", "TypeChanged"] {
        let host = HostValue::Dict(vec![
            entry("type", text(kind)),
            entry("path", text("a")),
            entry("old_value", HostValue::Other("function".to_string())),
        ]);
        assert_eq!(
            unmarshal_result(&host),
            Err(malformed(ResultFault::MissingField(ResultField::NewValue)))
        );
    }
}

#[test]
fn unknown_discriminator_is_malformed() {
    for kind in ["Moved", "added", "ADDED", ""] {
        let host = HostValue::Dict(vec![
            entry("type", text(kind)),
            entry("path", text("a")),
            entry("value", HostValue::Int(1)),
        ]);
        assert_eq!(
            unmarshal_result(&host),
            Err(malformed(ResultFault::UnknownDiscriminator))
        );
    }
}

#[test]
fn discriminator_that_is_no_text_is_malformed() {
    let host = HostValue::Dict(vec![
        entry("type", HostValue::Int(1)),
        entry("path", text("a")),
        entry("value", HostValue::Int(1)),
    ]);
    assert_eq!(unmarshal_result(&host), Err(malformed(ResultFault::NotText(ResultField::Type))));
}

#[test]
fn path_that_is_no_text_is_malformed() {
    let host = HostValue::Dict(vec![
        entry("type", text("Added")),
        entry("path", HostValue::List(vec![])),
        entry("value", HostValue::Int(1)),
    ]);
    assert_eq!(unmarshal_result(&host), Err(malformed(ResultFault::NotText(ResultField::Path))));
}

#[test]
fn value_of_an_unsupported_kind_is_refused() {
    let host = HostValue::Dict(vec![
        entry("type", text("Added")),
        entry("path", text("a")),
        entry("value", HostValue::Other("function".to_string())),
    ]);
    assert_eq!(
        unmarshal_result(&host),
        Err(BridgeError::UnsupportedType { kind: "function".to_string() })
    );
}

#[test]
fn fields_in_any_order_and_extra_fields() {
    let host = HostValue::Dict(vec![
        entry("new_value", HostValue::Int(3)),
        entry("note", text("ignored")),
        (HostValue::Int(9), HostValue::Nil),
        entry("path", text("b")),
        entry("old_value", HostValue::Int(2)),
        entry("type", text("Modified")),
        entry("value", HostValue::Int(0)),
    ]);
    assert_eq!(
        unmarshal_result(&host),
        Ok(DiffRecord::Modified("b".to_string(), whole(2), whole(3)))
    );
}

#[test]
fn last_entry_under_a_key_counts() {
    let host = HostValue::Dict(vec![
        entry("type", text("Removed")),
        entry("type", text("Added")),
        entry("path", text("a")),
        entry("value", HostValue::Int(1)),
        entry("value", HostValue::Int(2)),
    ]);
    assert_eq!(unmarshal_result(&host), Ok(DiffRecord::Added("a".to_string(), whole(2))));
}

#[test]
fn first_malformed_result_fails_the_list() {
    let good = marshal_result(&DiffRecord::Added("a".to_string(), whole(1)));
    let values = vec![good.clone(), HostValue::Nil, HostValue::Dict(vec![]), good];
    assert_eq!(unmarshal_results(&values), Err(malformed(ResultFault::NotAMapping)));
}
