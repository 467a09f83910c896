use diffx_bridge::config::{build_config, OutputFormat};
use diffx_bridge::convert::to_canonical;
use diffx_bridge::engine::{
    compare, diff, format_output, parse, parse_csv, parse_ini, parse_json, parse_to_host,
    parse_toml, parse_xml, parse_yaml, render, version, TextFormat,
};
use diffx_bridge::error::{BridgeError, ConfigFault, ConfigOption, ResultFault};
use diffx_bridge::host::HostValue;
use diffx_bridge::number::{CanonicalNumber, Float, NonFinite};
use diffx_bridge::result::{marshal_results, DiffRecord};
use diffx_bridge::value::{CanonicalValue, Mapping};

fn text(s: &str) -> HostValue {
    HostValue::Text(s.to_string())
}

fn float(x: f64) -> Float {
    Float::from_number(serde_json::Number::from_f64(x).unwrap()).unwrap()
}

fn whole(i: i64) -> CanonicalValue {
    CanonicalValue::Number(CanonicalNumber::Int(i))
}

fn dict(entries: Vec<(&str, HostValue)>) -> HostValue {
    HostValue::Dict(entries.into_iter().map(|(key, value)| (text(key), value)).collect())
}

fn options(entries: Vec<(&str, HostValue)>) -> Vec<(String, HostValue)> {
    entries.into_iter().map(|(name, value)| (name.to_string(), value)).collect()
}

fn modified(path: &str, old: HostValue, new: HostValue) -> HostValue {
    dict(vec![
        ("type", text("Modified")),
        ("path", text(path)),
        ("old_value", old),
        ("new_value", new),
    ])
}

#[test]
fn changed_value_is_reported_as_modified() {
    let old = dict(vec![("a", HostValue::Int(1)), ("b", HostValue::Int(2))]);
    let new = dict(vec![("a", HostValue::Int(1)), ("b", HostValue::Int(3))]);
    let results = diff(&old, &new, &vec![]).unwrap();
    assert_eq!(results, vec![modified("b", HostValue::Int(2), HostValue::Int(3))]);
}

#[test]
fn changed_kind_is_reported_as_type_changed() {
    let old = dict(vec![("x", HostValue::Int(5))]);
    let new = dict(vec![("x", text("5"))]);
    let results = diff(&old, &new, &vec![]).unwrap();
    let expected = dict(vec![
        ("type", text("TypeChanged")),
        ("path", text("x")),
        ("old_value", HostValue::Int(5)),
        ("new_value", text("5")),
    ]);
    assert_eq!(results, vec![expected]);
}

#[test]
fn excluded_key_is_left_out_of_the_comparison() {
    let old = dict(vec![("id", HostValue::Int(1)), ("ts", HostValue::Int(100))]);
    let new = dict(vec![("id", HostValue::Int(1)), ("ts", HostValue::Int(200))]);
    let with = diff(&old, &new, &options(vec![("ignore_keys_regex", text("^ts$"))])).unwrap();
    assert_eq!(with, vec![]);
    let without = diff(&old, &new, &vec![]).unwrap();
    assert_eq!(without, vec![modified("ts", HostValue::Int(100), HostValue::Int(200))]);
}

#[test]
fn excluded_key_is_left_out_at_any_depth() {
    let old = dict(vec![("outer", dict(vec![("ts", HostValue::Int(1)), ("v", HostValue::Int(1))]))]);
    let new = dict(vec![("outer", dict(vec![("ts", HostValue::Int(2)), ("v", HostValue::Int(2))]))]);
    let results = diff(&old, &new, &options(vec![("ignore_keys_regex", text("^ts$"))])).unwrap();
    assert_eq!(results, vec![modified("outer.v", HostValue::Int(1), HostValue::Int(2))]);
}

#[test]
fn equal_values_have_no_differences() {
    let value = dict(vec![("a", HostValue::List(vec![HostValue::Int(1), HostValue::Nil]))]);
    assert_eq!(diff(&value, &value, &vec![]), Ok(vec![]));
}

#[test]
fn added_and_removed_keys_are_reported() {
    let old = dict(vec![("gone", HostValue::Bool(true)), ("kept", HostValue::Int(1))]);
    let new = dict(vec![("kept", HostValue::Int(1)), ("new", HostValue::List(vec![text("x")]))]);
    let results = diff(&old, &new, &vec![]).unwrap();
    let removed = dict(vec![
        ("type", text("Removed")),
        ("path", text("gone")),
        ("value", HostValue::Bool(true)),
    ]);
    let added = dict(vec![
        ("type", text("Added")),
        ("path", text("new")),
        ("value", HostValue::List(vec![text("x")])),
    ]);
    assert_eq!(results, vec![removed, added]);
}

#[test]
fn array_elements_are_compared_by_position() {
    let old = HostValue::List(vec![HostValue::Int(1), HostValue::Int(2)]);
    let new = HostValue::Tuple(vec![HostValue::Int(1), HostValue::Int(5), HostValue::Int(9)]);
    let results = diff(&old, &new, &vec![]).unwrap();
    let added = dict(vec![
        ("type", text("Added")),
        ("path", text("[2]")),
        ("value", HostValue::Int(9)),
    ]);
    assert_eq!(results, vec![modified("[1]", HostValue::Int(2), HostValue::Int(5)), added]);
}

#[test]
fn array_elements_are_matched_by_their_identity_key() {
    let old = HostValue::List(vec![
        dict(vec![("id", HostValue::Int(1)), ("v", text("a"))]),
        dict(vec![("id", HostValue::Int(2)), ("v", text("b"))]),
    ]);
    let new = HostValue::List(vec![
        dict(vec![("id", HostValue::Int(2)), ("v", text("b"))]),
        dict(vec![("id", HostValue::Int(1)), ("v", text("c"))]),
    ]);
    let results = diff(&old, &new, &options(vec![("array_id_key", text("id"))])).unwrap();
    assert_eq!(results, vec![modified("[id=1].v", text("a"), text("c"))]);
}

#[test]
fn numbers_within_the_tolerance_are_equal() {
    let old = dict(vec![("v", HostValue::Float(float(1.0)))]);
    let new = dict(vec![("v", HostValue::Float(float(1.05)))]);
    let wide = diff(&old, &new, &options(vec![("epsilon", HostValue::Float(float(0.1)))]));
    assert_eq!(wide, Ok(vec![]));
    let narrow = diff(&old, &new, &options(vec![("epsilon", HostValue::Float(float(0.01)))]));
    assert_eq!(
        narrow,
        Ok(vec![modified("v", HostValue::Float(float(1.0)), HostValue::Float(float(1.05)))])
    );
    let exact = diff(&old, &new, &vec![]);
    assert_eq!(
        exact,
        Ok(vec![modified("v", HostValue::Float(float(1.0)), HostValue::Float(float(1.05)))])
    );
}

#[test]
fn integer_tolerance_is_taken_as_a_float() {
    let old = dict(vec![("v", HostValue::Int(10))]);
    let new = dict(vec![("v", HostValue::Int(12))]);
    assert_eq!(diff(&old, &new, &options(vec![("epsilon", HostValue::Int(2))])), Ok(vec![]));
    assert_eq!(
        diff(&old, &new, &options(vec![("epsilon", HostValue::Int(1))])),
        Ok(vec![modified("v", HostValue::Int(10), HostValue::Int(12))])
    );
}

#[test]
fn integer_and_float_of_the_same_value_differ_without_tolerance() {
    let old = dict(vec![("v", HostValue::Int(1))]);
    let new = dict(vec![("v", HostValue::Float(float(1.0)))]);
    assert_eq!(
        diff(&old, &new, &vec![]),
        Ok(vec![modified("v", HostValue::Int(1), HostValue::Float(float(1.0)))])
    );
}

#[test]
fn path_filter_keeps_the_paths_that_contain_it() {
    let old = dict(vec![("user", HostValue::Int(1)), ("other", HostValue::Int(1))]);
    let new = dict(vec![("user", HostValue::Int(2)), ("other", HostValue::Int(2))]);
    let results = diff(&old, &new, &options(vec![("path_filter", text("use"))])).unwrap();
    assert_eq!(results, vec![modified("user", HostValue::Int(1), HostValue::Int(2))]);
}

#[test]
fn case_and_whitespace_can_be_ignored_in_strings() {
    let old = dict(vec![("s", text("Hello World"))]);
    let new = dict(vec![("s", text("hello  world"))]);
    let both = options(vec![
        ("ignore_case", HostValue::Bool(true)),
        ("ignore_whitespace", HostValue::Bool(true)),
    ]);
    assert_eq!(diff(&old, &new, &both), Ok(vec![]));
    let case_only = options(vec![("ignore_case", HostValue::Bool(true))]);
    assert_eq!(
        diff(&old, &new, &case_only),
        Ok(vec![modified("s", text("Hello World"), text("hello  world"))])
    );
}

#[test]
fn non_finite_float_is_compared_as_zero() {
    let old = dict(vec![("v", HostValue::NonFinite(NonFinite::NotANumber))]);
    let new = dict(vec![("v", HostValue::Int(0))]);
    assert_eq!(diff(&old, &new, &vec![]), Ok(vec![]));
}

#[test]
fn old_value_is_converted_first() {
    let bad_old = HostValue::Other("function".to_string());
    let bad_new = HostValue::Other("module".to_string());
    let bad_options = options(vec![("epsilon", text("x"))]);
    assert_eq!(
        diff(&bad_old, &bad_new, &bad_options),
        Err(BridgeError::UnsupportedType { kind: "function".to_string() })
    );
    assert_eq!(
        diff(&HostValue::Nil, &bad_new, &bad_options),
        Err(BridgeError::UnsupportedType { kind: "module".to_string() })
    );
    assert_eq!(
        diff(&HostValue::Nil, &HostValue::Nil, &bad_options),
        Err(BridgeError::Configuration {
            option: ConfigOption::Epsilon,
            reason: ConfigFault::WrongType
        })
    );
}

#[test]
fn comparison_of_canonical_values() {
    let mut old = Mapping::new();
    old.insert("a".to_string(), whole(1));
    let mut new = Mapping::new();
    new.insert("a".to_string(), CanonicalValue::Null);
    let config = build_config(&vec![]).unwrap();
    let results =
        compare(&CanonicalValue::Object(old), &CanonicalValue::Object(new), &config).unwrap();
    assert_eq!(
        results,
        vec![DiffRecord::TypeChanged("a".to_string(), whole(1), CanonicalValue::Null)]
    );
}

#[test]
fn mapping_comes_back_from_the_engine_with_its_keys_in_the_engine_order() {
    let old = HostValue::Dict(vec![]);
    let new = dict(vec![("m", dict(vec![("z", HostValue::Int(1)), ("a", HostValue::Int(2))]))]);
    let results = diff(&old, &new, &vec![]).unwrap();
    let added = dict(vec![
        ("type", text("Added")),
        ("path", text("m")),
        ("value", dict(vec![("a", HostValue::Int(2)), ("z", HostValue::Int(1))])),
    ]);
    assert_eq!(results, vec![added]);
}

#[test]
fn parse_json_gives_host_values() {
    let parsed = parse_json(r#"{"b": [1, 2.5, "x", null, true], "a": {"k": -7}}"#).unwrap();
    let expected = dict(vec![
        ("a", dict(vec![("k", HostValue::Int(-7))])),
        (
            "b",
            HostValue::List(vec![
                HostValue::Int(1),
                HostValue::Float(float(2.5)),
                text("x"),
                HostValue::Nil,
                HostValue::Bool(true),
            ]),
        ),
    ]);
    assert_eq!(parsed, expected);
}

#[test]
fn integer_beyond_64_signed_bits_is_parsed_as_a_float() {
    let parsed = parse_json("[9223372036854775807, 9223372036854775808, 18446744073709551615]");
    let expected = HostValue::List(vec![
        HostValue::Int(i64::MAX),
        HostValue::Float(float(9223372036854775808.0)),
        HostValue::Float(float(18446744073709551615.0)),
    ]);
    assert_eq!(parsed, Ok(expected));
}

#[test]
fn parse_json_refuses_what_is_no_json() {
    match parse_json("{") {
        Err(BridgeError::Parse { message }) => assert!(message.starts_with("JSON parse error")),
        other => panic!("no parse failure: {:?}", other),
    }
}

#[test]
fn parse_yaml_gives_host_values() {
    let parsed = parse_yaml("name: x\nitems:\n  - 1\n  - true\n  - ~\n").unwrap();
    let expected = dict(vec![
        ("items", HostValue::List(vec![HostValue::Int(1), HostValue::Bool(true), HostValue::Nil])),
        ("name", text("x")),
    ]);
    assert_eq!(parsed, expected);
}

#[test]
fn parse_yaml_refuses_what_is_no_yaml() {
    match parse_yaml("a: [1, 2") {
        Err(BridgeError::Parse { message }) => assert!(message.starts_with("YAML parse error")),
        other => panic!("no parse failure: {:?}", other),
    }
}

#[test]
fn parse_toml_gives_host_values() {
    let parsed = parse_toml("title = \"t\"\n[owner]\nage = 3\nratio = 0.5\n").unwrap();
    let expected = dict(vec![
        ("owner", dict(vec![("age", HostValue::Int(3)), ("ratio", HostValue::Float(float(0.5)))])),
        ("title", text("t")),
    ]);
    assert_eq!(parsed, expected);
}

#[test]
fn parse_toml_refuses_what_is_no_toml() {
    assert!(matches!(parse_toml("= 1"), Err(BridgeError::Parse { .. })));
}

#[test]
fn parse_csv_gives_a_list_of_rows() {
    let parsed = parse_csv("name,age\nAlice,30\nBob,25\n").unwrap();
    let expected = HostValue::List(vec![
        dict(vec![("age", text("30")), ("name", text("Alice"))]),
        dict(vec![("age", text("25")), ("name", text("Bob"))]),
    ]);
    assert_eq!(parsed, expected);
}

#[test]
fn parse_csv_refuses_rows_of_unequal_length() {
    assert!(matches!(parse_csv("a,b\n1,2,3\n"), Err(BridgeError::Parse { .. })));
}

#[test]
fn parse_ini_gives_sections() {
    let parsed = parse_ini("top = 1\n[server]\nhost = localhost\n; note\nport=80\n").unwrap();
    let expected = dict(vec![
        ("default", dict(vec![("top", text("1"))])),
        ("server", dict(vec![("host", text("localhost")), ("port", text("80"))])),
    ]);
    assert_eq!(parsed, expected);
}

#[test]
fn parse_xml_gives_elements() {
    let parsed = parse_xml("<r id=\"7\"><a>1</a><b/></r>").unwrap();
    let expected = dict(vec![(
        "r",
        dict(vec![("a", text("1")), ("b", HostValue::Dict(vec![])), ("id", text("7"))]),
    )]);
    assert_eq!(parsed, expected);
}

#[test]
fn parse_xml_refuses_a_wrong_closing_tag() {
    assert!(matches!(parse_xml("<a></b>"), Err(BridgeError::Parse { .. })));
}

#[test]
fn parse_by_format() {
    let canonical = parse(TextFormat::Json, "[1]").unwrap();
    assert_eq!(canonical, CanonicalValue::Array(vec![whole(1)]));
    let host = parse_to_host(TextFormat::Yaml, "- 1").unwrap();
    assert_eq!(host, HostValue::List(vec![HostValue::Int(1)]));
    assert_eq!(to_canonical(&host), Ok(canonical));
}

#[test]
fn differences_are_rendered_line_by_line() {
    let results = vec![
        DiffRecord::Added("/a".to_string(), whole(1)),
        DiffRecord::Modified("b".to_string(), whole(2), CanonicalValue::String("x".to_string())),
    ];
    let text = render(&results, OutputFormat::Diffx).unwrap();
    assert_eq!(text, "{\"Added\":[\"/a\",1]}\n{\"Modified\":[\"b\",2,\"x\"]}\n");
}

#[test]
fn differences_are_rendered_as_json() {
    let results = vec![DiffRecord::Removed("k".to_string(), CanonicalValue::Bool(false))];
    let text = render(&results, OutputFormat::Json).unwrap();
    assert_eq!(text, "[\n  {\n    \"Removed\": [\n      \"k\",\n      false\n    ]\n  }\n]");
}

#[test]
fn differences_are_rendered_as_yaml() {
    let results = vec![DiffRecord::Added("k".to_string(), whole(1))];
    let text = render(&results, OutputFormat::Yaml).unwrap();
    let engine = diffx_core::format_output(
        &[diffx_core::DiffResult::Added("k".to_string(), serde_json::Value::from(1))],
        diffx_core::OutputFormat::Yaml,
    )
    .unwrap();
    assert_eq!(text, engine);
    assert!(text.contains("Added"));
}

#[test]
fn float_is_rendered_as_a_float() {
    let results =
        vec![DiffRecord::Added("f".to_string(), CanonicalValue::Number(CanonicalNumber::Float(float(1.0))))];
    assert_eq!(render(&results, OutputFormat::Diffx).unwrap(), "{\"Added\":[\"f\",1.0]}\n");
}

#[test]
fn no_differences_are_rendered_as_nothing() {
    assert_eq!(render(&vec![], OutputFormat::Diffx), Ok(String::new()));
    assert_eq!(render(&vec![], OutputFormat::Json), Ok("[]".to_string()));
}

#[test]
fn host_results_are_rendered_under_a_format_name() {
    let old = dict(vec![("a", HostValue::Int(1)), ("b", HostValue::Int(2))]);
    let new = dict(vec![("a", HostValue::Int(1)), ("b", HostValue::Int(3))]);
    let results = diff(&old, &new, &vec![]).unwrap();
    let text = format_output(&results, &"diffx".to_string()).unwrap();
    assert_eq!(text, "{\"Modified\":[\"b\",2,3]}\n");
    let yaml = format_output(&results, &"yml".to_string()).unwrap();
    assert_eq!(yaml, format_output(&results, &"yaml".to_string()).unwrap());
}

#[test]
fn format_output_refuses_an_unknown_format_name() {
    let results = marshal_results(&vec![DiffRecord::Added("a".to_string(), whole(1))]);
    assert_eq!(
        format_output(&results, &"xml".to_string()),
        Err(BridgeError::Configuration {
            option: ConfigOption::OutputFormat,
            reason: ConfigFault::UnknownFormat {
                valid: vec!["diffx".to_string(), "json".to_string(), "yaml".to_string()]
            }
        })
    );
}

#[test]
fn format_output_reads_the_results_before_the_format_name() {
    let results = vec![HostValue::Int(1)];
    assert_eq!(
        format_output(&results, &"xml".to_string()),
        Err(BridgeError::MalformedResult { fault: ResultFault::NotAMapping })
    );
}

#[test]
fn version_is_a_semantic_version() {
    assert_eq!(version(), "0.6.1");
}

#[test]
fn differences_under_an_identity_key_are_the_same_in_any_order() {
    let element = |id: i64, v: &str| dict(vec![("id", HostValue::Int(id)), ("v", text(v))]);
    let old = HostValue::List(vec![element(1, "a"), element(2, "b"), element(3, "c")]);
    let new = HostValue::List(vec![element(3, "z"), element(1, "x"), element(4, "d")]);
    let results = diff(&old, &new, &options(vec![("array_id_key", text("id"))])).unwrap();
    let expected = vec![
        dict(vec![("type", text("Removed")), ("path", text("[id=2]")), ("value", element(2, "b"))]),
        modified("[id=1].v", text("a"), text("x")),
        modified("[id=3].v", text("c"), text("z")),
        dict(vec![("type", text("Added")), ("path", text("[id=4]")), ("value", element(4, "d"))]),
    ];
    assert_eq!(results.len(), expected.len());
    for wanted in &expected {
        assert_eq!(results.iter().filter(|found| *found == wanted).count(), 1);
    }
}

#[test]
fn every_variant_is_handed_to_the_renderer() {
    let results = vec![
        DiffRecord::Added("a".to_string(), CanonicalValue::Null),
        DiffRecord::Removed("b".to_string(), CanonicalValue::Array(vec![whole(1)])),
        DiffRecord::Modified("c".to_string(), whole(1), whole(2)),
        DiffRecord::TypeChanged("d".to_string(), whole(5), CanonicalValue::String("5".to_string())),
    ];
    let text = render(&results, OutputFormat::Diffx).unwrap();
    let expected = "{\"Added\":[\"a\",null]}\n{\"Removed\":[\"b\",[1]]}\n\
                    {\"Modified\":[\"c\",1,2]}\n{\"TypeChanged\":[\"d\",5,\"5\"]}\n";
    assert_eq!(text, expected);
}

#[test]
fn mapping_is_handed_to_the_renderer_with_its_entries() {
    let mut mapping = Mapping::new();
    mapping.insert("z".to_string(), whole(1));
    mapping.insert("a".to_string(), CanonicalValue::Bool(true));
    let results = vec![DiffRecord::Added("m".to_string(), CanonicalValue::Object(mapping))];
    let text = render(&results, OutputFormat::Diffx).unwrap();
    assert_eq!(text, "{\"Added\":[\"m\",{\"a\":true,\"z\":1}]}\n");
}

#[test]
fn tolerance_that_is_infinite_or_no_number_is_handed_to_the_engine() {
    let old = dict(vec![("v", HostValue::Int(1)), ("w", HostValue::Int(5))]);
    let new = dict(vec![("v", HostValue::Int(1000)), ("w", HostValue::Int(5))]);
    let with = |kind| diff(&old, &new, &options(vec![("epsilon", HostValue::NonFinite(kind))]));
    assert_eq!(with(NonFinite::PositiveInfinity), Ok(vec![]));
    assert_eq!(with(NonFinite::NotANumber), Ok(vec![]));
    assert_eq!(
        with(NonFinite::NegativeInfinity),
        Ok(vec![
            modified("v", HostValue::Int(1), HostValue::Int(1000)),
            modified("w", HostValue::Int(5), HostValue::Int(5)),
        ])
    );
}

#[test]
fn key_pattern_matches_as_its_text_says() {
    let old = dict(vec![("TS", HostValue::Int(1)), ("ts", HostValue::Int(1))]);
    let new = dict(vec![("TS", HostValue::Int(2)), ("ts", HostValue::Int(2))]);
    let results = diff(&old, &new, &options(vec![("ignore_keys_regex", text("^ts$"))])).unwrap();
    assert_eq!(results, vec![modified("TS", HostValue::Int(1), HostValue::Int(2))]);
    let any_case = diff(&old, &new, &options(vec![("ignore_keys_regex", text("(?i)^ts$"))]));
    assert_eq!(any_case, Ok(vec![]));
}
