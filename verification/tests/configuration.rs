use diffx_bridge::config::{build_config, unknown_options, KeyPattern, OutputFormat, Tolerance};
use diffx_bridge::error::{BridgeError, ConfigFault, ConfigOption};
use diffx_bridge::host::HostValue;
use diffx_bridge::number::{Float, NonFinite};

fn text(s: &str) -> HostValue {
    HostValue::Text(s.to_string())
}

fn float(x: f64) -> Float {
    Float::from_number(serde_json::Number::from_f64(x).unwrap()).unwrap()
}

fn options(entries: Vec<(&str, HostValue)>) -> Vec<(String, HostValue)> {
    entries.into_iter().map(|(name, value)| (name.to_string(), value)).collect()
}

fn refused(option: ConfigOption, reason: ConfigFault) -> BridgeError {
    BridgeError::Configuration { option, reason }
}

fn unknown_format() -> ConfigFault {
    ConfigFault::UnknownFormat {
        valid: vec!["diffx".to_string(), "json".to_string(), "yaml".to_string()],
    }
}

fn failure(entries: Vec<(&str, HostValue)>) -> BridgeError {
    build_config(&options(entries)).unwrap_err()
}

#[test]
fn no_options_give_the_empty_configuration() {
    let config = build_config(&vec![]).unwrap();
    assert!(config.epsilon.is_none());
    assert!(config.array_id_key.is_none());
    assert!(config.ignore_keys_regex.is_none());
    assert!(config.path_filter.is_none());
    assert!(config.output_format.is_none());
    assert!(config.show_unchanged.is_none());
    assert!(config.show_types.is_none());
    assert!(config.use_memory_optimization.is_none());
    assert!(config.batch_size.is_none());
    assert!(config.ignore_whitespace.is_none());
    assert!(config.ignore_case.is_none());
    assert!(config.brief_mode.is_none());
    assert!(config.quiet_mode.is_none());
}

#[test]
fn every_option_is_read() {
    let config = build_config(&options(vec![
        ("epsilon", HostValue::Float(float(0.25))),
        ("array_id_key", text("id")),
        ("ignore_keys_regex", text("^ts$")),
        ("path_filter", text("user")),
        ("output_format", text("json")),
        ("show_unchanged", HostValue::Bool(true)),
        ("show_types", HostValue::Bool(false)),
        ("use_memory_optimization", HostValue::Bool(true)),
        ("batch_size", HostValue::Int(500)),
        ("ignore_whitespace", HostValue::Bool(true)),
        ("ignore_case", HostValue::Bool(false)),
        ("brief_mode", HostValue::Bool(true)),
        ("quiet_mode", HostValue::Bool(false)),
    ]))
    .unwrap();
    assert_eq!(config.epsilon, Some(Tolerance::Finite(float(0.25))));
    assert_eq!(config.array_id_key, Some("id".to_string()));
    let pattern = config.ignore_keys_regex.as_ref().unwrap().as_regex();
    assert_eq!(pattern.as_str(), "^ts$");
    assert!(pattern.is_match("ts"));
    assert!(!pattern.is_match("tsx"));
    assert!(!pattern.is_match("TS"));
    assert_eq!(config.path_filter, Some("user".to_string()));
    assert_eq!(config.output_format, Some(OutputFormat::Json));
    assert_eq!(config.show_unchanged, Some(true));
    assert_eq!(config.show_types, Some(false));
    assert_eq!(config.use_memory_optimization, Some(true));
    assert_eq!(config.batch_size, Some(500));
    assert_eq!(config.ignore_whitespace, Some(true));
    assert_eq!(config.ignore_case, Some(false));
    assert_eq!(config.brief_mode, Some(true));
    assert_eq!(config.quiet_mode, Some(false));
}

#[test]
fn unclosed_group_is_refused_when_the_configuration_is_built() {
    assert_eq!(
        failure(vec![("ignore_keys_regex", text("(unclosed"))]),
        refused(ConfigOption::IgnoreKeysRegex, ConfigFault::InvalidRegex)
    );
}

#[test]
fn unknown_format_name_is_refused() {
    assert_eq!(
        failure(vec![("output_format", text("xml"))]),
        refused(ConfigOption::OutputFormat, unknown_format())
    );
    assert_eq!(
        OutputFormat::from_name(&"".to_string()),
        Err(refused(ConfigOption::OutputFormat, unknown_format()))
    );
}

#[test]
fn format_names() {
    assert_eq!(OutputFormat::from_name(&"diffx".to_string()), Ok(OutputFormat::Diffx));
    assert_eq!(OutputFormat::from_name(&"json".to_string()), Ok(OutputFormat::Json));
    assert_eq!(OutputFormat::from_name(&"yaml".to_string()), Ok(OutputFormat::Yaml));
    assert_eq!(OutputFormat::from_name(&"yml".to_string()), Ok(OutputFormat::Yaml));
    assert_eq!(OutputFormat::from_name(&"JSON".to_string()), Ok(OutputFormat::Json));
    assert_eq!(OutputFormat::Diffx.name(), "diffx");
    assert_eq!(OutputFormat::Json.name(), "json");
    assert_eq!(OutputFormat::Yaml.name(), "yaml");
    assert_eq!(OutputFormat::names(), vec!["diffx", "json", "yaml"]);
    for name in OutputFormat::names() {
        assert_eq!(OutputFormat::from_name(&name).unwrap().name(), name);
    }
}

#[test]
fn flag_has_to_be_a_boolean() {
    let flags = [
        ("show_unchanged", ConfigOption::ShowUnchanged),
        ("show_types", ConfigOption::ShowTypes),
        ("use_memory_optimization", ConfigOption::UseMemoryOptimization),
        ("ignore_whitespace", ConfigOption::IgnoreWhitespace),
        ("ignore_case", ConfigOption::IgnoreCase),
        ("brief_mode", ConfigOption::BriefMode),
        ("quiet_mode", ConfigOption::QuietMode),
    ];
    for (name, option) in flags {
        assert_eq!(option.name(), name);
        assert_eq!(
            failure(vec![(name, HostValue::Int(1))]),
            refused(option, ConfigFault::WrongType)
        );
        assert_eq!(failure(vec![(name, text("true"))]), refused(option, ConfigFault::WrongType));
        assert_eq!(failure(vec![(name, HostValue::Nil)]), refused(option, ConfigFault::WrongType));
    }
}

#[test]
fn text_option_has_to_be_text() {
    let texts = [
        ("array_id_key", ConfigOption::ArrayIdKey),
        ("ignore_keys_regex", ConfigOption::IgnoreKeysRegex),
        ("path_filter", ConfigOption::PathFilter),
        ("output_format", ConfigOption::OutputFormat),
    ];
    for (name, option) in texts {
        assert_eq!(option.name(), name);
        assert_eq!(
            failure(vec![(name, HostValue::Int(1))]),
            refused(option, ConfigFault::WrongType)
        );
        assert_eq!(
            failure(vec![(name, HostValue::List(vec![]))]),
            refused(option, ConfigFault::WrongType)
        );
    }
}

#[test]
fn epsilon_takes_a_float_or_an_integer() {
    let from_float = build_config(&options(vec![("epsilon", HostValue::Float(float(0.001)))]));
    assert_eq!(from_float.unwrap().epsilon, Some(Tolerance::Finite(float(0.001))));
    let from_int = build_config(&options(vec![("epsilon", HostValue::Int(2))]));
    assert_eq!(from_int.unwrap().epsilon, Some(Tolerance::Finite(float(2.0))));
    let from_bool = build_config(&options(vec![("epsilon", HostValue::Bool(true))]));
    assert_eq!(from_bool.unwrap().epsilon, Some(Tolerance::Finite(float(1.0))));
}

#[test]
fn epsilon_refuses_what_is_no_number() {
    assert_eq!(ConfigOption::Epsilon.name(), "epsilon");
    for value in [text("0.1"), HostValue::Nil, HostValue::List(vec![])] {
        assert_eq!(
            failure(vec![("epsilon", value)]),
            refused(ConfigOption::Epsilon, ConfigFault::WrongType)
        );
    }
}

#[test]
fn batch_size_takes_an_integer_that_is_not_negative() {
    assert_eq!(ConfigOption::BatchSize.name(), "batch_size");
    let zero = build_config(&options(vec![("batch_size", HostValue::Int(0))]));
    assert_eq!(zero.unwrap().batch_size, Some(0));
    let large = build_config(&options(vec![("batch_size", HostValue::Int(i64::MAX))]));
    assert_eq!(large.unwrap().batch_size, Some(i64::MAX as u64));
    for value in [HostValue::Int(-1), HostValue::Float(float(1.0)), text("10")] {
        assert_eq!(
            failure(vec![("batch_size", value)]),
            refused(ConfigOption::BatchSize, ConfigFault::WrongType)
        );
    }
}

#[test]
fn unknown_option_is_passed_over() {
    let config = build_config(&options(vec![
        ("colour", text("red")),
        ("Epsilon", text("not a number")),
        ("brief_mode", HostValue::Bool(true)),
    ]))
    .unwrap();
    assert!(config.epsilon.is_none());
    assert_eq!(config.brief_mode, Some(true));
}

#[test]
fn last_value_of_an_option_counts() {
    let config = build_config(&options(vec![
        ("path_filter", HostValue::Int(1)),
        ("path_filter", text("a")),
        ("path_filter", text("b")),
    ]))
    .unwrap();
    assert_eq!(config.path_filter, Some("b".to_string()));
    assert_eq!(
        failure(vec![("path_filter", text("a")), ("path_filter", HostValue::Int(1))]),
        refused(ConfigOption::PathFilter, ConfigFault::WrongType)
    );
}

#[test]
fn first_refusal_in_the_fixed_order_is_reported() {
    assert_eq!(
        failure(vec![
            ("quiet_mode", HostValue::Int(1)),
            ("output_format", text("xml")),
            ("ignore_keys_regex", text("(")),
        ]),
        refused(ConfigOption::IgnoreKeysRegex, ConfigFault::InvalidRegex)
    );
    assert_eq!(
        failure(vec![("quiet_mode", HostValue::Int(1)), ("epsilon", text("x"))]),
        refused(ConfigOption::Epsilon, ConfigFault::WrongType)
    );
}

#[test]
fn option_names() {
    let all = [
        ConfigOption::Epsilon,
        ConfigOption::ArrayIdKey,
        ConfigOption::IgnoreKeysRegex,
        ConfigOption::PathFilter,
        ConfigOption::OutputFormat,
        ConfigOption::ShowUnchanged,
        ConfigOption::ShowTypes,
        ConfigOption::UseMemoryOptimization,
        ConfigOption::BatchSize,
        ConfigOption::IgnoreWhitespace,
        ConfigOption::IgnoreCase,
        ConfigOption::BriefMode,
        ConfigOption::QuietMode,
    ];
    for option in all {
        assert_eq!(ConfigOption::from_name(&option.name()), Some(option));
    }
    assert_eq!(ConfigOption::from_name(&"Epsilon".to_string()), None);
    assert_eq!(ConfigOption::from_name(&"".to_string()), None);
    assert_eq!(ConfigOption::from_name(&"recursive".to_string()), None);
}

#[test]
fn unknown_options_are_listed_in_order() {
    let given = options(vec![
        ("colour", text("red")),
        ("epsilon", HostValue::Int(1)),
        ("Epsilon", HostValue::Int(1)),
        ("quiet_mode", HostValue::Bool(true)),
        ("colour", text("blue")),
    ]);
    assert_eq!(unknown_options(&given), vec!["colour", "Epsilon", "colour"]);
    assert_eq!(unknown_options(&vec![]), Vec::<String>::new());
    assert!(build_config(&given).is_ok());
}

#[test]
fn refused_format_name_tells_the_valid_names() {
    match failure(vec![("output_format", text("html"))]) {
        BridgeError::Configuration { option, reason: ConfigFault::UnknownFormat { valid } } => {
            assert_eq!(option, ConfigOption::OutputFormat);
            assert_eq!(valid, OutputFormat::names());
            assert_eq!(valid, vec!["diffx", "json", "yaml"]);
        }
        other => panic!("no refusal of the format name: {:?}", other),
    }
}

#[test]
fn epsilon_takes_a_float_that_is_infinite_or_no_number() {
    for kind in [NonFinite::NotANumber, NonFinite::PositiveInfinity, NonFinite::NegativeInfinity] {
        let config = build_config(&options(vec![("epsilon", HostValue::NonFinite(kind))]));
        assert_eq!(config.unwrap().epsilon, Some(Tolerance::NonFinite(kind)));
    }
}

#[test]
fn key_pattern_is_compiled_from_its_text() {
    let pattern = KeyPattern::new(&"^a.c$".to_string()).unwrap();
    assert_eq!(pattern.as_regex().as_str(), "^a.c$");
    assert!(pattern.as_regex().is_match("abc"));
    assert!(!pattern.as_regex().is_match("ABC"));
    assert!(KeyPattern::new(&"(unclosed".to_string()).is_none());
    assert!(KeyPattern::new(&"[z-a]".to_string()).is_none());
}

#[test]
fn configuration_gives_what_the_engine_is_handed() {
    let config = build_config(&options(vec![
        ("epsilon", HostValue::Float(float(0.5))),
        ("ignore_keys_regex", text("^id$")),
        ("output_format", text("yml")),
    ]))
    .unwrap();
    assert_eq!(config.finite_tolerance().and_then(|n| n.as_f64()), Some(0.5));
    assert_eq!(config.other_tolerance(), None);
    assert_eq!(config.key_regex().map(|r| r.as_str()), Some("^id$"));
    assert_eq!(config.format_name(), Some("yaml".to_string()));
    let other = build_config(&options(vec![(
        "epsilon",
        HostValue::NonFinite(NonFinite::NegativeInfinity),
    )]))
    .unwrap();
    assert!(other.finite_tolerance().is_none());
    assert_eq!(other.other_tolerance(), Some("-inf".to_string()));
    assert!(other.key_regex().is_none());
    assert_eq!(other.format_name(), None);
}
