//! The failures that the bridge reports.

use vstd::prelude::*;

verus! {

/// The options that a configuration is built from.
#[derive(Clone, Copy, Debug, PartialEq, Eq, Structural)]
pub enum ConfigOption {
    Epsilon,
    ArrayIdKey,
    IgnoreKeysRegex,
    PathFilter,
    OutputFormat,
    ShowUnchanged,
    ShowTypes,
    UseMemoryOptimization,
    BatchSize,
    IgnoreWhitespace,
    IgnoreCase,
    BriefMode,
    QuietMode,
}

impl ConfigOption {
    /// The name under which a caller gives the option.
    pub open spec fn spec_name(self) -> Seq<char> {
        match self {
            ConfigOption::Epsilon => "epsilon"@,
            ConfigOption::ArrayIdKey => "array_id_key"@,
            ConfigOption::IgnoreKeysRegex => "ignore_keys_regex"@,
            ConfigOption::PathFilter => "path_filter"@,
            ConfigOption::OutputFormat => "output_format"@,
            ConfigOption::ShowUnchanged => "show_unchanged"@,
            ConfigOption::ShowTypes => "show_types"@,
            ConfigOption::UseMemoryOptimization => "use_memory_optimization"@,
            ConfigOption::BatchSize => "batch_size"@,
            ConfigOption::IgnoreWhitespace => "ignore_whitespace"@,
            ConfigOption::IgnoreCase => "ignore_case"@,
            ConfigOption::BriefMode => "brief_mode"@,
            ConfigOption::QuietMode => "quiet_mode"@,
        }
    }

    /// The name under which a caller gives the option.
    pub fn name(self) -> (r: String)
        ensures
            r@ == self.spec_name(),
    {
        match self {
            ConfigOption::Epsilon => String::from_str("epsilon"),
            ConfigOption::ArrayIdKey => String::from_str("array_id_key"),
            ConfigOption::IgnoreKeysRegex => String::from_str("ignore_keys_regex"),
            ConfigOption::PathFilter => String::from_str("path_filter"),
            ConfigOption::OutputFormat => String::from_str("output_format"),
            ConfigOption::ShowUnchanged => String::from_str("show_unchanged"),
            ConfigOption::ShowTypes => String::from_str("show_types"),
            ConfigOption::UseMemoryOptimization => String::from_str("use_memory_optimization"),
            ConfigOption::BatchSize => String::from_str("batch_size"),
            ConfigOption::IgnoreWhitespace => String::from_str("ignore_whitespace"),
            ConfigOption::IgnoreCase => String::from_str("ignore_case"),
            ConfigOption::BriefMode => String::from_str("brief_mode"),
            ConfigOption::QuietMode => String::from_str("quiet_mode"),
        }
    }
}

impl ConfigOption {
    /// The option that a name names.
    pub open spec fn spec_from_name(name: Seq<char>) -> Option<ConfigOption> {
        if name == "epsilon"@ {
            Some(ConfigOption::Epsilon)
        } else if name == "array_id_key"@ {
            Some(ConfigOption::ArrayIdKey)
        } else if name == "ignore_keys_regex"@ {
            Some(ConfigOption::IgnoreKeysRegex)
        } else if name == "path_filter"@ {
            Some(ConfigOption::PathFilter)
        } else if name == "output_format"@ {
            Some(ConfigOption::OutputFormat)
        } else if name == "show_unchanged"@ {
            Some(ConfigOption::ShowUnchanged)
        } else if name == "show_types"@ {
            Some(ConfigOption::ShowTypes)
        } else if name == "use_memory_optimization"@ {
            Some(ConfigOption::UseMemoryOptimization)
        } else if name == "batch_size"@ {
            Some(ConfigOption::BatchSize)
        } else if name == "ignore_whitespace"@ {
            Some(ConfigOption::IgnoreWhitespace)
        } else if name == "ignore_case"@ {
            Some(ConfigOption::IgnoreCase)
        } else if name == "brief_mode"@ {
            Some(ConfigOption::BriefMode)
        } else if name == "quiet_mode"@ {
            Some(ConfigOption::QuietMode)
        } else {
            None
        }
    }

    /// The option that a name names. Case counts.
    pub fn from_name(name: &String) -> (r: Option<ConfigOption>)
        ensures
            r == ConfigOption::spec_from_name(name@),
    {
        if *name == String::from_str("epsilon") {
            Some(ConfigOption::Epsilon)
        } else if *name == String::from_str("array_id_key") {
            Some(ConfigOption::ArrayIdKey)
        } else if *name == String::from_str("ignore_keys_regex") {
            Some(ConfigOption::IgnoreKeysRegex)
        } else if *name == String::from_str("path_filter") {
            Some(ConfigOption::PathFilter)
        } else if *name == String::from_str("output_format") {
            Some(ConfigOption::OutputFormat)
        } else if *name == String::from_str("show_unchanged") {
            Some(ConfigOption::ShowUnchanged)
        } else if *name == String::from_str("show_types") {
            Some(ConfigOption::ShowTypes)
        } else if *name == String::from_str("use_memory_optimization") {
            Some(ConfigOption::UseMemoryOptimization)
        } else if *name == String::from_str("batch_size") {
            Some(ConfigOption::BatchSize)
        } else if *name == String::from_str("ignore_whitespace") {
            Some(ConfigOption::IgnoreWhitespace)
        } else if *name == String::from_str("ignore_case") {
            Some(ConfigOption::IgnoreCase)
        } else if *name == String::from_str("brief_mode") {
            Some(ConfigOption::BriefMode)
        } else if *name == String::from_str("quiet_mode") {
            Some(ConfigOption::QuietMode)
        } else {
            None
        }
    }
}

/// Every option is named by its own name and by no other.
pub proof fn law_option_names_are_distinct(option: ConfigOption)
    ensures
        ConfigOption::spec_from_name(option.spec_name()) == Some(option),
{
    reveal_strlit("epsilon");
    reveal_strlit("array_id_key");
    reveal_strlit("ignore_keys_regex");
    reveal_strlit("path_filter");
    reveal_strlit("output_format");
    reveal_strlit("show_unchanged");
    reveal_strlit("show_types");
    reveal_strlit("use_memory_optimization");
    reveal_strlit("batch_size");
    reveal_strlit("ignore_whitespace");
    reveal_strlit("ignore_case");
    reveal_strlit("brief_mode");
    reveal_strlit("quiet_mode");
    assert("epsilon"@.len() == 7);
    assert("array_id_key"@.len() == 12);
    assert("ignore_keys_regex"@.len() == 17 && "ignore_keys_regex"@[7] == 'k');
    assert("path_filter"@.len() == 11 && "path_filter"@[0] == 'p');
    assert("output_format"@.len() == 13);
    assert("show_unchanged"@.len() == 14);
    assert("show_types"@.len() == 10 && "show_types"@[0] == 's');
    assert("use_memory_optimization"@.len() == 23);
    assert("batch_size"@.len() == 10 && "batch_size"@[0] == 'b' && "batch_size"@[1] == 'a');
    assert("ignore_whitespace"@.len() == 17 && "ignore_whitespace"@[7] == 'w');
    assert("ignore_case"@.len() == 11 && "ignore_case"@[0] == 'i');
    assert("brief_mode"@.len() == 10 && "brief_mode"@[0] == 'b' && "brief_mode"@[1] == 'r');
    assert("quiet_mode"@.len() == 10 && "quiet_mode"@[0] == 'q');
}

/// Why an option was refused.
#[derive(Debug, PartialEq)]
pub enum ConfigFault {
    /// The value is not of the kind that the option takes.
    WrongType,
    /// The pattern is no regular expression.
    InvalidRegex,
    /// The name is not that of an output format; `valid` holds the names that
    /// are.
    UnknownFormat { valid: Vec<String> },
}

/// What the reason of a refusal denotes.
pub enum ConfigFaultModel {
    WrongType,
    InvalidRegex,
    UnknownFormat { valid: Seq<Seq<char>> },
}

impl View for ConfigFault {
    type V = ConfigFaultModel;

    open spec fn view(&self) -> ConfigFaultModel {
        match self {
            ConfigFault::WrongType => ConfigFaultModel::WrongType,
            ConfigFault::InvalidRegex => ConfigFaultModel::InvalidRegex,
            ConfigFault::UnknownFormat { valid } => ConfigFaultModel::UnknownFormat {
                valid: Seq::new(valid.len() as nat, |i: int| valid[i]@),
            },
        }
    }
}

/// The fields of a difference in host form.
#[derive(Clone, Copy, Debug, PartialEq, Eq, Structural)]
pub enum ResultField {
    Type,
    Path,
    Value,
    OldValue,
    NewValue,
}

impl ResultField {
    /// The key of the field.
    pub open spec fn spec_name(self) -> Seq<char> {
        match self {
            ResultField::Type => "type"@,
            ResultField::Path => "path"@,
            ResultField::Value => "value"@,
            ResultField::OldValue => "old_value"@,
            ResultField::NewValue => "new_value"@,
        }
    }

    /// The key of the field.
    pub fn name(self) -> (r: String)
        ensures
            r@ == self.spec_name(),
    {
        match self {
            ResultField::Type => String::from_str("type"),
            ResultField::Path => String::from_str("path"),
            ResultField::Value => String::from_str("value"),
            ResultField::OldValue => String::from_str("old_value"),
            ResultField::NewValue => String::from_str("new_value"),
        }
    }
}

/// Why a difference in host form was refused.
#[derive(Clone, Copy, Debug, PartialEq, Eq, Structural)]
pub enum ResultFault {
    /// The value is no key-value container.
    NotAMapping,
    /// A field that the variant needs is absent.
    MissingField(ResultField),
    /// The discriminator or the path is no text.
    NotText(ResultField),
    /// The discriminator names none of the four variants.
    UnknownDiscriminator,
}

/// What a failure denotes.
pub enum ErrorModel {
    UnsupportedType { kind: Seq<char> },
    CyclicStructure,
    Configuration { option: ConfigOption, reason: ConfigFaultModel },
    DiffEngine { message: Seq<char> },
    MalformedResult { fault: ResultFault },
    Parse { message: Seq<char> },
    Render { message: Seq<char> },
}

/// A failure of the bridge.
#[derive(Debug, PartialEq)]
pub enum BridgeError {
    /// A host value of a kind that has no canonical form; `kind` names it.
    UnsupportedType { kind: String },
    /// A host value nested deeper than the bridge follows.
    CyclicStructure,
    /// An option that the configuration refuses.
    Configuration { option: ConfigOption, reason: ConfigFault },
    /// The diff engine failed; the message is its own.
    DiffEngine { message: String },
    /// A difference in host form that cannot be read back.
    MalformedResult { fault: ResultFault },
    /// A parser failed; the message is its own.
    Parse { message: String },
    /// The renderer failed; the message is its own.
    Render { message: String },
}

impl View for BridgeError {
    type V = ErrorModel;

    open spec fn view(&self) -> ErrorModel {
        match self {
            BridgeError::UnsupportedType { kind } => ErrorModel::UnsupportedType { kind: kind@ },
            BridgeError::CyclicStructure => ErrorModel::CyclicStructure,
            BridgeError::Configuration { option, reason } => ErrorModel::Configuration {
                option: *option,
                reason: reason@,
            },
            BridgeError::DiffEngine { message } => ErrorModel::DiffEngine { message: message@ },
            BridgeError::MalformedResult { fault } => ErrorModel::MalformedResult { fault: *fault },
            BridgeError::Parse { message } => ErrorModel::Parse { message: message@ },
            BridgeError::Render { message } => ErrorModel::Render { message: message@ },
        }
    }
}

} // verus!
