//! The configuration of a comparison, built from loosely typed options.
//!
//! Every option is optional and is checked on its own. An option under a name
//! that is not known is passed over. A pattern that is no regular expression
//! and a format name that names no format are refused when the configuration
//! is built, not when it is used.

use vstd::prelude::*;
use crate::error::{
    law_option_names_are_distinct, BridgeError, ConfigFault, ConfigFaultModel, ConfigOption,
    ErrorModel,
};
use crate::host::{HostModel, HostValue};
use crate::number::{float_bits, float_of_int, number_model, Float, NonFinite};

verus! {

#[verifier::external_type_specification]
#[verifier::external_body]
pub struct ExRegex(regex::Regex);

/// The pattern that a compiled regular expression was made from, as
/// `regex::Regex::as_str` gives it.
pub uninterp spec fn regex_pattern(compiled: regex::Regex) -> Seq<char>;

/// Whether `regex::Regex::new` accepts the pattern.
pub uninterp spec fn pattern_compiles(pattern: Seq<char>) -> bool;

/// The format that `diffx_core::OutputFormat::parse_format` finds under a
/// name, where it finds one.
pub uninterp spec fn format_named(name: Seq<char>) -> Option<OutputFormat>;

/// The encodings in which differences are rendered.
#[derive(Clone, Copy, Debug, PartialEq, Eq, Structural)]
pub enum OutputFormat {
    Diffx,
    Json,
    Yaml,
}

/// `regex::Regex::new`: compiles the pattern, or refuses it. What it compiles
/// keeps the pattern, as `regex::Regex::as_str` gives it.
#[verifier::external_body]
fn compile_pattern(pattern: &String) -> (r: Option<regex::Regex>)
    ensures
        match r {
            Some(compiled) => pattern_compiles(pattern@) && regex_pattern(compiled) == pattern@,
            None => !pattern_compiles(pattern@),
        },
{
    regex::Regex::new(pattern).ok()
}

/// `diffx_core::OutputFormat::parse_format`: the format under a name.
#[verifier::external_body]
fn parse_format(name: &String) -> (r: Option<OutputFormat>)
    ensures
        r == format_named(name@),
{
    match diffx_core::OutputFormat::parse_format(name) {
        Ok(diffx_core::OutputFormat::Diffx) => Some(OutputFormat::Diffx),
        Ok(diffx_core::OutputFormat::Json) => Some(OutputFormat::Json),
        Ok(diffx_core::OutputFormat::Yaml) => Some(OutputFormat::Yaml),
        Err(_) => None,
    }
}

/// The pattern of the keys that a comparison leaves out: a regular expression
/// that `regex::Regex::new` compiled from its text. There is no other way to
/// make one, so the text says all that the expression matches.
#[derive(Debug)]
pub struct KeyPattern {
    compiled: regex::Regex,
}

impl View for KeyPattern {
    type V = Seq<char>;

    /// The text of the pattern.
    closed spec fn view(&self) -> Seq<char> {
        regex_pattern(self.compiled)
    }
}

impl KeyPattern {
    /// Compiles a pattern, or refuses a text that is no regular expression.
    pub fn new(pattern: &String) -> (r: Option<KeyPattern>)
        ensures
            match r {
                Some(compiled) => pattern_compiles(pattern@) && compiled@ == pattern@,
                None => !pattern_compiles(pattern@),
            },
    {
        match compile_pattern(pattern) {
            Some(compiled) => Some(KeyPattern { compiled }),
            None => None,
        }
    }

    /// The compiled expression.
    pub fn as_regex(&self) -> (r: &regex::Regex)
        ensures
            regex_pattern(*r) == self@,
    {
        &self.compiled
    }
}

impl OutputFormat {
    /// The name of the format.
    pub open spec fn spec_name(self) -> Seq<char> {
        match self {
            OutputFormat::Diffx => "diffx"@,
            OutputFormat::Json => "json"@,
            OutputFormat::Yaml => "yaml"@,
        }
    }

    /// The name of the format.
    pub fn name(self) -> (r: String)
        ensures
            r@ == self.spec_name(),
    {
        match self {
            OutputFormat::Diffx => String::from_str("diffx"),
            OutputFormat::Json => String::from_str("json"),
            OutputFormat::Yaml => String::from_str("yaml"),
        }
    }

    /// The names of all formats: what a caller may give where a format name
    /// was refused.
    pub fn names() -> (r: Vec<String>)
        ensures
            names_model(r@) == format_names(),
    {
        let mut names: Vec<String> = Vec::new();
        names.push(OutputFormat::Diffx.name());
        names.push(OutputFormat::Json.name());
        names.push(OutputFormat::Yaml.name());
        assert(names_model(names@) =~= format_names());
        names
    }

    /// The format under a name, or the refusal of the name.
    pub fn from_name(name: &String) -> (r: Result<OutputFormat, BridgeError>)
        ensures
            match r {
                Ok(format) => format_named(name@) == Some(format),
                Err(e) => format_named(name@) is None && e@ == unknown_format(),
            },
    {
        match parse_format(name) {
            Some(format) => Ok(format),
            None => {
                let valid = OutputFormat::names();
                Err(
                    BridgeError::Configuration {
                        option: ConfigOption::OutputFormat,
                        reason: ConfigFault::UnknownFormat { valid },
                    },
                )
            },
        }
    }
}

/// The failure for an option that is refused.
pub open spec fn refused(option: ConfigOption, reason: ConfigFaultModel) -> ErrorModel {
    ErrorModel::Configuration { option, reason }
}

/// The names of all formats.
pub open spec fn format_names() -> Seq<Seq<char>> {
    seq![
        OutputFormat::Diffx.spec_name(),
        OutputFormat::Json.spec_name(),
        OutputFormat::Yaml.spec_name(),
    ]
}

/// The failure for a name that names no format: it holds the names that do.
pub open spec fn unknown_format() -> ErrorModel {
    refused(ConfigOption::OutputFormat, ConfigFaultModel::UnknownFormat { valid: format_names() })
}

/// What a list of names denotes.
pub open spec fn names_model(names: Seq<String>) -> Seq<Seq<char>> {
    Seq::new(names.len(), |i: int| names[i]@)
}

/// The tolerance when numbers are compared: two numbers count as equal when
/// they differ by no more than it. A tolerance that is infinite or not a
/// number is taken as the caller gave it.
#[derive(Debug, PartialEq)]
pub enum Tolerance {
    Finite(Float),
    NonFinite(NonFinite),
}

/// What a tolerance denotes: the bit pattern of a finite float, or which of
/// the others it is.
pub enum ToleranceModel {
    Finite(u64),
    NonFinite(NonFinite),
}

impl View for Tolerance {
    type V = ToleranceModel;

    open spec fn view(&self) -> ToleranceModel {
        match self {
            Tolerance::Finite(f) => ToleranceModel::Finite(f@),
            Tolerance::NonFinite(kind) => ToleranceModel::NonFinite(*kind),
        }
    }
}

/// What a configuration denotes. A field is `None` where the option was not
/// given.
pub struct ConfigModel {
    /// The tolerance when numbers are compared.
    pub epsilon: Option<ToleranceModel>,
    pub array_id_key: Option<Seq<char>>,
    /// The pattern of the keys that are left out of the comparison.
    pub ignore_keys_regex: Option<Seq<char>>,
    pub path_filter: Option<Seq<char>>,
    pub output_format: Option<OutputFormat>,
    pub show_unchanged: Option<bool>,
    pub show_types: Option<bool>,
    pub use_memory_optimization: Option<bool>,
    pub batch_size: Option<u64>,
    pub ignore_whitespace: Option<bool>,
    pub ignore_case: Option<bool>,
    pub brief_mode: Option<bool>,
    pub quiet_mode: Option<bool>,
}

impl ConfigModel {
    /// The configuration in which no option is given: values are compared
    /// exactly, no key is left out, and the format is the default one.
    pub open spec fn empty() -> ConfigModel {
        ConfigModel {
            epsilon: None,
            array_id_key: None,
            ignore_keys_regex: None,
            path_filter: None,
            output_format: None,
            show_unchanged: None,
            show_types: None,
            use_memory_optimization: None,
            batch_size: None,
            ignore_whitespace: None,
            ignore_case: None,
            brief_mode: None,
            quiet_mode: None,
        }
    }
}

/// The validated configuration of a comparison.
#[derive(Debug)]
pub struct DiffConfig {
    /// The tolerance when numbers are compared; without it they are compared
    /// exactly.
    pub epsilon: Option<Tolerance>,
    /// The field by which the elements of arrays are matched, in place of
    /// their position.
    pub array_id_key: Option<String>,
    /// The keys that are left out of the comparison, at any depth.
    pub ignore_keys_regex: Option<KeyPattern>,
    /// Only differences whose path contains this text are kept.
    pub path_filter: Option<String>,
    /// The encoding in which a caller wants the differences rendered.
    pub output_format: Option<OutputFormat>,
    /// Whether a caller wants to see what did not change. The comparison
    /// itself reports differences only.
    pub show_unchanged: Option<bool>,
    /// Whether a caller wants to see the kinds of the values.
    pub show_types: Option<bool>,
    /// A hint for large inputs. The comparison takes no notice of it.
    pub use_memory_optimization: Option<bool>,
    /// A hint for large inputs. The comparison takes no notice of it.
    pub batch_size: Option<u64>,
    /// Strings are compared without their whitespace.
    pub ignore_whitespace: Option<bool>,
    /// Strings are compared without regard to case.
    pub ignore_case: Option<bool>,
    /// A caller wants to know only whether there is any difference.
    pub brief_mode: Option<bool>,
    /// A caller wants no output for people.
    pub quiet_mode: Option<bool>,
}

/// What an optional text denotes.
pub open spec fn text_model(text: Option<String>) -> Option<Seq<char>> {
    match text {
        Some(s) => Some(s@),
        None => None,
    }
}

impl View for DiffConfig {
    type V = ConfigModel;

    open spec fn view(&self) -> ConfigModel {
        ConfigModel {
            epsilon: match self.epsilon {
                Some(tolerance) => Some(tolerance@),
                None => None,
            },
            array_id_key: text_model(self.array_id_key),
            ignore_keys_regex: match self.ignore_keys_regex {
                Some(pattern) => Some(pattern@),
                None => None,
            },
            path_filter: text_model(self.path_filter),
            output_format: self.output_format,
            show_unchanged: self.show_unchanged,
            show_types: self.show_types,
            use_memory_optimization: self.use_memory_optimization,
            batch_size: self.batch_size,
            ignore_whitespace: self.ignore_whitespace,
            ignore_case: self.ignore_case,
            brief_mode: self.brief_mode,
            quiet_mode: self.quiet_mode,
        }
    }
}

impl DiffConfig {
    /// The number that carries the tolerance, where it is finite.
    pub fn finite_tolerance(&self) -> (r: Option<&serde_json::Number>)
        ensures
            match r {
                Some(n) => number_model(*n) is Float && self@.epsilon == Some(
                    ToleranceModel::Finite(float_bits(*n)),
                ),
                None => !(self@.epsilon matches Some(ToleranceModel::Finite(_))),
            },
    {
        match &self.epsilon {
            Some(Tolerance::Finite(f)) => Some(f.as_number()),
            _ => None,
        }
    }

    /// The name of the tolerance, where it is infinite or not a number.
    pub fn other_tolerance(&self) -> (r: Option<String>)
        ensures
            match r {
                Some(name) => self@.epsilon matches Some(ToleranceModel::NonFinite(kind)) && name@
                    == kind.spec_name(),
                None => !(self@.epsilon matches Some(ToleranceModel::NonFinite(_))),
            },
    {
        match &self.epsilon {
            Some(Tolerance::NonFinite(kind)) => Some(kind.name()),
            _ => None,
        }
    }

    /// The compiled key pattern.
    pub fn key_regex(&self) -> (r: Option<&regex::Regex>)
        ensures
            match r {
                Some(compiled) => self@.ignore_keys_regex == Some(regex_pattern(*compiled)),
                None => self@.ignore_keys_regex is None,
            },
    {
        match &self.ignore_keys_regex {
            Some(pattern) => Some(pattern.as_regex()),
            None => None,
        }
    }

    /// The name of the output format.
    pub fn format_name(&self) -> (r: Option<String>)
        ensures
            match r {
                Some(name) => self@.output_format matches Some(format) && name@
                    == format.spec_name(),
                None => self@.output_format is None,
            },
    {
        match self.output_format {
            Some(format) => Some(format.name()),
            None => None,
        }
    }
}

/// What a list of options denotes.
pub open spec fn option_entries(options: Seq<(String, HostValue)>) -> Seq<(Seq<char>, HostModel)> {
    Seq::new(options.len(), |i: int| (options[i].0@, options[i].1@))
}

/// The value given for an option: that of the last entry under its name.
pub open spec fn given(options: Seq<(Seq<char>, HostModel)>, option: ConfigOption) -> Option<
    HostModel,
>
    decreases options.len(),
{
    if options.len() == 0 {
        None
    } else if options.last().0 == option.spec_name() {
        Some(options.last().1)
    } else {
        given(options.drop_last(), option)
    }
}

/// A flag: given as a boolean or not at all.
pub open spec fn flag(options: Seq<(Seq<char>, HostModel)>, option: ConfigOption) -> Result<
    Option<bool>,
    ErrorModel,
> {
    match given(options, option) {
        None => Ok(None),
        Some(HostModel::Bool(b)) => Ok(Some(b)),
        Some(_) => Err(refused(option, ConfigFaultModel::WrongType)),
    }
}

/// A text: given as text or not at all.
pub open spec fn text_of(options: Seq<(Seq<char>, HostModel)>, option: ConfigOption) -> Result<
    Option<Seq<char>>,
    ErrorModel,
> {
    match given(options, option) {
        None => Ok(None),
        Some(HostModel::Text(s)) => Ok(Some(s)),
        Some(_) => Err(refused(option, ConfigFaultModel::WrongType)),
    }
}

/// The tolerance: a float, or an integer that the host turns into one.
pub open spec fn tolerance(options: Seq<(Seq<char>, HostModel)>) -> Result<
    Option<ToleranceModel>,
    ErrorModel,
> {
    match given(options, ConfigOption::Epsilon) {
        None => Ok(None),
        Some(HostModel::Float(bits)) => Ok(Some(ToleranceModel::Finite(bits))),
        Some(HostModel::NonFinite(kind)) => Ok(Some(ToleranceModel::NonFinite(kind))),
        Some(other) => match other.as_int() {
            Some(i) => match float_of_int(i as int) {
                Some(bits) => Ok(Some(ToleranceModel::Finite(bits))),
                None => Err(refused(ConfigOption::Epsilon, ConfigFaultModel::WrongType)),
            },
            None => Err(refused(ConfigOption::Epsilon, ConfigFaultModel::WrongType)),
        },
    }
}

/// The key pattern: a text that is a regular expression.
pub open spec fn key_pattern(options: Seq<(Seq<char>, HostModel)>) -> Result<
    Option<Seq<char>>,
    ErrorModel,
> {
    match text_of(options, ConfigOption::IgnoreKeysRegex) {
        Err(e) => Err(e),
        Ok(None) => Ok(None),
        Ok(Some(pattern)) => if pattern_compiles(pattern) {
            Ok(Some(pattern))
        } else {
            Err(refused(ConfigOption::IgnoreKeysRegex, ConfigFaultModel::InvalidRegex))
        },
    }
}

/// The output format: a text that names a format.
pub open spec fn format_of(options: Seq<(Seq<char>, HostModel)>) -> Result<
    Option<OutputFormat>,
    ErrorModel,
> {
    match text_of(options, ConfigOption::OutputFormat) {
        Err(e) => Err(e),
        Ok(None) => Ok(None),
        Ok(Some(name)) => match format_named(name) {
            Some(format) => Ok(Some(format)),
            None => Err(unknown_format()),
        },
    }
}

/// The batch size: an integer that is not negative.
pub open spec fn batch_size_of(options: Seq<(Seq<char>, HostModel)>) -> Result<
    Option<u64>,
    ErrorModel,
> {
    match given(options, ConfigOption::BatchSize) {
        None => Ok(None),
        Some(value) => match value.as_int() {
            Some(i) => if i >= 0 {
                Ok(Some(i as u64))
            } else {
                Err(refused(ConfigOption::BatchSize, ConfigFaultModel::WrongType))
            },
            None => Err(refused(ConfigOption::BatchSize, ConfigFaultModel::WrongType)),
        },
    }
}

/// The first refusal among the options, taken in their fixed order.
pub open spec fn first_refusal(options: Seq<(Seq<char>, HostModel)>) -> Option<ErrorModel> {
    if tolerance(options) is Err {
        Some(tolerance(options)->Err_0)
    } else if text_of(options, ConfigOption::ArrayIdKey) is Err {
        Some(text_of(options, ConfigOption::ArrayIdKey)->Err_0)
    } else if key_pattern(options) is Err {
        Some(key_pattern(options)->Err_0)
    } else if text_of(options, ConfigOption::PathFilter) is Err {
        Some(text_of(options, ConfigOption::PathFilter)->Err_0)
    } else if format_of(options) is Err {
        Some(format_of(options)->Err_0)
    } else if flag(options, ConfigOption::ShowUnchanged) is Err {
        Some(flag(options, ConfigOption::ShowUnchanged)->Err_0)
    } else if flag(options, ConfigOption::ShowTypes) is Err {
        Some(flag(options, ConfigOption::ShowTypes)->Err_0)
    } else if flag(options, ConfigOption::UseMemoryOptimization) is Err {
        Some(flag(options, ConfigOption::UseMemoryOptimization)->Err_0)
    } else if batch_size_of(options) is Err {
        Some(batch_size_of(options)->Err_0)
    } else if flag(options, ConfigOption::IgnoreWhitespace) is Err {
        Some(flag(options, ConfigOption::IgnoreWhitespace)->Err_0)
    } else if flag(options, ConfigOption::IgnoreCase) is Err {
        Some(flag(options, ConfigOption::IgnoreCase)->Err_0)
    } else if flag(options, ConfigOption::BriefMode) is Err {
        Some(flag(options, ConfigOption::BriefMode)->Err_0)
    } else if flag(options, ConfigOption::QuietMode) is Err {
        Some(flag(options, ConfigOption::QuietMode)->Err_0)
    } else {
        None
    }
}

/// The configuration that the options make, or the first refusal.
pub open spec fn configured(options: Seq<(Seq<char>, HostModel)>) -> Result<
    ConfigModel,
    ErrorModel,
> {
    match first_refusal(options) {
        Some(e) => Err(e),
        None => Ok(
            ConfigModel {
                epsilon: tolerance(options)->Ok_0,
                array_id_key: text_of(options, ConfigOption::ArrayIdKey)->Ok_0,
                ignore_keys_regex: key_pattern(options)->Ok_0,
                path_filter: text_of(options, ConfigOption::PathFilter)->Ok_0,
                output_format: format_of(options)->Ok_0,
                show_unchanged: flag(options, ConfigOption::ShowUnchanged)->Ok_0,
                show_types: flag(options, ConfigOption::ShowTypes)->Ok_0,
                use_memory_optimization: flag(options, ConfigOption::UseMemoryOptimization)->Ok_0,
                batch_size: batch_size_of(options)->Ok_0,
                ignore_whitespace: flag(options, ConfigOption::IgnoreWhitespace)->Ok_0,
                ignore_case: flag(options, ConfigOption::IgnoreCase)->Ok_0,
                brief_mode: flag(options, ConfigOption::BriefMode)->Ok_0,
                quiet_mode: flag(options, ConfigOption::QuietMode)->Ok_0,
            },
        ),
    }
}

fn wrong_type(option: ConfigOption) -> (r: BridgeError)
    ensures
        r@ == refused(option, ConfigFaultModel::WrongType),
{
    BridgeError::Configuration { option, reason: ConfigFault::WrongType }
}

fn find_option(options: &Vec<(String, HostValue)>, option: ConfigOption) -> (r: Option<&HostValue>)
    ensures
        match r {
            Some(v) => given(option_entries(options@), option) == Some(v@),
            None => given(option_entries(options@), option) is None,
        },
{
    let ghost all = option_entries(options@);
    let name = option.name();
    let mut i: usize = options.len();
    assert(all.take(i as int) =~= all);
    while i > 0
        invariant
            i <= options.len(),
            all == option_entries(options@),
            name@ == option.spec_name(),
            given(all, option) == given(all.take(i as int), option),
        decreases i,
    {
        i = i - 1;
        proof {
            assert(all.take(i + 1).drop_last() =~= all.take(i as int));
            assert(all.take(i + 1).last() == (options[i as int].0@, options[i as int].1@));
        }
        if options[i].0 == name {
            return Some(&options[i].1);
        }
    }
    None
}

fn read_flag(options: &Vec<(String, HostValue)>, option: ConfigOption) -> (r: Result<
    Option<bool>,
    BridgeError,
>)
    ensures
        match r {
            Ok(b) => flag(option_entries(options@), option) == Ok::<Option<bool>, ErrorModel>(b),
            Err(e) => flag(option_entries(options@), option) == Err::<Option<bool>, ErrorModel>(
                e@,
            ),
        },
{
    match find_option(options, option) {
        None => Ok(None),
        Some(value) => match value.as_bool() {
            Some(b) => Ok(Some(b)),
            None => Err(wrong_type(option)),
        },
    }
}

fn read_text(options: &Vec<(String, HostValue)>, option: ConfigOption) -> (r: Result<
    Option<String>,
    BridgeError,
>)
    ensures
        match r {
            Ok(s) => text_of(option_entries(options@), option) == Ok::<
                Option<Seq<char>>,
                ErrorModel,
            >(text_model(s)),
            Err(e) => text_of(option_entries(options@), option) == Err::<
                Option<Seq<char>>,
                ErrorModel,
            >(e@),
        },
{
    match find_option(options, option) {
        None => Ok(None),
        Some(value) => match value.as_text() {
            Some(s) => Ok(Some(s.clone())),
            None => Err(wrong_type(option)),
        },
    }
}

fn read_tolerance(options: &Vec<(String, HostValue)>) -> (r: Result<Option<Tolerance>, BridgeError>)
    ensures
        match r {
            Ok(Some(t)) => tolerance(option_entries(options@)) == Ok::<
                Option<ToleranceModel>,
                ErrorModel,
            >(Some(t@)),
            Ok(None) => tolerance(option_entries(options@)) == Ok::<
                Option<ToleranceModel>,
                ErrorModel,
            >(None),
            Err(e) => tolerance(option_entries(options@)) == Err::<
                Option<ToleranceModel>,
                ErrorModel,
            >(e@),
        },
{
    match find_option(options, ConfigOption::Epsilon) {
        None => Ok(None),
        Some(value) => {
            if let Some(f) = value.as_float() {
                Ok(Some(Tolerance::Finite(f.clone())))
            } else if let Some(kind) = value.as_non_finite() {
                Ok(Some(Tolerance::NonFinite(kind)))
            } else if let Some(i) = value.as_int() {
                match Float::from_int(i) {
                    Some(f) => Ok(Some(Tolerance::Finite(f))),
                    None => Err(wrong_type(ConfigOption::Epsilon)),
                }
            } else {
                Err(wrong_type(ConfigOption::Epsilon))
            }
        },
    }
}

fn read_key_pattern(options: &Vec<(String, HostValue)>) -> (r: Result<
    Option<KeyPattern>,
    BridgeError,
>)
    ensures
        match r {
            Ok(Some(compiled)) => key_pattern(option_entries(options@)) == Ok::<
                Option<Seq<char>>,
                ErrorModel,
            >(Some(compiled@)),
            Ok(None) => key_pattern(option_entries(options@)) == Ok::<
                Option<Seq<char>>,
                ErrorModel,
            >(None),
            Err(e) => key_pattern(option_entries(options@)) == Err::<
                Option<Seq<char>>,
                ErrorModel,
            >(e@),
        },
{
    match read_text(options, ConfigOption::IgnoreKeysRegex) {
        Err(e) => Err(e),
        Ok(None) => Ok(None),
        Ok(Some(pattern)) => match KeyPattern::new(&pattern) {
            Some(compiled) => Ok(Some(compiled)),
            None => Err(
                BridgeError::Configuration {
                    option: ConfigOption::IgnoreKeysRegex,
                    reason: ConfigFault::InvalidRegex,
                },
            ),
        },
    }
}

fn read_format(options: &Vec<(String, HostValue)>) -> (r: Result<Option<OutputFormat>, BridgeError>)
    ensures
        match r {
            Ok(format) => format_of(option_entries(options@)) == Ok::<
                Option<OutputFormat>,
                ErrorModel,
            >(format),
            Err(e) => format_of(option_entries(options@)) == Err::<
                Option<OutputFormat>,
                ErrorModel,
            >(e@),
        },
{
    match read_text(options, ConfigOption::OutputFormat) {
        Err(e) => Err(e),
        Ok(None) => Ok(None),
        Ok(Some(name)) => match OutputFormat::from_name(&name) {
            Ok(format) => Ok(Some(format)),
            Err(e) => Err(e),
        },
    }
}

fn read_batch_size(options: &Vec<(String, HostValue)>) -> (r: Result<Option<u64>, BridgeError>)
    ensures
        match r {
            Ok(size) => batch_size_of(option_entries(options@)) == Ok::<Option<u64>, ErrorModel>(
                size,
            ),
            Err(e) => batch_size_of(option_entries(options@)) == Err::<Option<u64>, ErrorModel>(
                e@,
            ),
        },
{
    match find_option(options, ConfigOption::BatchSize) {
        None => Ok(None),
        Some(value) => match value.as_int() {
            Some(i) => if i >= 0 {
                Ok(Some(i as u64))
            } else {
                Err(wrong_type(ConfigOption::BatchSize))
            },
            None => Err(wrong_type(ConfigOption::BatchSize)),
        },
    }
}

/// Builds the configuration of a comparison from the options that a caller
/// gave. Each option is `(name, value)`; where a name is given twice, the last
/// value counts.
pub fn build_config(options: &Vec<(String, HostValue)>) -> (r: Result<DiffConfig, BridgeError>)
    ensures
        match r {
            Ok(config) => configured(option_entries(options@)) == Ok::<ConfigModel, ErrorModel>(
                config@,
            ),
            Err(e) => configured(option_entries(options@)) == Err::<ConfigModel, ErrorModel>(e@),
        },
{
    let epsilon = read_tolerance(options)?;
    let array_id_key = read_text(options, ConfigOption::ArrayIdKey)?;
    let ignore_keys_regex = read_key_pattern(options)?;
    let path_filter = read_text(options, ConfigOption::PathFilter)?;
    let output_format = read_format(options)?;
    let show_unchanged = read_flag(options, ConfigOption::ShowUnchanged)?;
    let show_types = read_flag(options, ConfigOption::ShowTypes)?;
    let use_memory_optimization = read_flag(options, ConfigOption::UseMemoryOptimization)?;
    let batch_size = read_batch_size(options)?;
    let ignore_whitespace = read_flag(options, ConfigOption::IgnoreWhitespace)?;
    let ignore_case = read_flag(options, ConfigOption::IgnoreCase)?;
    let brief_mode = read_flag(options, ConfigOption::BriefMode)?;
    let quiet_mode = read_flag(options, ConfigOption::QuietMode)?;
    Ok(
        DiffConfig {
            epsilon,
            array_id_key,
            ignore_keys_regex,
            path_filter,
            output_format,
            show_unchanged,
            show_types,
            use_memory_optimization,
            batch_size,
            ignore_whitespace,
            ignore_case,
            brief_mode,
            quiet_mode,
        },
    )
}

/// The names among the options that name no option, in the order in which
/// they were given.
pub open spec fn unknown_names(options: Seq<(Seq<char>, HostModel)>) -> Seq<Seq<char>>
    decreases options.len(),
{
    if options.len() == 0 {
        Seq::empty()
    } else if ConfigOption::spec_from_name(options.last().0) is None {
        unknown_names(options.drop_last()).push(options.last().0)
    } else {
        unknown_names(options.drop_last())
    }
}

/// The names among the options that name no option. `build_config` passes
/// such options over; a caller that wants to be strict refuses a list for
/// which this is not empty.
pub fn unknown_options(options: &Vec<(String, HostValue)>) -> (r: Vec<String>)
    ensures
        names_model(r@) == unknown_names(option_entries(options@)),
{
    let ghost all = option_entries(options@);
    let mut unknown: Vec<String> = Vec::new();
    let mut i: usize = 0;
    assert(all.take(0) =~= Seq::<(Seq<char>, HostModel)>::empty());
    assert(names_model(unknown@) =~= Seq::<Seq<char>>::empty());
    while i < options.len()
        invariant
            i <= options.len(),
            all == option_entries(options@),
            names_model(unknown@) == unknown_names(all.take(i as int)),
        decreases options.len() - i,
    {
        proof {
            assert(all.take(i + 1).drop_last() =~= all.take(i as int));
            assert(all.take(i + 1).last().0 == options[i as int].0@);
        }
        if ConfigOption::from_name(&options[i].0).is_none() {
            let ghost before = names_model(unknown@);
            unknown.push(options[i].0.clone());
            assert(names_model(unknown@) =~= before.push(options[i as int].0@));
        }
        i = i + 1;
    }
    assert(all.take(i as int) =~= all);
    unknown
}

/// An option under a name that names no option changes nothing: with it the
/// configuration, or the refusal, is what it is without it.
pub proof fn law_unknown_option_is_passed_over(
    options: Seq<(Seq<char>, HostModel)>,
    name: Seq<char>,
    value: HostModel,
)
    requires
        ConfigOption::spec_from_name(name) is None,
    ensures
        configured(options.push((name, value))) == configured(options),
{
    let extended = options.push((name, value));
    assert(extended.drop_last() =~= options);
    assert forall|option: ConfigOption| given(extended, option) == given(options, option) by {
        law_option_names_are_distinct(option);
    }
}

/// Without options the configuration is the empty one, which compares
/// exactly, leaves no key out and names no format.
pub proof fn law_no_options_no_constraints()
    ensures
        configured(Seq::empty()) == Ok::<ConfigModel, ErrorModel>(ConfigModel::empty()),
{
}

} // verus!
