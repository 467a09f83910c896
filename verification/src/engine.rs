//! The diff engine, its parsers and its renderer, as this library calls them.
//!
//! The engine is `diffx_core`. It works on `serde_json` values and on its own
//! difference records. Nothing is proved of what it computes: its results are
//! named, and the functions of this module say what they return in terms of
//! those names.

use vstd::prelude::*;
use crate::config::{
    build_config, configured, format_named, option_entries, unknown_format, ConfigModel,
    DiffConfig, OutputFormat,
};
use crate::convert::{canonical_of, dynamic_of, to_canonical, to_dynamic, MAX_DEPTH};
use crate::error::{BridgeError, ErrorModel};
use crate::host::{host_items, HostModel, HostValue};
use crate::json::{canonical_image, from_json, json_image, json_model, to_json};
use crate::result::{
    diff_items, marshal_results, marshalled_all, unmarshal_results, unmarshalled_all, DiffKind,
    DiffModel, DiffRecord,
};
use crate::value::{CanonicalValue, ValueModel};

verus! {

#[verifier::external_type_specification]
#[verifier::external_body]
pub struct ExEngineResult(diffx_core::DiffResult);

/// The text formats that the engine parses.
#[derive(Clone, Copy, Debug, PartialEq, Eq, Structural)]
pub enum TextFormat {
    Json,
    Yaml,
    Toml,
    Csv,
    Ini,
    Xml,
}

/// What a difference record of the engine holds, its values by `json_model`.
pub uninterp spec fn engine_result_model(r: diffx_core::DiffResult) -> DiffModel;

/// What `diffx_core::diff` returns for two trees under a configuration: the
/// differences in the order in which it finds them, or its failure message.
/// Under a configuration with an array identity key the engine may report
/// the same differences in another order.
pub uninterp spec fn engine_diff(old: ValueModel, new: ValueModel, config: ConfigModel) -> Result<
    Seq<DiffModel>,
    Seq<char>,
>;

/// What `diffx_core::format_output` makes of differences in a format: the
/// rendered text, or its failure message.
pub uninterp spec fn engine_render(results: Seq<DiffModel>, format: OutputFormat) -> Result<
    Seq<char>,
    Seq<char>,
>;

/// What `diffx_core::parse_content_by_format` makes of a text in a format: the
/// tree, or its failure message.
pub uninterp spec fn engine_parse(format: TextFormat, content: Seq<char>) -> Result<
    ValueModel,
    Seq<char>,
>;

/// What a list of difference records of the engine holds.
pub open spec fn engine_results(results: Seq<diffx_core::DiffResult>) -> Seq<DiffModel> {
    Seq::new(results.len(), |i: int| engine_result_model(results[i]))
}

/// The four variants of `diffx_core::DiffResult`, taken apart: the kind, a
/// copy of the path, and copies of the one or two values.
#[verifier::external_body]
fn engine_result_parts(r: &diffx_core::DiffResult) -> (parts: (
    DiffKind,
    String,
    serde_json::Value,
    Option<serde_json::Value>,
))
    ensures
        parts.0 == engine_result_model(*r).kind(),
        parts.1@ == engine_result_model(*r).path(),
        json_model(parts.2) == engine_result_model(*r).first(),
        match parts.3 {
            Some(new) => engine_result_model(*r).second() == Some(json_model(new)),
            None => engine_result_model(*r).second() is None,
        },
{
    let (kind, path, first, second) = match r {
        diffx_core::DiffResult::Added(p, v) => (DiffKind::Added, p, v, None),
        diffx_core::DiffResult::Removed(p, v) => (DiffKind::Removed, p, v, None),
        diffx_core::DiffResult::Modified(p, a, b) => (DiffKind::Modified, p, a, Some(b)),
        diffx_core::DiffResult::TypeChanged(p, a, b) => (DiffKind::TypeChanged, p, a, Some(b)),
    };
    (kind, path.clone(), first.clone(), second.cloned())
}

/// `diffx_core::DiffResult::Added`.
#[verifier::external_body]
fn engine_added(path: String, value: serde_json::Value) -> (r: diffx_core::DiffResult)
    ensures
        engine_result_model(r) == DiffModel::Added(path@, json_model(value)),
{
    diffx_core::DiffResult::Added(path, value)
}

/// `diffx_core::DiffResult::Removed`.
#[verifier::external_body]
fn engine_removed(path: String, value: serde_json::Value) -> (r: diffx_core::DiffResult)
    ensures
        engine_result_model(r) == DiffModel::Removed(path@, json_model(value)),
{
    diffx_core::DiffResult::Removed(path, value)
}

/// `diffx_core::DiffResult::Modified`.
#[verifier::external_body]
fn engine_modified(path: String, old: serde_json::Value, new: serde_json::Value) -> (r:
    diffx_core::DiffResult)
    ensures
        engine_result_model(r) == DiffModel::Modified(path@, json_model(old), json_model(new)),
{
    diffx_core::DiffResult::Modified(path, old, new)
}

/// `diffx_core::DiffResult::TypeChanged`.
#[verifier::external_body]
fn engine_type_changed(path: String, old: serde_json::Value, new: serde_json::Value) -> (r:
    diffx_core::DiffResult)
    ensures
        engine_result_model(r) == DiffModel::TypeChanged(path@, json_model(old), json_model(new)),
{
    diffx_core::DiffResult::TypeChanged(path, old, new)
}

/// What a result of the engine denotes: its records, or its message.
pub open spec fn engine_outcome(r: Result<Vec<diffx_core::DiffResult>, String>) -> Result<
    Seq<DiffModel>,
    Seq<char>,
> {
    match r {
        Ok(results) => Ok(engine_results(results@)),
        Err(message) => Err(message@),
    }
}

/// The two outcomes are the same but for the order of the differences.
pub open spec fn same_but_for_order(
    a: Result<Seq<DiffModel>, Seq<char>>,
    b: Result<Seq<DiffModel>, Seq<char>>,
) -> bool {
    match (a, b) {
        (Ok(x), Ok(y)) => x.to_multiset() == y.to_multiset(),
        (Err(x), Err(y)) => x == y,
        _ => false,
    }
}

/// `diffx_core::diff`, with the options that the configuration holds. What
/// it reports is determined by its arguments, and so is the order, unless the
/// configuration has an array identity key: then the engine matches array
/// elements through a hash map and reports them in the order in which it
/// walks that map. Of the key pattern the configuration's view holds the text:
/// every `KeyPattern` was compiled from its text by `regex::Regex::new`, so
/// the text decides which keys it matches. A tolerance that is no finite
/// number is read from its name by `str::parse`, and the engine's format is
/// the one that `diffx_core::OutputFormat::parse_format` finds under the name
/// of the configuration's.
#[verifier::external_body]
fn run_engine_diff(old: &serde_json::Value, new: &serde_json::Value, config: &DiffConfig) -> (r:
    Result<Vec<diffx_core::DiffResult>, String>)
    ensures
        same_but_for_order(
            engine_outcome(r),
            engine_diff(json_model(*old), json_model(*new), config@),
        ),
        config@.array_id_key is None ==> engine_outcome(r) == engine_diff(
            json_model(*old),
            json_model(*new),
            config@,
        ),
{
    let mut options = diffx_core::DiffOptions::default();
    let finite = config.finite_tolerance().and_then(|n| n.as_f64());
    options.epsilon = finite.or(config.other_tolerance().and_then(|n| n.parse().ok()));
    options.array_id_key = config.array_id_key.clone();
    options.ignore_keys_regex = config.key_regex().cloned();
    options.path_filter = config.path_filter.clone();
    let format = config.format_name();
    options.output_format = format.and_then(|n| diffx_core::OutputFormat::parse_format(&n).ok());
    options.diffx_options = Some(diffx_core::DiffxSpecificOptions {
        ignore_whitespace: config.ignore_whitespace,
        ignore_case: config.ignore_case,
        brief_mode: config.brief_mode,
        quiet_mode: config.quiet_mode,
    });
    diffx_core::diff(old, new, Some(&options)).map_err(|e| e.to_string())
}

/// `diffx_core::format_output` on the engine's own records, in the engine's
/// format of the same name.
#[verifier::external_body]
fn run_engine_render(results: &Vec<diffx_core::DiffResult>, format: OutputFormat) -> (r: Result<
    String,
    String,
>)
    ensures
        match r {
            Ok(text) => engine_render(engine_results(results@), format) == Ok::<
                Seq<char>,
                Seq<char>,
            >(text@),
            Err(message) => engine_render(engine_results(results@), format) == Err::<
                Seq<char>,
                Seq<char>,
            >(message@),
        },
{
    let engine_format = match format {
        OutputFormat::Diffx => diffx_core::OutputFormat::Diffx,
        OutputFormat::Json => diffx_core::OutputFormat::Json,
        OutputFormat::Yaml => diffx_core::OutputFormat::Yaml,
    };
    diffx_core::format_output(results, engine_format).map_err(|e| e.to_string())
}

/// `diffx_core::parse_content_by_format`, which hands the text to the parser
/// of the format.
#[verifier::external_body]
fn run_engine_parse(format: TextFormat, content: &str) -> (r: Result<serde_json::Value, String>)
    ensures
        match r {
            Ok(tree) => engine_parse(format, content@) == Ok::<ValueModel, Seq<char>>(
                json_model(tree),
            ),
            Err(message) => engine_parse(format, content@) == Err::<ValueModel, Seq<char>>(
                message@,
            ),
        },
{
    let file_format = match format {
        TextFormat::Json => diffx_core::FileFormat::Json,
        TextFormat::Yaml => diffx_core::FileFormat::Yaml,
        TextFormat::Toml => diffx_core::FileFormat::Toml,
        TextFormat::Csv => diffx_core::FileFormat::Csv,
        TextFormat::Ini => diffx_core::FileFormat::Ini,
        TextFormat::Xml => diffx_core::FileFormat::Xml,
    };
    diffx_core::parse_content_by_format(content, file_format).map_err(|e| e.to_string())
}

/// The failure for a message of the engine's diff.
pub open spec fn diff_failed(message: Seq<char>) -> ErrorModel {
    ErrorModel::DiffEngine { message }
}

/// A difference of the engine with canonical values.
pub open spec fn canonical_result(d: DiffModel) -> DiffModel {
    match d {
        DiffModel::Added(path, v) => DiffModel::Added(path, canonical_image(v)),
        DiffModel::Removed(path, v) => DiffModel::Removed(path, canonical_image(v)),
        DiffModel::Modified(path, old, new) => DiffModel::Modified(
            path,
            canonical_image(old),
            canonical_image(new),
        ),
        DiffModel::TypeChanged(path, old, new) => DiffModel::TypeChanged(
            path,
            canonical_image(old),
            canonical_image(new),
        ),
    }
}

/// The differences of the engine with canonical values, in order.
pub open spec fn canonical_results(ds: Seq<DiffModel>) -> Seq<DiffModel> {
    Seq::new(ds.len(), |i: int| canonical_result(ds[i]))
}

/// A difference as the engine is handed it.
pub open spec fn json_result(d: DiffModel) -> DiffModel {
    match d {
        DiffModel::Added(path, v) => DiffModel::Added(path, json_image(v)),
        DiffModel::Removed(path, v) => DiffModel::Removed(path, json_image(v)),
        DiffModel::Modified(path, old, new) => DiffModel::Modified(
            path,
            json_image(old),
            json_image(new),
        ),
        DiffModel::TypeChanged(path, old, new) => DiffModel::TypeChanged(
            path,
            json_image(old),
            json_image(new),
        ),
    }
}

/// Differences as the engine is handed them, in order.
pub open spec fn json_results(ds: Seq<DiffModel>) -> Seq<DiffModel> {
    Seq::new(ds.len(), |i: int| json_result(ds[i]))
}

/// What a comparison returns for an outcome of the engine: its differences
/// with canonical values, or the failure with its message.
pub open spec fn compared_as(outcome: Result<Seq<DiffModel>, Seq<char>>) -> Result<
    Seq<DiffModel>,
    ErrorModel,
> {
    match outcome {
        Ok(ds) => Ok(canonical_results(ds)),
        Err(message) => Err(diff_failed(message)),
    }
}

/// What a comparison of two canonical values returns under a configuration
/// that names no array identity key.
pub open spec fn compared(old: ValueModel, new: ValueModel, config: ConfigModel) -> Result<
    Seq<DiffModel>,
    ErrorModel,
> {
    compared_as(engine_diff(json_image(old), json_image(new), config))
}

fn from_engine_result(r: &diffx_core::DiffResult) -> (d: DiffRecord)
    ensures
        d@ == canonical_result(engine_result_model(*r)),
{
    let (kind, path, first, second) = engine_result_parts(r);
    let value = from_json(&first);
    match second {
        Some(new) => {
            let new_value = from_json(&new);
            match kind {
                DiffKind::Modified => DiffRecord::Modified(path, value, new_value),
                _ => DiffRecord::TypeChanged(path, value, new_value),
            }
        },
        None => match kind {
            DiffKind::Added => DiffRecord::Added(path, value),
            _ => DiffRecord::Removed(path, value),
        },
    }
}

fn to_engine_result(d: &DiffRecord) -> (r: diffx_core::DiffResult)
    ensures
        engine_result_model(r) == json_result(d@),
{
    match d {
        DiffRecord::Added(path, v) => engine_added(path.clone(), to_json(v)),
        DiffRecord::Removed(path, v) => engine_removed(path.clone(), to_json(v)),
        DiffRecord::Modified(path, old, new) => engine_modified(
            path.clone(),
            to_json(old),
            to_json(new),
        ),
        DiffRecord::TypeChanged(path, old, new) => engine_type_changed(
            path.clone(),
            to_json(old),
            to_json(new),
        ),
    }
}

/// Takes over what the engine returned: its differences with canonical
/// values, in order, or the failure with its message.
fn take_over(outcome: Result<Vec<diffx_core::DiffResult>, String>) -> (r: Result<
    Vec<DiffRecord>,
    BridgeError,
>)
    ensures
        match r {
            Ok(ds) => compared_as(engine_outcome(outcome)) == Ok::<Seq<DiffModel>, ErrorModel>(
                diff_items(ds@),
            ),
            Err(e) => compared_as(engine_outcome(outcome)) == Err::<Seq<DiffModel>, ErrorModel>(
                e@,
            ),
        },
{
    match outcome {
        Err(message) => Err(BridgeError::DiffEngine { message }),
        Ok(results) => {
            let mut taken: Vec<DiffRecord> = Vec::new();
            let mut i: usize = 0;
            while i < results.len()
                invariant
                    i <= results.len(),
                    taken.len() == i,
                    forall|j: int|
                        0 <= j < i ==> (#[trigger] taken[j])@ == canonical_result(
                            engine_result_model(results[j]),
                        ),
                decreases results.len() - i,
            {
                taken.push(from_engine_result(&results[i]));
                i = i + 1;
            }
            assert(diff_items(taken@) =~= canonical_results(engine_results(results@)));
            Ok(taken)
        },
    }
}

/// What a list of differences or a failure denotes.
pub open spec fn diff_outcome(r: Result<Vec<DiffRecord>, BridgeError>) -> Result<
    Seq<DiffModel>,
    ErrorModel,
> {
    match r {
        Ok(ds) => Ok(diff_items(ds@)),
        Err(e) => Err(e@),
    }
}

/// `r` is what a comparison returns, but for the order of the differences.
pub open spec fn compared_in_some_order(
    old: ValueModel,
    new: ValueModel,
    config: ConfigModel,
    r: Result<Seq<DiffModel>, ErrorModel>,
) -> bool {
    exists|found: Result<Seq<DiffModel>, Seq<char>>|
        same_but_for_order(found, engine_diff(json_image(old), json_image(new), config)) && r
            == #[trigger] compared_as(found)
}

/// Compares two canonical values under a configuration.
///
/// The result is what the engine computes from the two trees and the
/// configuration: its differences with canonical values, or its failure. The
/// order of the differences is the engine's, too, unless the configuration
/// has an array identity key: then the same differences may come in another
/// order from run to run. The trees that the engine is handed are the same
/// values as `old` and `new`.
pub fn compare(old: &CanonicalValue, new: &CanonicalValue, config: &DiffConfig) -> (r: Result<
    Vec<DiffRecord>,
    BridgeError,
>)
    ensures
        compared_in_some_order(old@, new@, config@, diff_outcome(r)),
        config@.array_id_key is None ==> diff_outcome(r) == compared(old@, new@, config@),
        old@.same_as(json_image(old@)),
        new@.same_as(json_image(new@)),
{
    let old_tree = to_json(old);
    let new_tree = to_json(new);
    let outcome = run_engine_diff(&old_tree, &new_tree, config);
    let ghost found = engine_outcome(outcome);
    let r = take_over(outcome);
    assert(diff_outcome(r) == compared_as(found));
    r
}

/// What a comparison of two host values is asked to compare: the canonical
/// forms of the old and the new value and the configuration, or the first
/// failure among the three, in this order.
pub open spec fn requested(
    old: HostModel,
    new: HostModel,
    options: Seq<(Seq<char>, HostModel)>,
) -> Result<(ValueModel, ValueModel, ConfigModel), ErrorModel> {
    match canonical_of(old, MAX_DEPTH as nat) {
        Err(e) => Err(e),
        Ok(o) => match canonical_of(new, MAX_DEPTH as nat) {
            Err(e) => Err(e),
            Ok(n) => match configured(options) {
                Err(e) => Err(e),
                Ok(config) => Ok((o, n, config)),
            },
        },
    }
}

/// The host form of what a comparison returned.
pub open spec fn delivered(outcome: Result<Seq<DiffModel>, ErrorModel>) -> Result<
    Seq<HostModel>,
    ErrorModel,
> {
    match outcome {
        Ok(ds) => Ok(marshalled_all(ds)),
        Err(e) => Err(e),
    }
}

/// What a list of host values or a failure denotes.
pub open spec fn host_outcome(r: Result<Vec<HostValue>, BridgeError>) -> Result<
    Seq<HostModel>,
    ErrorModel,
> {
    match r {
        Ok(values) => Ok(host_items(values@)),
        Err(e) => Err(e@),
    }
}

/// `r` is the host form of what a comparison returns, but for the order of
/// the differences.
pub open spec fn delivered_in_some_order(
    old: ValueModel,
    new: ValueModel,
    config: ConfigModel,
    r: Result<Seq<HostModel>, ErrorModel>,
) -> bool {
    exists|outcome: Result<Seq<DiffModel>, ErrorModel>|
        compared_in_some_order(old, new, config, outcome) && r == #[trigger] delivered(outcome)
}

/// Compares two host values under the options given, and returns the
/// differences in host form, in the order in which the engine reports them.
///
/// The old value is converted first, then the new one, then the options are
/// checked; the first failure is returned and nothing is compared. Otherwise
/// the result is the host form of what the engine computes. With an array
/// identity key among the options the same differences may come in another
/// order from run to run.
pub fn diff(old: &HostValue, new: &HostValue, options: &Vec<(String, HostValue)>) -> (r: Result<
    Vec<HostValue>,
    BridgeError,
>)
    ensures
        match requested(old@, new@, option_entries(options@)) {
            Err(e) => host_outcome(r) == Err::<Seq<HostModel>, ErrorModel>(e),
            Ok(request) => {
                &&& delivered_in_some_order(request.0, request.1, request.2, host_outcome(r))
                &&& request.2.array_id_key is None ==> host_outcome(r) == delivered(
                    compared(request.0, request.1, request.2),
                )
                &&& request.0.same_as(json_image(request.0))
                &&& request.1.same_as(json_image(request.1))
            },
        },
{
    let old_value = to_canonical(old)?;
    let new_value = to_canonical(new)?;
    let config = build_config(options)?;
    let compared = compare(&old_value, &new_value, &config);
    let ghost outcome = diff_outcome(compared);
    let r = match compared {
        Ok(differences) => Ok(marshal_results(&differences)),
        Err(e) => Err(e),
    };
    assert(host_outcome(r) == delivered(outcome));
    r
}

/// The failure for a message of a parser.
pub open spec fn parse_failed(message: Seq<char>) -> ErrorModel {
    ErrorModel::Parse { message }
}

/// The canonical value that a text in a format denotes, or the failure with
/// the parser's message.
pub open spec fn parsed(format: TextFormat, content: Seq<char>) -> Result<ValueModel, ErrorModel> {
    match engine_parse(format, content) {
        Ok(tree) => Ok(canonical_image(tree)),
        Err(message) => Err(parse_failed(message)),
    }
}

/// The host form of what a text in a format denotes.
pub open spec fn parsed_to_host(format: TextFormat, content: Seq<char>) -> Result<
    HostModel,
    ErrorModel,
> {
    match parsed(format, content) {
        Ok(v) => Ok(dynamic_of(v)),
        Err(e) => Err(e),
    }
}

/// Parses a text in a format into a canonical value.
pub fn parse(format: TextFormat, content: &str) -> (r: Result<CanonicalValue, BridgeError>)
    ensures
        match r {
            Ok(v) => parsed(format, content@) == Ok::<ValueModel, ErrorModel>(v@),
            Err(e) => parsed(format, content@) == Err::<ValueModel, ErrorModel>(e@),
        },
        r matches Ok(v) ==> v@.wf(),
{
    match run_engine_parse(format, content) {
        Ok(tree) => Ok(from_json(&tree)),
        Err(message) => Err(BridgeError::Parse { message }),
    }
}

/// Parses a text in a format into a host value.
pub fn parse_to_host(format: TextFormat, content: &str) -> (r: Result<HostValue, BridgeError>)
    ensures
        match r {
            Ok(h) => parsed_to_host(format, content@) == Ok::<HostModel, ErrorModel>(h@),
            Err(e) => parsed_to_host(format, content@) == Err::<HostModel, ErrorModel>(e@),
        },
{
    match parse(format, content) {
        Ok(v) => Ok(to_dynamic(&v)),
        Err(e) => Err(e),
    }
}

/// Parses a JSON text into a host value.
pub fn parse_json(content: &str) -> (r: Result<HostValue, BridgeError>)
    ensures
        match r {
            Ok(h) => parsed_to_host(TextFormat::Json, content@) == Ok::<HostModel, ErrorModel>(h@),
            Err(e) => parsed_to_host(TextFormat::Json, content@) == Err::<HostModel, ErrorModel>(
                e@,
            ),
        },
{
    parse_to_host(TextFormat::Json, content)
}

/// Parses a YAML text into a host value.
pub fn parse_yaml(content: &str) -> (r: Result<HostValue, BridgeError>)
    ensures
        match r {
            Ok(h) => parsed_to_host(TextFormat::Yaml, content@) == Ok::<HostModel, ErrorModel>(h@),
            Err(e) => parsed_to_host(TextFormat::Yaml, content@) == Err::<HostModel, ErrorModel>(
                e@,
            ),
        },
{
    parse_to_host(TextFormat::Yaml, content)
}

/// Parses a TOML text into a host value.
pub fn parse_toml(content: &str) -> (r: Result<HostValue, BridgeError>)
    ensures
        match r {
            Ok(h) => parsed_to_host(TextFormat::Toml, content@) == Ok::<HostModel, ErrorModel>(h@),
            Err(e) => parsed_to_host(TextFormat::Toml, content@) == Err::<HostModel, ErrorModel>(
                e@,
            ),
        },
{
    parse_to_host(TextFormat::Toml, content)
}

/// Parses a CSV text into a host value: a list with one mapping for each row.
pub fn parse_csv(content: &str) -> (r: Result<HostValue, BridgeError>)
    ensures
        match r {
            Ok(h) => parsed_to_host(TextFormat::Csv, content@) == Ok::<HostModel, ErrorModel>(h@),
            Err(e) => parsed_to_host(TextFormat::Csv, content@) == Err::<HostModel, ErrorModel>(
                e@,
            ),
        },
{
    parse_to_host(TextFormat::Csv, content)
}

/// Parses an INI text into a host value.
pub fn parse_ini(content: &str) -> (r: Result<HostValue, BridgeError>)
    ensures
        match r {
            Ok(h) => parsed_to_host(TextFormat::Ini, content@) == Ok::<HostModel, ErrorModel>(h@),
            Err(e) => parsed_to_host(TextFormat::Ini, content@) == Err::<HostModel, ErrorModel>(
                e@,
            ),
        },
{
    parse_to_host(TextFormat::Ini, content)
}

/// Parses an XML text into a host value.
pub fn parse_xml(content: &str) -> (r: Result<HostValue, BridgeError>)
    ensures
        match r {
            Ok(h) => parsed_to_host(TextFormat::Xml, content@) == Ok::<HostModel, ErrorModel>(h@),
            Err(e) => parsed_to_host(TextFormat::Xml, content@) == Err::<HostModel, ErrorModel>(
                e@,
            ),
        },
{
    parse_to_host(TextFormat::Xml, content)
}

/// The failure for a message of the renderer.
pub open spec fn render_failed(message: Seq<char>) -> ErrorModel {
    ErrorModel::Render { message }
}

/// The text that differences are rendered to in a format, or the failure with
/// the renderer's message.
pub open spec fn rendered(ds: Seq<DiffModel>, format: OutputFormat) -> Result<
    Seq<char>,
    ErrorModel,
> {
    match engine_render(json_results(ds), format) {
        Ok(text) => Ok(text),
        Err(message) => Err(render_failed(message)),
    }
}

/// Renders differences in a format.
pub fn render(results: &Vec<DiffRecord>, format: OutputFormat) -> (r: Result<String, BridgeError>)
    ensures
        match r {
            Ok(text) => rendered(diff_items(results@), format) == Ok::<Seq<char>, ErrorModel>(
                text@,
            ),
            Err(e) => rendered(diff_items(results@), format) == Err::<Seq<char>, ErrorModel>(e@),
        },
{
    let mut handed: Vec<diffx_core::DiffResult> = Vec::new();
    let mut i: usize = 0;
    while i < results.len()
        invariant
            i <= results.len(),
            handed.len() == i,
            forall|j: int|
                0 <= j < i ==> engine_result_model(#[trigger] handed[j]) == json_result(
                    results[j]@,
                ),
        decreases results.len() - i,
    {
        handed.push(to_engine_result(&results[i]));
        i = i + 1;
    }
    assert(engine_results(handed@) =~= json_results(diff_items(results@)));
    match run_engine_render(&handed, format) {
        Ok(text) => Ok(text),
        Err(message) => Err(BridgeError::Render { message }),
    }
}

/// What rendering differences in host form under a format name returns: the
/// differences are read first, then the name; the first failure is returned.
pub open spec fn formatted(values: Seq<HostModel>, name: Seq<char>) -> Result<
    Seq<char>,
    ErrorModel,
> {
    match unmarshalled_all(values) {
        Err(e) => Err(e),
        Ok(ds) => match format_named(name) {
            None => Err(unknown_format()),
            Some(format) => rendered(ds, format),
        },
    }
}

/// Renders differences that are given in host form, in the format of this
/// name.
pub fn format_output(results: &Vec<HostValue>, format: &String) -> (r: Result<String, BridgeError>)
    ensures
        match r {
            Ok(text) => formatted(host_items(results@), format@) == Ok::<Seq<char>, ErrorModel>(
                text@,
            ),
            Err(e) => formatted(host_items(results@), format@) == Err::<Seq<char>, ErrorModel>(
                e@,
            ),
        },
{
    let differences = unmarshal_results(results)?;
    let output_format = OutputFormat::from_name(format)?;
    render(&differences, output_format)
}

/// The version of the bridge, for callers that track compatibility.
pub fn version() -> (r: String)
    ensures
        r@ == "0.6.1"@,
{
    String::from_str("0.6.1")
}

} // verus!
