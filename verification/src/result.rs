//! The differences that a comparison reports, and their host form.
//!
//! In host form a difference is a key-value container. Under `"type"` stands
//! the discriminator, one of `"Added"`, `"Removed"`, `"Modified"` and
//! `"TypeChanged"`; under `"path"` the place in the tree; under `"value"`, or
//! under `"old_value"` and `"new_value"`, what stood there.

use vstd::prelude::*;
use crate::convert::{
    canonical_of, dynamic_of, law_valid_value_comes_back, to_canonical, to_dynamic, MAX_DEPTH,
};
use crate::error::{BridgeError, ErrorModel, ResultFault, ResultField};
use crate::host::{host_entries, host_items, HostModel, HostValue};
use crate::value::{CanonicalValue, ValueModel};

verus! {

/// The four ways in which two trees differ at a path.
#[derive(Clone, Copy, Debug, PartialEq, Eq, Structural)]
pub enum DiffKind {
    /// Present in the new tree only.
    Added,
    /// Present in the old tree only.
    Removed,
    /// Another value of the same kind.
    Modified,
    /// A value of another kind.
    TypeChanged,
}

impl DiffKind {
    /// The discriminator of the kind.
    pub open spec fn spec_name(self) -> Seq<char> {
        match self {
            DiffKind::Added => "Added"@,
            DiffKind::Removed => "Removed"@,
            DiffKind::Modified => "Modified"@,
            DiffKind::TypeChanged => "TypeChanged"@,
        }
    }

    /// The kind that a discriminator names.
    pub open spec fn spec_from_name(name: Seq<char>) -> Option<DiffKind> {
        if name == "Added"@ {
            Some(DiffKind::Added)
        } else if name == "Removed"@ {
            Some(DiffKind::Removed)
        } else if name == "Modified"@ {
            Some(DiffKind::Modified)
        } else if name == "TypeChanged"@ {
            Some(DiffKind::TypeChanged)
        } else {
            None
        }
    }

    /// Whether a difference of this kind carries an old and a new value.
    pub open spec fn spec_has_two_values(self) -> bool {
        self == DiffKind::Modified || self == DiffKind::TypeChanged
    }

    /// The discriminator of the kind.
    pub fn name(self) -> (r: String)
        ensures
            r@ == self.spec_name(),
    {
        match self {
            DiffKind::Added => String::from_str("Added"),
            DiffKind::Removed => String::from_str("Removed"),
            DiffKind::Modified => String::from_str("Modified"),
            DiffKind::TypeChanged => String::from_str("TypeChanged"),
        }
    }

    /// The kind that a discriminator names. The match is exact: case counts.
    pub fn from_name(name: &String) -> (r: Option<DiffKind>)
        ensures
            r == DiffKind::spec_from_name(name@),
    {
        if *name == String::from_str("Added") {
            Some(DiffKind::Added)
        } else if *name == String::from_str("Removed") {
            Some(DiffKind::Removed)
        } else if *name == String::from_str("Modified") {
            Some(DiffKind::Modified)
        } else if *name == String::from_str("TypeChanged") {
            Some(DiffKind::TypeChanged)
        } else {
            None
        }
    }

    /// Whether a difference of this kind carries an old and a new value.
    pub fn has_two_values(self) -> (r: bool)
        ensures
            r == self.spec_has_two_values(),
    {
        match self {
            DiffKind::Added => false,
            DiffKind::Removed => false,
            DiffKind::Modified => true,
            DiffKind::TypeChanged => true,
        }
    }
}

/// Every kind is named by its own discriminator and by no other.
pub proof fn lemma_kind_names(kind: DiffKind)
    ensures
        DiffKind::spec_from_name(kind.spec_name()) == Some(kind),
{
    reveal_strlit("Added");
    reveal_strlit("Removed");
    reveal_strlit("Modified");
    reveal_strlit("TypeChanged");
    assert("Added"@.len() == 5);
    assert("Removed"@.len() == 7);
    assert("Modified"@.len() == 8);
    assert("TypeChanged"@.len() == 11);
}

/// What a difference denotes.
pub enum DiffModel {
    Added(Seq<char>, ValueModel),
    Removed(Seq<char>, ValueModel),
    Modified(Seq<char>, ValueModel, ValueModel),
    TypeChanged(Seq<char>, ValueModel, ValueModel),
}

impl DiffModel {
    /// Which of the four variants the difference is.
    pub open spec fn kind(self) -> DiffKind {
        match self {
            DiffModel::Added(..) => DiffKind::Added,
            DiffModel::Removed(..) => DiffKind::Removed,
            DiffModel::Modified(..) => DiffKind::Modified,
            DiffModel::TypeChanged(..) => DiffKind::TypeChanged,
        }
    }

    /// The place in the tree.
    pub open spec fn path(self) -> Seq<char> {
        match self {
            DiffModel::Added(path, _) => path,
            DiffModel::Removed(path, _) => path,
            DiffModel::Modified(path, _, _) => path,
            DiffModel::TypeChanged(path, _, _) => path,
        }
    }

    /// The value, or the old one of two.
    pub open spec fn first(self) -> ValueModel {
        match self {
            DiffModel::Added(_, v) => v,
            DiffModel::Removed(_, v) => v,
            DiffModel::Modified(_, old, _) => old,
            DiffModel::TypeChanged(_, old, _) => old,
        }
    }

    /// The new one of two values.
    pub open spec fn second(self) -> Option<ValueModel> {
        match self {
            DiffModel::Added(..) => None,
            DiffModel::Removed(..) => None,
            DiffModel::Modified(_, _, new) => Some(new),
            DiffModel::TypeChanged(_, _, new) => Some(new),
        }
    }

    /// The difference of this kind at this path with these values.
    pub open spec fn assemble(
        kind: DiffKind,
        path: Seq<char>,
        first: ValueModel,
        second: ValueModel,
    ) -> DiffModel {
        match kind {
            DiffKind::Added => DiffModel::Added(path, first),
            DiffKind::Removed => DiffModel::Removed(path, first),
            DiffKind::Modified => DiffModel::Modified(path, first, second),
            DiffKind::TypeChanged => DiffModel::TypeChanged(path, first, second),
        }
    }

    /// The values of the difference are valid canonical values.
    pub open spec fn wf(self) -> bool {
        self.first().wf() && self.first().fits(MAX_DEPTH as nat) && (self.second() matches Some(v)
            ==> v.wf() && v.fits(MAX_DEPTH as nat))
    }
}

/// One difference between an old and a new tree: the path, and the value or
/// the old and the new value.
#[derive(Debug, PartialEq)]
pub enum DiffRecord {
    /// The path holds this value in the new tree only.
    Added(String, CanonicalValue),
    /// The path holds this value in the old tree only.
    Removed(String, CanonicalValue),
    /// The path holds another value of the same kind.
    Modified(String, CanonicalValue, CanonicalValue),
    /// The path holds a value of another kind.
    TypeChanged(String, CanonicalValue, CanonicalValue),
}

impl View for DiffRecord {
    type V = DiffModel;

    open spec fn view(&self) -> DiffModel {
        match self {
            DiffRecord::Added(path, v) => DiffModel::Added(path@, v@),
            DiffRecord::Removed(path, v) => DiffModel::Removed(path@, v@),
            DiffRecord::Modified(path, old, new) => DiffModel::Modified(path@, old@, new@),
            DiffRecord::TypeChanged(path, old, new) => DiffModel::TypeChanged(path@, old@, new@),
        }
    }
}

impl Clone for DiffRecord {
    fn clone(&self) -> (r: DiffRecord)
        ensures
            r@ == self@,
    {
        match self {
            DiffRecord::Added(path, v) => DiffRecord::Added(path.clone(), v.clone()),
            DiffRecord::Removed(path, v) => DiffRecord::Removed(path.clone(), v.clone()),
            DiffRecord::Modified(path, old, new) => DiffRecord::Modified(
                path.clone(),
                old.clone(),
                new.clone(),
            ),
            DiffRecord::TypeChanged(path, old, new) => DiffRecord::TypeChanged(
                path.clone(),
                old.clone(),
                new.clone(),
            ),
        }
    }
}

/// What a list of differences denotes.
pub open spec fn diff_items(items: Seq<DiffRecord>) -> Seq<DiffModel> {
    Seq::new(items.len(), |i: int| items[i]@)
}

/// A text in host form.
pub open spec fn text(s: Seq<char>) -> HostModel {
    HostModel::Text(s)
}

/// The host form of a difference.
pub open spec fn marshalled(d: DiffModel) -> HostModel {
    match d.second() {
        None => HostModel::Dict(
            seq![
                (text("type"@), text(d.kind().spec_name())),
                (text("path"@), text(d.path())),
                (text("value"@), dynamic_of(d.first())),
            ],
        ),
        Some(new) => HostModel::Dict(
            seq![
                (text("type"@), text(d.kind().spec_name())),
                (text("path"@), text(d.path())),
                (text("old_value"@), dynamic_of(d.first())),
                (text("new_value"@), dynamic_of(new)),
            ],
        ),
    }
}

/// The host forms of the differences, in order.
pub open spec fn marshalled_all(ds: Seq<DiffModel>) -> Seq<HostModel> {
    Seq::new(ds.len(), |i: int| marshalled(ds[i]))
}

fn field(key: ResultField, value: HostValue) -> (r: (HostValue, HostValue))
    ensures
        r.0@ == text(key.spec_name()),
        r.1@ == value@,
{
    (HostValue::Text(key.name()), value)
}

/// Marshals a difference into host form.
pub fn marshal_result(result: &DiffRecord) -> (r: HostValue)
    ensures
        r@ == marshalled(result@),
{
    let mut entries: Vec<(HostValue, HostValue)> = Vec::new();
    match result {
        DiffRecord::Added(path, v) => {
            entries.push(field(ResultField::Type, HostValue::Text(DiffKind::Added.name())));
            entries.push(field(ResultField::Path, HostValue::Text(path.clone())));
            entries.push(field(ResultField::Value, to_dynamic(v)));
        },
        DiffRecord::Removed(path, v) => {
            entries.push(field(ResultField::Type, HostValue::Text(DiffKind::Removed.name())));
            entries.push(field(ResultField::Path, HostValue::Text(path.clone())));
            entries.push(field(ResultField::Value, to_dynamic(v)));
        },
        DiffRecord::Modified(path, old, new) => {
            entries.push(field(ResultField::Type, HostValue::Text(DiffKind::Modified.name())));
            entries.push(field(ResultField::Path, HostValue::Text(path.clone())));
            entries.push(field(ResultField::OldValue, to_dynamic(old)));
            entries.push(field(ResultField::NewValue, to_dynamic(new)));
        },
        DiffRecord::TypeChanged(path, old, new) => {
            entries.push(field(ResultField::Type, HostValue::Text(DiffKind::TypeChanged.name())));
            entries.push(field(ResultField::Path, HostValue::Text(path.clone())));
            entries.push(field(ResultField::OldValue, to_dynamic(old)));
            entries.push(field(ResultField::NewValue, to_dynamic(new)));
        },
    }
    assert(HostValue::Dict(entries)@->Dict_0 =~= marshalled(result@)->Dict_0);
    HostValue::Dict(entries)
}

/// Marshals differences into host form, in order.
pub fn marshal_results(results: &Vec<DiffRecord>) -> (r: Vec<HostValue>)
    ensures
        host_items(r@) == marshalled_all(diff_items(results@)),
{
    let mut marshalled_so_far: Vec<HostValue> = Vec::new();
    let mut i: usize = 0;
    while i < results.len()
        invariant
            i <= results.len(),
            marshalled_so_far.len() == i,
            forall|j: int| 0 <= j < i ==> (#[trigger] marshalled_so_far[j])@ == marshalled(results[j]@),
        decreases results.len() - i,
    {
        marshalled_so_far.push(marshal_result(&results[i]));
        i = i + 1;
    }
    assert(host_items(marshalled_so_far@) =~= marshalled_all(diff_items(results@)));
    marshalled_so_far
}

/// The value under the text key `name`: that of the last entry with this key.
pub open spec fn lookup(entries: Seq<(HostModel, HostModel)>, name: Seq<char>) -> Option<HostModel>
    decreases entries.len(),
{
    if entries.len() == 0 {
        None
    } else if entries.last().0 == text(name) {
        Some(entries.last().1)
    } else {
        lookup(entries.drop_last(), name)
    }
}

/// The failure for a difference in host form.
pub open spec fn malformed(fault: ResultFault) -> ErrorModel {
    ErrorModel::MalformedResult { fault }
}

/// The text under a field that has to be there and to be text.
pub open spec fn field_text(entries: Seq<(HostModel, HostModel)>, field: ResultField) -> Result<
    Seq<char>,
    ErrorModel,
> {
    match lookup(entries, field.spec_name()) {
        None => Err(malformed(ResultFault::MissingField(field))),
        Some(HostModel::Text(s)) => Ok(s),
        Some(_) => Err(malformed(ResultFault::NotText(field))),
    }
}

/// The canonical forms of the values of a difference of this kind: first the
/// fields have to be there, then each has to convert.
pub open spec fn field_values(entries: Seq<(HostModel, HostModel)>, kind: DiffKind) -> Result<
    (ValueModel, ValueModel),
    ErrorModel,
> {
    if kind.spec_has_two_values() {
        match lookup(entries, ResultField::OldValue.spec_name()) {
            None => Err(malformed(ResultFault::MissingField(ResultField::OldValue))),
            Some(old) => match lookup(entries, ResultField::NewValue.spec_name()) {
                None => Err(malformed(ResultFault::MissingField(ResultField::NewValue))),
                Some(new) => match canonical_of(old, MAX_DEPTH as nat) {
                    Err(e) => Err(e),
                    Ok(first) => match canonical_of(new, MAX_DEPTH as nat) {
                        Err(e) => Err(e),
                        Ok(second) => Ok((first, second)),
                    },
                },
            },
        }
    } else {
        match lookup(entries, ResultField::Value.spec_name()) {
            None => Err(malformed(ResultFault::MissingField(ResultField::Value))),
            Some(value) => match canonical_of(value, MAX_DEPTH as nat) {
                Err(e) => Err(e),
                Ok(first) => Ok((first, first)),
            },
        }
    }
}

/// The difference that a host value stands for, or why it stands for none.
/// The discriminator is read first, then the path, then the values that the
/// variant needs.
pub open spec fn unmarshalled(h: HostModel) -> Result<DiffModel, ErrorModel> {
    match h {
        HostModel::Dict(entries) => match field_text(entries, ResultField::Type) {
            Err(e) => Err(e),
            Ok(name) => match field_text(entries, ResultField::Path) {
                Err(e) => Err(e),
                Ok(path) => match DiffKind::spec_from_name(name) {
                    None => Err(malformed(ResultFault::UnknownDiscriminator)),
                    Some(kind) => match field_values(entries, kind) {
                        Err(e) => Err(e),
                        Ok(values) => Ok(DiffModel::assemble(kind, path, values.0, values.1)),
                    },
                },
            },
        },
        _ => Err(malformed(ResultFault::NotAMapping)),
    }
}

/// The differences that the host values stand for, in order, or the first
/// failure.
pub open spec fn unmarshalled_all(items: Seq<HostModel>) -> Result<Seq<DiffModel>, ErrorModel>
    decreases items.len(),
{
    if items.len() == 0 {
        Ok(Seq::empty())
    } else {
        match unmarshalled_all(items.drop_last()) {
            Err(e) => Err(e),
            Ok(read) => match unmarshalled(items.last()) {
                Err(e) => Err(e),
                Ok(d) => Ok(read.push(d)),
            },
        }
    }
}

proof fn lemma_unmarshal_failure_stays(items: Seq<HostModel>, n: int)
    requires
        0 <= n <= items.len(),
        unmarshalled_all(items.take(n)) is Err,
    ensures
        unmarshalled_all(items) == unmarshalled_all(items.take(n)),
    decreases items.len() - n,
{
    if n < items.len() {
        assert(items.take(n + 1).drop_last() =~= items.take(n));
        lemma_unmarshal_failure_stays(items, n + 1);
    } else {
        assert(items.take(n) =~= items);
    }
}

fn find(entries: &Vec<(HostValue, HostValue)>, field: ResultField) -> (r: Option<&HostValue>)
    ensures
        match r {
            Some(v) => lookup(host_entries(entries@), field.spec_name()) == Some(v@),
            None => lookup(host_entries(entries@), field.spec_name()) is None,
        },
{
    let ghost all = host_entries(entries@);
    let name = field.name();
    let mut i: usize = entries.len();
    assert(all.take(i as int) =~= all);
    while i > 0
        invariant
            i <= entries.len(),
            all == host_entries(entries@),
            name@ == field.spec_name(),
            lookup(all, name@) == lookup(all.take(i as int), name@),
        decreases i,
    {
        i = i - 1;
        proof {
            assert(all.take(i + 1).drop_last() =~= all.take(i as int));
            assert(all.take(i + 1).last() == (entries[i as int].0@, entries[i as int].1@));
        }
        if let Some(key) = entries[i].0.as_text() {
            if *key == name {
                return Some(&entries[i].1);
            }
        }
    }
    None
}

fn find_text(entries: &Vec<(HostValue, HostValue)>, field: ResultField) -> (r: Result<
    &String,
    BridgeError,
>)
    ensures
        match r {
            Ok(s) => field_text(host_entries(entries@), field) == Ok::<Seq<char>, ErrorModel>(s@),
            Err(e) => field_text(host_entries(entries@), field) == Err::<Seq<char>, ErrorModel>(e@),
        },
{
    match find(entries, field) {
        None => Err(BridgeError::MalformedResult { fault: ResultFault::MissingField(field) }),
        Some(value) => match value.as_text() {
            Some(s) => Ok(s),
            None => Err(BridgeError::MalformedResult { fault: ResultFault::NotText(field) }),
        },
    }
}

fn find_present(entries: &Vec<(HostValue, HostValue)>, field: ResultField) -> (r: Result<
    &HostValue,
    BridgeError,
>)
    ensures
        match r {
            Ok(v) => lookup(host_entries(entries@), field.spec_name()) == Some(v@),
            Err(e) => lookup(host_entries(entries@), field.spec_name()) is None && e@ == malformed(
                ResultFault::MissingField(field),
            ),
        },
{
    match find(entries, field) {
        None => Err(BridgeError::MalformedResult { fault: ResultFault::MissingField(field) }),
        Some(value) => Ok(value),
    }
}

/// Reads a difference back from host form.
pub fn unmarshal_result(value: &HostValue) -> (r: Result<DiffRecord, BridgeError>)
    ensures
        match r {
            Ok(d) => unmarshalled(value@) == Ok::<DiffModel, ErrorModel>(d@),
            Err(e) => unmarshalled(value@) == Err::<DiffModel, ErrorModel>(e@),
        },
{
    let entries = match value.as_mapping() {
        Some(entries) => entries,
        None => {
            return Err(BridgeError::MalformedResult { fault: ResultFault::NotAMapping });
        },
    };
    let name = match find_text(entries, ResultField::Type) {
        Ok(name) => name,
        Err(e) => {
            return Err(e);
        },
    };
    let path = match find_text(entries, ResultField::Path) {
        Ok(path) => path.clone(),
        Err(e) => {
            return Err(e);
        },
    };
    let kind = match DiffKind::from_name(name) {
        Some(kind) => kind,
        None => {
            return Err(BridgeError::MalformedResult { fault: ResultFault::UnknownDiscriminator });
        },
    };
    if kind.has_two_values() {
        let old = match find_present(entries, ResultField::OldValue) {
            Ok(old) => old,
            Err(e) => {
                return Err(e);
            },
        };
        let new = match find_present(entries, ResultField::NewValue) {
            Ok(new) => new,
            Err(e) => {
                return Err(e);
            },
        };
        let first = match to_canonical(old) {
            Ok(first) => first,
            Err(e) => {
                return Err(e);
            },
        };
        let second = match to_canonical(new) {
            Ok(second) => second,
            Err(e) => {
                return Err(e);
            },
        };
        match kind {
            DiffKind::Modified => Ok(DiffRecord::Modified(path, first, second)),
            _ => Ok(DiffRecord::TypeChanged(path, first, second)),
        }
    } else {
        let found = match find_present(entries, ResultField::Value) {
            Ok(found) => found,
            Err(e) => {
                return Err(e);
            },
        };
        let first = match to_canonical(found) {
            Ok(first) => first,
            Err(e) => {
                return Err(e);
            },
        };
        match kind {
            DiffKind::Added => Ok(DiffRecord::Added(path, first)),
            _ => Ok(DiffRecord::Removed(path, first)),
        }
    }
}

/// Reads differences back from host form, in order. The first value that
/// cannot be read decides the failure; no part of the list is returned then.
pub fn unmarshal_results(values: &Vec<HostValue>) -> (r: Result<Vec<DiffRecord>, BridgeError>)
    ensures
        match r {
            Ok(ds) => unmarshalled_all(host_items(values@)) == Ok::<Seq<DiffModel>, ErrorModel>(
                diff_items(ds@),
            ),
            Err(e) => unmarshalled_all(host_items(values@)) == Err::<Seq<DiffModel>, ErrorModel>(
                e@,
            ),
        },
{
    let ghost all = host_items(values@);
    let mut read: Vec<DiffRecord> = Vec::new();
    let mut i: usize = 0;
    assert(all.take(0) =~= Seq::<HostModel>::empty());
    assert(diff_items(read@) =~= Seq::<DiffModel>::empty());
    while i < values.len()
        invariant
            i <= values.len(),
            all == host_items(values@),
            unmarshalled_all(all.take(i as int)) == Ok::<Seq<DiffModel>, ErrorModel>(
                diff_items(read@),
            ),
        decreases values.len() - i,
    {
        proof {
            assert(all.take(i + 1).drop_last() =~= all.take(i as int));
            assert(all.take(i + 1).last() == values[i as int]@);
        }
        match unmarshal_result(&values[i]) {
            Ok(d) => {
                let ghost before = diff_items(read@);
                read.push(d);
                assert(diff_items(read@) =~= before.push(d@));
            },
            Err(e) => {
                proof {
                    lemma_unmarshal_failure_stays(all, i + 1);
                }
                return Err(e);
            },
        }
        i = i + 1;
    }
    assert(all.take(i as int) =~= all);
    Ok(read)
}

/// The keys of the fields are five different texts.
proof fn lemma_field_names()
    ensures
        forall|a: ResultField, b: ResultField| a != b ==> a.spec_name() != b.spec_name(),
{
    reveal_strlit("type");
    reveal_strlit("path");
    reveal_strlit("value");
    reveal_strlit("old_value");
    reveal_strlit("new_value");
    assert("type"@.len() == 4 && "type"@[0] == 't');
    assert("path"@.len() == 4 && "path"@[0] == 'p');
    assert("value"@.len() == 5);
    assert("old_value"@.len() == 9 && "old_value"@[0] == 'o');
    assert("new_value"@.len() == 9 && "new_value"@[0] == 'n');
}

/// The reverse marshaller is the exact inverse of the marshaller: a
/// difference whose values are valid canonical values comes back from its
/// host form, whichever of the four variants it is.
pub proof fn law_unmarshal_inverts_marshal(d: DiffModel)
    requires
        d.wf(),
    ensures
        unmarshalled(marshalled(d)) == Ok::<DiffModel, ErrorModel>(d),
{
    lemma_field_names();
    lemma_kind_names(d.kind());
    law_valid_value_comes_back(d.first());
    let entries = marshalled(d)->Dict_0;
    let type_key = ResultField::Type.spec_name();
    let path_key = ResultField::Path.spec_name();
    reveal_with_fuel(lookup, 5);
    match d.second() {
        None => {
            let value_key = ResultField::Value.spec_name();
            assert(entries.drop_last() =~= seq![entries[0], entries[1]]);
            assert(entries.drop_last().drop_last() =~= seq![entries[0]]);
            assert(lookup(entries, value_key) == Some(dynamic_of(d.first())));
            assert(lookup(entries, path_key) == Some(text(d.path())));
            assert(lookup(entries, type_key) == Some(text(d.kind().spec_name())));
        },
        Some(new) => {
            law_valid_value_comes_back(new);
            let old_key = ResultField::OldValue.spec_name();
            let new_key = ResultField::NewValue.spec_name();
            let three = entries.drop_last();
            assert(three =~= seq![entries[0], entries[1], entries[2]]);
            assert(three.drop_last() =~= seq![entries[0], entries[1]]);
            assert(three.drop_last().drop_last() =~= seq![entries[0]]);
            assert(lookup(entries, new_key) == Some(dynamic_of(new)));
            assert(lookup(entries, old_key) == Some(dynamic_of(d.first())));
            assert(lookup(entries, path_key) == Some(text(d.path())));
            assert(lookup(entries, type_key) == Some(text(d.kind().spec_name())));
        },
    }
}

/// A list of differences comes back from its host form, in order.
pub proof fn law_unmarshal_inverts_marshal_all(ds: Seq<DiffModel>)
    requires
        forall|i: int| 0 <= i < ds.len() ==> (#[trigger] ds[i]).wf(),
    ensures
        unmarshalled_all(marshalled_all(ds)) == Ok::<Seq<DiffModel>, ErrorModel>(ds),
    decreases ds.len(),
{
    if ds.len() == 0 {
        assert(ds =~= Seq::<DiffModel>::empty());
    } else {
        let hosts = marshalled_all(ds);
        assert(hosts.drop_last() =~= marshalled_all(ds.drop_last()));
        law_unmarshal_inverts_marshal_all(ds.drop_last());
        law_unmarshal_inverts_marshal(ds.last());
        assert(ds.drop_last().push(ds.last()) =~= ds);
    }
}

} // verus!
