//! One package requirement: from an index, optionally version-constrained, or
//! from a local path.

use vstd::prelude::*;
use crate::fields::{opt_bool_spec, opt_str_spec, opt_string_view, read_bool, read_str};
use crate::specifiers::{canonical_specifiers, parse_specifiers};
use crate::value::{
    error_at, find_repeat, first_repeat, has_repeat, key_segment, ConfigError, ErrorKind, ErrorView,
    Expected, KindView, SegmentView, Value, fail,
};

verus! {

#[derive(Debug, PartialEq, Eq)]
pub enum Package {
    /// Install from a package index. `version` is the canonical text of the
    /// version-constraint set, where one was given.
    Index { version: Option<String> },
    /// Install from a local directory, in development mode where `editable`.
    Path { path: String, editable: bool },
}

pub enum PackageView {
    Index { version: Option<Seq<char>> },
    Path { path: Seq<char>, editable: bool },
}

impl View for Package {
    type V = PackageView;

    open spec fn view(&self) -> PackageView {
        match self {
            Package::Index { version } => PackageView::Index { version: opt_string_view(*version) },
            Package::Path { path, editable } => PackageView::Path { path: path@, editable: *editable },
        }
    }
}

/// The fields a package entry may give, each present or absent.
pub struct PackageFields {
    pub version: Option<String>,
    pub path: Option<String>,
    pub editable: Option<bool>,
}

pub open spec fn package_result(r: Result<Package, ConfigError>) -> Result<PackageView, ErrorView> {
    match r {
        Ok(p) => Ok(p@),
        Err(e) => Err(e@),
    }
}

/// The resolution table: a version alone (or nothing) names an index package, a
/// path without a version names a path package; a version beside a path, or
/// `editable` without a path, is refused.
pub open spec fn resolve_spec(
    version: Option<Seq<char>>,
    path: Option<Seq<char>>,
    editable: Option<bool>,
) -> Result<PackageView, ErrorView> {
    match (version, path, editable) {
        (None, None, None) => Ok(PackageView::Index { version: None }),
        (Some(t), None, None) => match canonical_specifiers(t) {
            Some(c) => Ok(PackageView::Index { version: Some(c) }),
            None => fail(Seq::empty(), KindView::InvalidVersion(t)),
        },
        (None, Some(p), e) => Ok(
            PackageView::Path {
                path: p,
                editable: match e {
                    Some(b) => b,
                    None => false,
                },
            },
        ),
        _ => fail(Seq::empty(), KindView::InvalidCombination),
    }
}

pub open spec fn is_package_field(k: Seq<char>) -> bool {
    k == "version"@ || k == "path"@ || k == "editable"@
}

/// Entry `i` is the first whose key is not a package field.
pub open spec fn is_first_unknown(es: Seq<(String, Value)>, i: int) -> bool {
    &&& 0 <= i < es.len()
    &&& !is_package_field(es[i].0@)
    &&& forall|j: int| 0 <= j < i ==> is_package_field((#[trigger] es[j]).0@)
}

pub open spec fn has_unknown(es: Seq<(String, Value)>) -> bool {
    exists|i: int| 0 <= i < es.len() && !is_package_field((#[trigger] es[i]).0@)
}

pub open spec fn first_unknown(es: Seq<(String, Value)>) -> int {
    choose|i: int| is_first_unknown(es, i)
}

/// A package given as a table of fields.
pub open spec fn package_table_spec(es: Seq<(String, Value)>) -> Result<PackageView, ErrorView> {
    if has_repeat(es) {
        fail(seq![SegmentView::Key(es[first_repeat(es)].0@)], KindView::DuplicateKey)
    } else if has_unknown(es) {
        fail(seq![SegmentView::Key(es[first_unknown(es)].0@)], KindView::UnknownField)
    } else {
        match opt_str_spec(es, "version"@) {
            Err(e) => Err(e),
            Ok(v) => match opt_str_spec(es, "path"@) {
                Err(e) => Err(e),
                Ok(p) => match opt_bool_spec(es, "editable"@) {
                    Err(e) => Err(e),
                    Ok(b) => resolve_spec(v, p, b),
                },
            },
        }
    }
}

/// A package value: a bare string stands for a table holding only `version`.
pub open spec fn package_spec(v: Value) -> Result<PackageView, ErrorView> {
    match v {
        Value::Str(s) => resolve_spec(Some(s@), None, None),
        Value::Table(es) => package_table_spec(es@),
        _ => fail(Seq::empty(), KindView::TypeMismatch(Expected::StrOrTable)),
    }
}

fn error_here(kind: ErrorKind) -> (r: ConfigError)
    ensures
        r@.path == Seq::<SegmentView>::empty(),
        r@.kind == kind@,
{
    let r = ConfigError { path: Vec::new(), kind };
    assert(r@.path =~= Seq::<SegmentView>::empty());
    r
}

fn find_unknown(es: &Vec<(String, Value)>) -> (r: Option<usize>)
    ensures
        r is Some <==> has_unknown(es@),
        r matches Some(i) ==> i < es@.len() && i == first_unknown(es@),
{
    let version = "version".to_owned();
    let path = "path".to_owned();
    let editable = "editable".to_owned();
    let mut i: usize = 0;
    while i < es.len()
        invariant
            i <= es@.len(),
            version@ == "version"@,
            path@ == "path"@,
            editable@ == "editable"@,
            forall|j: int| 0 <= j < i ==> is_package_field((#[trigger] es@[j]).0@),
        decreases es@.len() - i,
    {
        if !(es[i].0 == version || es[i].0 == path || es[i].0 == editable) {
            proof {
                let c = first_unknown(es@);
                assert(is_first_unknown(es@, i as int));
                assert(is_first_unknown(es@, c));
                if c < i {
                    assert(is_package_field(es@[c].0@));
                } else if c > i {
                    assert(is_package_field(es@[i as int].0@));
                }
            }
            return Some(i);
        }
        i = i + 1;
    }
    None
}

impl PackageFields {
    /// A bare version string, as a package entry may be written.
    pub fn from_shorthand(version: String) -> (r: PackageFields)
        ensures
            r.version == Some(version),
            r.path is None,
            r.editable is None,
    {
        PackageFields { version: Some(version), path: None, editable: None }
    }
}

impl Package {
    /// An index package for the version string `specifier`, given what the
    /// version-specifier parser made of it: its canonical text, or its message.
    pub fn from_parsed_version(specifier: String, parsed: Result<String, String>) -> (r: Result<Package, ConfigError>)
        ensures
            package_result(r) == match parsed {
                Ok(c) => Ok::<_, ErrorView>(PackageView::Index { version: Some(c@) }),
                Err(_) => fail(Seq::empty(), KindView::InvalidVersion(specifier@)),
            },
    {
        match parsed {
            Ok(c) => Ok(Package::Index { version: Some(c) }),
            Err(reason) => Err(error_here(ErrorKind::InvalidVersion { specifier, reason })),
        }
    }

    /// Applies the resolution table to the fields of one package entry.
    pub fn from_fields(fields: PackageFields) -> (r: Result<Package, ConfigError>)
        ensures
            package_result(r) == resolve_spec(
                opt_string_view(fields.version),
                opt_string_view(fields.path),
                fields.editable,
            ),
    {
        match fields {
            PackageFields { version: None, path: None, editable: None } => Ok(Package::Index { version: None }),
            PackageFields { version: Some(t), path: None, editable: None } => {
                let parsed = parse_specifiers(&t);
                Package::from_parsed_version(t, parsed)
            },
            PackageFields { version: None, path: Some(p), editable } => Ok(
                Package::Path {
                    path: p,
                    editable: match editable {
                        Some(b) => b,
                        None => false,
                    },
                },
            ),
            _ => Err(error_here(ErrorKind::InvalidCombination)),
        }
    }

    /// Reads one package entry: a version string, or a table of `version`,
    /// `path` and `editable`. Error paths are relative to the entry.
    pub fn deserialize(v: &Value) -> (r: Result<Package, ConfigError>)
        ensures
            package_result(r) == package_spec(*v),
    {
        match v {
            Value::Str(s) => Package::from_fields(PackageFields::from_shorthand(s.clone())),
            Value::Table(es) => {
                if let Some(j) = find_repeat(es) {
                    return Err(error_at(key_segment(&es[j].0), ErrorKind::DuplicateKey));
                }
                if let Some(j) = find_unknown(es) {
                    return Err(error_at(key_segment(&es[j].0), ErrorKind::UnknownField));
                }
                let version = read_str(es, &"version".to_owned())?;
                let path = read_str(es, &"path".to_owned())?;
                let editable = read_bool(es, &"editable".to_owned())?;
                Package::from_fields(PackageFields { version, path, editable })
            },
            _ => Err(error_here(ErrorKind::TypeMismatch(Expected::StrOrTable))),
        }
    }
}

} // verus!
