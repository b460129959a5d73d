//! The raw document tree, the error type, and lookups into tables.

use vstd::prelude::*;

verus! {

#[derive(Debug, PartialEq, Eq)]
/// One node of a structured document, independent of its text format.
pub enum Value {
    Str(String),
    Bool(bool),
    Integer(i64),
    Array(Vec<Value>),
    /// A mapping, entries in document order.
    Table(Vec<(String, Value)>),
    /// Any other scalar (a float, a date or time, a null).
    Other,
}

#[derive(Debug, PartialEq, Eq)]
/// One step of the path from the document root to a field.
pub enum Segment {
    Key(String),
    Index(usize),
}

pub enum SegmentView {
    Key(Seq<char>),
    Index(nat),
}

impl View for Segment {
    type V = SegmentView;

    open spec fn view(&self) -> SegmentView {
        match self {
            Segment::Key(k) => SegmentView::Key(k@),
            Segment::Index(i) => SegmentView::Index(*i as nat),
        }
    }
}

/// The kind of value a field was required to hold.
#[derive(Debug, Clone, Copy, PartialEq, Eq, Structural)]
pub enum Expected {
    Str,
    Bool,
    Array,
    Table,
    StrOrTable,
}

#[derive(Debug, PartialEq, Eq)]
pub enum ErrorKind {
    /// A required field is absent.
    MissingField,
    /// A field holds a value of the wrong kind.
    TypeMismatch(Expected),
    /// A package names both a version and a path, or `editable` without a path.
    InvalidCombination,
    /// A package object holds a field other than `version`, `path`, `editable`.
    UnknownField,
    /// A mapping holds the same key twice.
    DuplicateKey,
    /// A version-specifier string does not parse; `reason` is the parser's message.
    InvalidVersion { specifier: String, reason: String },
}

pub enum KindView {
    MissingField,
    TypeMismatch(Expected),
    InvalidCombination,
    UnknownField,
    DuplicateKey,
    InvalidVersion(Seq<char>),
}

impl View for ErrorKind {
    type V = KindView;

    open spec fn view(&self) -> KindView {
        match self {
            ErrorKind::MissingField => KindView::MissingField,
            ErrorKind::TypeMismatch(e) => KindView::TypeMismatch(*e),
            ErrorKind::InvalidCombination => KindView::InvalidCombination,
            ErrorKind::UnknownField => KindView::UnknownField,
            ErrorKind::DuplicateKey => KindView::DuplicateKey,
            ErrorKind::InvalidVersion { specifier, reason } => KindView::InvalidVersion(specifier@),
        }
    }
}

#[derive(Debug, PartialEq, Eq)]
/// A parse failure: where in the document, and why.
pub struct ConfigError {
    pub path: Vec<Segment>,
    pub kind: ErrorKind,
}

pub struct ErrorView {
    pub path: Seq<SegmentView>,
    pub kind: KindView,
}

impl View for ConfigError {
    type V = ErrorView;

    open spec fn view(&self) -> ErrorView {
        ErrorView { path: self.path@.map_values(|s: Segment| s@), kind: self.kind@ }
    }
}

pub open spec fn fail<T>(path: Seq<SegmentView>, kind: KindView) -> Result<T, ErrorView> {
    Err(ErrorView { path, kind })
}

/// The same error, seen from one level further up the document.
pub open spec fn under(seg: SegmentView, e: ErrorView) -> ErrorView {
    ErrorView { path: seq![seg] + e.path, kind: e.kind }
}

/// Entry `i` is the first one whose key is `k`.
pub open spec fn first_with_key(entries: Seq<(String, Value)>, k: Seq<char>, i: int) -> bool {
    &&& 0 <= i < entries.len()
    &&& entries[i].0@ == k
    &&& forall|j: int| 0 <= j < i ==> (#[trigger] entries[j]).0@ != k
}

/// The first entry of `entries` whose key is `k`.
pub open spec fn lookup(entries: Seq<(String, Value)>, k: Seq<char>) -> Option<Value> {
    if exists|i: int| first_with_key(entries, k, i) {
        Some(entries[choose|i: int| first_with_key(entries, k, i)].1)
    } else {
        None
    }
}

pub proof fn lemma_lookup_at(entries: Seq<(String, Value)>, k: Seq<char>, i: int)
    requires
        first_with_key(entries, k, i),
    ensures
        lookup(entries, k) == Some(entries[i].1),
{
    let c = choose|c: int| first_with_key(entries, k, c);
    assert(first_with_key(entries, k, c));
    if c < i {
        assert(entries[c].0@ != k);
    } else if c > i {
        assert(entries[i].0@ != k);
    }
}

/// An earlier entry carries the key of entry `j`.
pub open spec fn repeats_earlier(entries: Seq<(String, Value)>, j: int) -> bool {
    exists|i: int| 0 <= i < j && (#[trigger] entries[i]).0@ == entries[j].0@
}

pub open spec fn has_repeat(entries: Seq<(String, Value)>) -> bool {
    exists|j: int| 0 <= j < entries.len() && repeats_earlier(entries, j)
}

/// Entry `j` is the first one whose key an earlier entry already carries.
pub open spec fn is_first_repeat(entries: Seq<(String, Value)>, j: int) -> bool {
    &&& 0 <= j < entries.len()
    &&& repeats_earlier(entries, j)
    &&& forall|m: int| 0 <= m < j ==> !#[trigger] repeats_earlier(entries, m)
}

pub open spec fn first_repeat(entries: Seq<(String, Value)>) -> int {
    choose|j: int| is_first_repeat(entries, j)
}

pub proof fn lemma_first_repeat(entries: Seq<(String, Value)>, j: int)
    requires
        is_first_repeat(entries, j),
    ensures
        first_repeat(entries) == j,
{
    let c = first_repeat(entries);
    assert(is_first_repeat(entries, c));
    if c < j {
        assert(!repeats_earlier(entries, c));
    } else if c > j {
        assert(!repeats_earlier(entries, j));
    }
}

pub fn key_segment(k: &String) -> (r: Segment)
    ensures
        r@ == SegmentView::Key(k@),
{
    Segment::Key(k.clone())
}

pub fn error_at(seg: Segment, kind: ErrorKind) -> (r: ConfigError)
    ensures
        r@.path == seq![seg@],
        r@.kind == kind@,
{
    let r = ConfigError { path: vec![seg], kind };
    assert(r@.path =~= seq![seg@]);
    r
}

/// Puts `seg` in front of the error's path.
pub fn nest(seg: Segment, e: ConfigError) -> (r: ConfigError)
    ensures
        r@.path == seq![seg@] + e@.path,
        r@.kind == e@.kind,
{
    let ConfigError { path, kind } = e;
    let mut path = path;
    path.insert(0, seg);
    let r = ConfigError { path, kind };
    assert(r@.path =~= seq![seg@] + e@.path);
    r
}

/// Finds the first entry with key `k`.
pub fn find(entries: &Vec<(String, Value)>, k: &String) -> (r: Option<usize>)
    ensures
        match r {
            Some(i) => i < entries@.len() && lookup(entries@, k@) == Some(entries@[i as int].1),
            None => lookup(entries@, k@) is None,
        },
{
    let mut i: usize = 0;
    while i < entries.len()
        invariant
            i <= entries@.len(),
            forall|j: int| 0 <= j < i ==> (#[trigger] entries@[j]).0@ != k@,
        decreases entries@.len() - i,
    {
        if entries[i].0 == *k {
            proof {
                lemma_lookup_at(entries@, k@, i as int);
            }
            return Some(i);
        }
        i = i + 1;
    }
    proof {
        assert forall|c: int| !first_with_key(entries@, k@, c) by {
            if 0 <= c < entries@.len() {
                assert(entries@[c].0@ != k@);
            }
        }
    }
    None
}

/// Finds the first entry whose key repeats an earlier one.
pub fn find_repeat(entries: &Vec<(String, Value)>) -> (r: Option<usize>)
    ensures
        r is Some <==> has_repeat(entries@),
        r matches Some(j) ==> j < entries@.len() && j == first_repeat(entries@),
{
    let mut j: usize = 0;
    while j < entries.len()
        invariant
            j <= entries@.len(),
            forall|m: int| 0 <= m < j ==> !#[trigger] repeats_earlier(entries@, m),
        decreases entries@.len() - j,
    {
        let mut i: usize = 0;
        while i < j
            invariant
                i <= j < entries@.len(),
                forall|m: int| 0 <= m < j ==> !#[trigger] repeats_earlier(entries@, m),
                forall|m: int| 0 <= m < i ==> (#[trigger] entries@[m]).0@ != entries@[j as int].0@,
            decreases j - i,
        {
            if entries[i].0 == entries[j].0 {
                proof {
                    assert(entries@[i as int].0@ == entries@[j as int].0@);
                    assert(repeats_earlier(entries@, j as int));
                    lemma_first_repeat(entries@, j as int);
                }
                return Some(j);
            }
            i = i + 1;
        }
        j = j + 1;
    }
    None
}

} // verus!
