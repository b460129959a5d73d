//! Reading the plain fields of a table: optional strings, booleans, and
//! lists of strings.

use vstd::prelude::*;
use crate::value::{
    error_at, find, key_segment, lookup, nest, ConfigError, ErrorKind, ErrorView, Expected, KindView, Segment,
    SegmentView, Value, fail,
};

verus! {

/// An optional string field.
pub open spec fn opt_str_spec(es: Seq<(String, Value)>, k: Seq<char>) -> Result<Option<Seq<char>>, ErrorView> {
    match lookup(es, k) {
        None => Ok(None),
        Some(Value::Str(s)) => Ok(Some(s@)),
        Some(_) => fail(seq![SegmentView::Key(k)], KindView::TypeMismatch(Expected::Str)),
    }
}

/// An optional boolean field.
pub open spec fn opt_bool_spec(es: Seq<(String, Value)>, k: Seq<char>) -> Result<Option<bool>, ErrorView> {
    match lookup(es, k) {
        None => Ok(None),
        Some(Value::Bool(b)) => Ok(Some(b)),
        Some(_) => fail(seq![SegmentView::Key(k)], KindView::TypeMismatch(Expected::Bool)),
    }
}

/// Item `i` is the first that is not a string.
pub open spec fn is_first_non_str(items: Seq<Value>, i: int) -> bool {
    &&& 0 <= i < items.len()
    &&& !(items[i] is Str)
    &&& forall|j: int| 0 <= j < i ==> (#[trigger] items[j]) is Str
}

pub open spec fn all_str(items: Seq<Value>) -> bool {
    forall|j: int| 0 <= j < items.len() ==> (#[trigger] items[j]) is Str
}

pub open spec fn str_items(items: Seq<Value>) -> Seq<Seq<char>> {
    items.map_values(|v: Value| v->Str_0@)
}

/// A list of strings, empty where absent.
pub open spec fn str_list_spec(es: Seq<(String, Value)>, k: Seq<char>) -> Result<Seq<Seq<char>>, ErrorView> {
    match lookup(es, k) {
        None => Ok(Seq::empty()),
        Some(Value::Array(items)) => if all_str(items@) {
            Ok(str_items(items@))
        } else {
            fail(
                seq![SegmentView::Key(k), SegmentView::Index((choose|i: int| is_first_non_str(items@, i)) as nat)],
                KindView::TypeMismatch(Expected::Str),
            )
        },
        Some(_) => fail(seq![SegmentView::Key(k)], KindView::TypeMismatch(Expected::Array)),
    }
}

pub proof fn lemma_first_non_str(items: Seq<Value>, i: int)
    requires
        is_first_non_str(items, i),
    ensures
        (choose|c: int| is_first_non_str(items, c)) == i,
{
    let c = choose|c: int| is_first_non_str(items, c);
    assert(is_first_non_str(items, c));
    if c < i {
        assert(items[c] is Str);
    } else if c > i {
        assert(items[i] is Str);
    }
}

pub open spec fn opt_string_view(o: Option<String>) -> Option<Seq<char>> {
    match o {
        Some(s) => Some(s@),
        None => None,
    }
}

pub fn read_str(entries: &Vec<(String, Value)>, k: &String) -> (r: Result<Option<String>, ConfigError>)
    ensures
        match r {
            Ok(o) => opt_str_spec(entries@, k@) == Ok::<_, ErrorView>(opt_string_view(o)),
            Err(e) => opt_str_spec(entries@, k@) == Err::<Option<Seq<char>>, _>(e@),
        },
{
    match find(entries, k) {
        None => Ok(None),
        Some(i) => match &entries[i].1 {
            Value::Str(s) => Ok(Some(s.clone())),
            _ => Err(error_at(key_segment(k), ErrorKind::TypeMismatch(Expected::Str))),
        },
    }
}

pub fn read_bool(entries: &Vec<(String, Value)>, k: &String) -> (r: Result<Option<bool>, ConfigError>)
    ensures
        match r {
            Ok(o) => opt_bool_spec(entries@, k@) == Ok::<_, ErrorView>(o),
            Err(e) => opt_bool_spec(entries@, k@) == Err::<Option<bool>, _>(e@),
        },
{
    match find(entries, k) {
        None => Ok(None),
        Some(i) => match &entries[i].1 {
            Value::Bool(b) => Ok(Some(*b)),
            _ => Err(error_at(key_segment(k), ErrorKind::TypeMismatch(Expected::Bool))),
        },
    }
}

pub fn read_str_list(entries: &Vec<(String, Value)>, k: &String) -> (r: Result<Vec<String>, ConfigError>)
    ensures
        match r {
            Ok(l) => str_list_spec(entries@, k@) == Ok::<_, ErrorView>(l@.map_values(|s: String| s@)),
            Err(e) => str_list_spec(entries@, k@) == Err::<Seq<Seq<char>>, _>(e@),
        },
{
    match find(entries, k) {
        None => {
            let l: Vec<String> = Vec::new();
            assert(l@.map_values(|s: String| s@) =~= Seq::<Seq<char>>::empty());
            Ok(l)
        },
        Some(i) => match &entries[i].1 {
            Value::Array(items) => {
                let mut l: Vec<String> = Vec::new();
                let mut j: usize = 0;
                while j < items.len()
                    invariant
                        j <= items@.len(),
                        lookup(entries@, k@) == Some(Value::Array(*items)),
                        l@.len() == j,
                        forall|m: int| 0 <= m < j ==> (#[trigger] items@[m]) is Str,
                        forall|m: int| 0 <= m < j ==> (#[trigger] l@[m])@ == items@[m]->Str_0@,
                    decreases items@.len() - j,
                {
                    match &items[j] {
                        Value::Str(s) => {
                            l.push(s.clone());
                        },
                        _ => {
                            proof {
                                lemma_first_non_str(items@, j as int);
                                assert(!all_str(items@));
                            }
                            let e = nest(key_segment(k), error_at(Segment::Index(j), ErrorKind::TypeMismatch(Expected::Str)));
                            assert(e@.path =~= seq![SegmentView::Key(k@), SegmentView::Index(j as nat)]);
                            return Err(e);
                        },
                    }
                    j = j + 1;
                }
                assert(l@.map_values(|s: String| s@) =~= str_items(items@));
                Ok(l)
            },
            _ => Err(error_at(key_segment(k), ErrorKind::TypeMismatch(Expected::Array))),
        },
    }
}

} // verus!
