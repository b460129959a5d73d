//! Steps and the whole configuration, with the fold of the legacy top-level
//! fields into a trailing step.

use vstd::prelude::*;
use crate::fields::{opt_str_spec, opt_string_view, read_str, read_str_list, str_list_spec};
use crate::package::{package_spec, Package, PackageView};
use crate::value::{
    error_at, find, find_repeat, first_repeat, has_repeat, key_segment, lookup, nest, repeats_earlier, under, ConfigError,
    ErrorKind, ErrorView, Expected, KindView, Segment, SegmentView, Value, fail,
};

verus! {

/// One batch of packages installed against the same indexes.
#[derive(Debug, PartialEq, Eq)]
pub struct Step {
    pub index_url: Option<String>,
    pub extra_index_urls: Vec<String>,
    /// Package names, each at most once, with their requirements, in document order.
    pub packages: Vec<(String, Package)>,
}

pub struct StepView {
    pub index_url: Option<Seq<char>>,
    pub extra_index_urls: Seq<Seq<char>>,
    pub packages: Seq<(Seq<char>, PackageView)>,
}

/// No package name occurs twice.
pub open spec fn distinct_names(p: Seq<(Seq<char>, PackageView)>) -> bool {
    forall|i: int, j: int| 0 <= i < j < p.len() ==> (#[trigger] p[i]).0 != (#[trigger] p[j]).0
}

/// In every step, no package name occurs twice.
pub open spec fn steps_names_distinct(steps: Seq<StepView>) -> bool {
    forall|i: int| 0 <= i < steps.len() ==> (#[trigger] steps[i]).names_distinct()
}

impl StepView {
    pub open spec fn names_distinct(self) -> bool {
        distinct_names(self.packages)
    }
}

impl View for Step {
    type V = StepView;

    open spec fn view(&self) -> StepView {
        StepView {
            index_url: opt_string_view(self.index_url),
            extra_index_urls: self.extra_index_urls@.map_values(|s: String| s@),
            packages: self.packages@.map_values(|e: (String, Package)| (e.0@, e.1@)),
        }
    }
}

/// The resolved environment: a runtime version and the ordered steps.
#[derive(Debug, PartialEq, Eq)]
pub struct Config {
    pub python: String,
    pub steps: Vec<Step>,
}

pub struct ConfigView {
    pub python: Seq<char>,
    pub steps: Seq<StepView>,
}

impl View for Config {
    type V = ConfigView;

    open spec fn view(&self) -> ConfigView {
        ConfigView { python: self.python@, steps: self.steps@.map_values(|s: Step| s@) }
    }
}

/// Entry `i` is the first whose package does not resolve.
pub open spec fn is_first_bad_package(ps: Seq<(String, Value)>, i: int) -> bool {
    &&& 0 <= i < ps.len()
    &&& package_spec(ps[i].1) is Err
    &&& forall|j: int| 0 <= j < i ==> package_spec((#[trigger] ps[j]).1) is Ok
}

pub open spec fn all_packages_ok(ps: Seq<(String, Value)>) -> bool {
    forall|j: int| 0 <= j < ps.len() ==> package_spec((#[trigger] ps[j]).1) is Ok
}

/// A mapping from package names to package entries, empty where absent.
pub open spec fn packages_spec(es: Seq<(String, Value)>, k: Seq<char>) -> Result<
    Seq<(Seq<char>, PackageView)>,
    ErrorView,
> {
    match lookup(es, k) {
        None => Ok(Seq::empty()),
        Some(Value::Table(ps)) => if has_repeat(ps@) {
            fail(
                seq![SegmentView::Key(k), SegmentView::Key(ps@[first_repeat(ps@)].0@)],
                KindView::DuplicateKey,
            )
        } else if all_packages_ok(ps@) {
            Ok(ps@.map_values(|e: (String, Value)| (e.0@, package_spec(e.1)->Ok_0)))
        } else {
            let i = choose|i: int| is_first_bad_package(ps@, i);
            Err(under(SegmentView::Key(k), under(SegmentView::Key(ps@[i].0@), package_spec(ps@[i].1)->Err_0)))
        },
        Some(_) => fail(seq![SegmentView::Key(k)], KindView::TypeMismatch(Expected::Table)),
    }
}

/// A step: its index fields and its packages.
pub open spec fn step_spec(v: Value) -> Result<StepView, ErrorView> {
    match v {
        Value::Table(es) => if has_repeat(es@) {
            fail(seq![SegmentView::Key(es@[first_repeat(es@)].0@)], KindView::DuplicateKey)
        } else {
            match opt_str_spec(es@, "index_url"@) {
                Err(e) => Err(e),
                Ok(u) => match str_list_spec(es@, "extra_index_urls"@) {
                    Err(e) => Err(e),
                    Ok(x) => match packages_spec(es@, "packages"@) {
                        Err(e) => Err(e),
                        Ok(p) => Ok(StepView { index_url: u, extra_index_urls: x, packages: p }),
                    },
                },
            }
        },
        _ => fail(Seq::empty(), KindView::TypeMismatch(Expected::Table)),
    }
}

/// Item `i` is the first step that does not resolve.
pub open spec fn is_first_bad_step(items: Seq<Value>, i: int) -> bool {
    &&& 0 <= i < items.len()
    &&& step_spec(items[i]) is Err
    &&& forall|j: int| 0 <= j < i ==> step_spec(#[trigger] items[j]) is Ok
}

pub open spec fn all_steps_ok(items: Seq<Value>) -> bool {
    forall|j: int| 0 <= j < items.len() ==> step_spec(#[trigger] items[j]) is Ok
}

/// The explicit `steps` array, empty where absent.
pub open spec fn steps_spec(es: Seq<(String, Value)>) -> Result<Seq<StepView>, ErrorView> {
    match lookup(es, "steps"@) {
        None => Ok(Seq::empty()),
        Some(Value::Array(items)) => if all_steps_ok(items@) {
            Ok(items@.map_values(|v: Value| step_spec(v)->Ok_0))
        } else {
            let i = choose|i: int| is_first_bad_step(items@, i);
            Err(under(SegmentView::Key("steps"@), under(SegmentView::Index(i as nat), step_spec(items@[i])->Err_0)))
        },
        Some(_) => fail(seq![SegmentView::Key("steps"@)], KindView::TypeMismatch(Expected::Array)),
    }
}

/// The required `python` field.
pub open spec fn python_spec(es: Seq<(String, Value)>) -> Result<Seq<char>, ErrorView> {
    match lookup(es, "python"@) {
        None => fail(seq![SegmentView::Key("python"@)], KindView::MissingField),
        Some(Value::Str(s)) => Ok(s@),
        Some(_) => fail(seq![SegmentView::Key("python"@)], KindView::TypeMismatch(Expected::Str)),
    }
}

/// The explicit steps, followed by one step made of the legacy top-level
/// fields exactly where the legacy `packages` mapping is non-empty.
pub open spec fn with_legacy(
    steps: Seq<StepView>,
    index_url: Option<Seq<char>>,
    extra_index_urls: Seq<Seq<char>>,
    packages: Seq<(Seq<char>, PackageView)>,
) -> Seq<StepView> {
    if packages.len() > 0 {
        steps.push(StepView { index_url, extra_index_urls, packages })
    } else {
        steps
    }
}

/// The whole document.
pub open spec fn config_spec(doc: Value) -> Result<ConfigView, ErrorView> {
    match doc {
        Value::Table(es) => if has_repeat(es@) {
            fail(seq![SegmentView::Key(es@[first_repeat(es@)].0@)], KindView::DuplicateKey)
        } else {
            match python_spec(es@) {
                Err(e) => Err(e),
                Ok(py) => match steps_spec(es@) {
                    Err(e) => Err(e),
                    Ok(st) => match opt_str_spec(es@, "index_url"@) {
                        Err(e) => Err(e),
                        Ok(u) => match str_list_spec(es@, "extra_index_urls"@) {
                            Err(e) => Err(e),
                            Ok(x) => match packages_spec(es@, "packages"@) {
                                Err(e) => Err(e),
                                Ok(p) => Ok(ConfigView { python: py, steps: with_legacy(st, u, x, p) }),
                            },
                        },
                    },
                },
            }
        },
        _ => fail(Seq::empty(), KindView::TypeMismatch(Expected::Table)),
    }
}

pub proof fn lemma_packages_distinct(es: Seq<(String, Value)>, k: Seq<char>)
    requires
        packages_spec(es, k) is Ok,
    ensures
        distinct_names(packages_spec(es, k)->Ok_0),
{
    if let Some(Value::Table(ps)) = lookup(es, k) {
        let p = packages_spec(es, k)->Ok_0;
        assert forall|i: int, j: int| 0 <= i < j < p.len() implies (#[trigger] p[i]).0 != (#[trigger] p[j]).0 by {
            if ps@[i].0@ == ps@[j].0@ {
                assert(repeats_earlier(ps@, j));
            }
        }
    }
}

pub proof fn lemma_step_distinct(v: Value)
    requires
        step_spec(v) is Ok,
    ensures
        step_spec(v)->Ok_0.names_distinct(),
{
    if let Value::Table(es) = v {
        lemma_packages_distinct(es@, "packages"@);
    }
}

pub proof fn lemma_config_distinct(doc: Value)
    requires
        config_spec(doc) is Ok,
    ensures
        steps_names_distinct(config_spec(doc)->Ok_0.steps),
{
    if let Value::Table(es) = doc {
        let st = steps_spec(es@)->Ok_0;
        if let Some(Value::Array(items)) = lookup(es@, "steps"@) {
            assert forall|i: int| 0 <= i < st.len() implies (#[trigger] st[i]).names_distinct() by {
                lemma_step_distinct(items@[i]);
            }
        }
        lemma_packages_distinct(es@, "packages"@);
    }
}

pub open spec fn step_result(r: Result<Step, ConfigError>) -> Result<StepView, ErrorView> {
    match r {
        Ok(s) => Ok(s@),
        Err(e) => Err(e@),
    }
}

pub open spec fn config_result(r: Result<Config, ConfigError>) -> Result<ConfigView, ErrorView> {
    match r {
        Ok(c) => Ok(c@),
        Err(e) => Err(e@),
    }
}

fn read_packages(es: &Vec<(String, Value)>, k: &String) -> (r: Result<Vec<(String, Package)>, ConfigError>)
    ensures
        match r {
            Ok(l) => packages_spec(es@, k@) == Ok::<_, ErrorView>(
                l@.map_values(|e: (String, Package)| (e.0@, e.1@)),
            ),
            Err(e) => packages_spec(es@, k@) == Err::<Seq<(Seq<char>, PackageView)>, _>(e@),
        },
{
    let i = match find(es, k) {
        None => {
            let l: Vec<(String, Package)> = Vec::new();
            assert(l@.map_values(|e: (String, Package)| (e.0@, e.1@)) =~= Seq::empty());
            return Ok(l);
        },
        Some(i) => i,
    };
    let ps = match &es[i].1 {
        Value::Table(ps) => ps,
        _ => {
            return Err(error_at(key_segment(k), ErrorKind::TypeMismatch(Expected::Table)));
        },
    };
    if let Some(j) = find_repeat(ps) {
        let e = nest(key_segment(k), error_at(key_segment(&ps[j].0), ErrorKind::DuplicateKey));
        assert(e@.path =~= seq![SegmentView::Key(k@), SegmentView::Key(ps@[j as int].0@)]);
        return Err(e);
    }
    let mut l: Vec<(String, Package)> = Vec::new();
    let mut j: usize = 0;
    while j < ps.len()
        invariant
            j <= ps@.len(),
            lookup(es@, k@) == Some(Value::Table(*ps)),
            !has_repeat(ps@),
            l@.len() == j,
            forall|m: int| 0 <= m < j ==> package_spec((#[trigger] ps@[m]).1) is Ok,
            forall|m: int|
                0 <= m < j ==> ((#[trigger] l@[m]).0@, l@[m].1@) == (ps@[m].0@, package_spec(ps@[m].1)->Ok_0),
        decreases ps@.len() - j,
    {
        match Package::deserialize(&ps[j].1) {
            Ok(p) => {
                l.push((ps[j].0.clone(), p));
            },
            Err(e) => {
                proof {
                    let c = choose|c: int| is_first_bad_package(ps@, c);
                    assert(is_first_bad_package(ps@, j as int));
                    assert(is_first_bad_package(ps@, c));
                    if c < j {
                        assert(package_spec(ps@[c].1) is Ok);
                    } else if c > j {
                        assert(package_spec(ps@[j as int].1) is Ok);
                    }
                    assert(!all_packages_ok(ps@));
                }
                let e2 = nest(key_segment(k), nest(key_segment(&ps[j].0), e));
                assert(e2@.path =~= seq![SegmentView::Key(k@)] + (seq![SegmentView::Key(ps@[j as int].0@)] + e@.path));
                return Err(e2);
            },
        }
        j = j + 1;
    }
    assert(l@.map_values(|e: (String, Package)| (e.0@, e.1@)) =~= ps@.map_values(
        |e: (String, Value)| (e.0@, package_spec(e.1)->Ok_0),
    ));
    Ok(l)
}

fn read_steps(es: &Vec<(String, Value)>) -> (r: Result<Vec<Step>, ConfigError>)
    ensures
        match r {
            Ok(l) => steps_spec(es@) == Ok::<_, ErrorView>(l@.map_values(|s: Step| s@)),
            Err(e) => steps_spec(es@) == Err::<Seq<StepView>, _>(e@),
        },
{
    let k = "steps".to_owned();
    let i = match find(es, &k) {
        None => {
            let l: Vec<Step> = Vec::new();
            assert(l@.map_values(|s: Step| s@) =~= Seq::empty());
            return Ok(l);
        },
        Some(i) => i,
    };
    let items = match &es[i].1 {
        Value::Array(items) => items,
        _ => {
            return Err(error_at(key_segment(&k), ErrorKind::TypeMismatch(Expected::Array)));
        },
    };
    let mut l: Vec<Step> = Vec::new();
    let mut j: usize = 0;
    while j < items.len()
        invariant
            j <= items@.len(),
            k@ == "steps"@,
            lookup(es@, k@) == Some(Value::Array(*items)),
            l@.len() == j,
            forall|m: int| 0 <= m < j ==> step_spec(#[trigger] items@[m]) is Ok,
            forall|m: int| 0 <= m < j ==> (#[trigger] l@[m])@ == step_spec(items@[m])->Ok_0,
        decreases items@.len() - j,
    {
        match Step::deserialize(&items[j]) {
            Ok(s) => {
                l.push(s);
            },
            Err(e) => {
                proof {
                    let c = choose|c: int| is_first_bad_step(items@, c);
                    assert(is_first_bad_step(items@, j as int));
                    assert(is_first_bad_step(items@, c));
                    if c < j {
                        assert(step_spec(items@[c]) is Ok);
                    } else if c > j {
                        assert(step_spec(items@[j as int]) is Ok);
                    }
                    assert(!all_steps_ok(items@));
                }
                let e2 = nest(key_segment(&k), nest(Segment::Index(j), e));
                assert(e2@.path =~= seq![SegmentView::Key(k@)] + (seq![SegmentView::Index(j as nat)] + e@.path));
                return Err(e2);
            },
        }
        j = j + 1;
    }
    assert(l@.map_values(|s: Step| s@) =~= items@.map_values(|v: Value| step_spec(v)->Ok_0));
    Ok(l)
}

impl Step {
    /// Reads one step object. Error paths are relative to the step.
    pub fn deserialize(v: &Value) -> (r: Result<Step, ConfigError>)
        ensures
            step_result(r) == step_spec(*v),
            r matches Ok(s) ==> s@.names_distinct(),
    {
        proof {
            if step_spec(*v) is Ok {
                lemma_step_distinct(*v);
            }
        }
        let es = match v {
            Value::Table(es) => es,
            _ => {
                let e = ConfigError { path: Vec::new(), kind: ErrorKind::TypeMismatch(Expected::Table) };
                assert(e@.path =~= Seq::<SegmentView>::empty());
                return Err(e);
            },
        };
        if let Some(j) = find_repeat(es) {
            return Err(error_at(key_segment(&es[j].0), ErrorKind::DuplicateKey));
        }
        let index_url = read_str(es, &"index_url".to_owned())?;
        let extra_index_urls = read_str_list(es, &"extra_index_urls".to_owned())?;
        let packages = read_packages(es, &"packages".to_owned())?;
        Ok(Step { index_url, extra_index_urls, packages })
    }
}

impl Config {
    /// Reads the whole document: `python`, the `steps` array, and the legacy
    /// top-level `index_url`, `extra_index_urls` and `packages`, which become a
    /// last step where `packages` is non-empty and are dropped otherwise.
    pub fn deserialize(doc: &Value) -> (r: Result<Config, ConfigError>)
        ensures
            config_result(r) == config_spec(*doc),
            r matches Ok(c) ==> steps_names_distinct(c@.steps),
    {
        let r = Config::deserialize_document(doc);
        proof {
            if config_spec(*doc) is Ok {
                lemma_config_distinct(*doc);
            }
        }
        r
    }

    fn deserialize_document(doc: &Value) -> (r: Result<Config, ConfigError>)
        ensures
            config_result(r) == config_spec(*doc),
    {
        let es = match doc {
            Value::Table(es) => es,
            _ => {
                let e = ConfigError { path: Vec::new(), kind: ErrorKind::TypeMismatch(Expected::Table) };
                assert(e@.path =~= Seq::<SegmentView>::empty());
                return Err(e);
            },
        };
        if let Some(j) = find_repeat(es) {
            return Err(error_at(key_segment(&es[j].0), ErrorKind::DuplicateKey));
        }
        let python = match read_str(es, &"python".to_owned())? {
            Some(p) => p,
            None => {
                return Err(error_at(Segment::Key("python".to_owned()), ErrorKind::MissingField));
            },
        };
        let mut steps = read_steps(es)?;
        let index_url = read_str(es, &"index_url".to_owned())?;
        let extra_index_urls = read_str_list(es, &"extra_index_urls".to_owned())?;
        let packages = read_packages(es, &"packages".to_owned())?;
        let ghost explicit = steps@;
        if packages.len() > 0 {
            steps.push(Step { index_url, extra_index_urls, packages });
            assert(steps@.map_values(|s: Step| s@) =~= explicit.map_values(|s: Step| s@).push(
                steps@.last()@,
            ));
        }
        Ok(Config { python, steps })
    }
}

} // verus!
