//! Properties that relate several parses, or hold of every document of a shape.

use vstd::prelude::*;
use crate::config::{config_result, config_spec, packages_spec, steps_spec, Config, StepView};
use crate::fields::{opt_str_spec, str_list_spec};
use crate::package::{is_package_field, package_spec, PackageView};
use crate::value::{fail, first_with_key, has_repeat, lookup, ConfigError, ErrorView, KindView, Value};

verus! {

/// The number of items of the explicit `steps` array (none where it is absent).
pub open spec fn explicit_step_count(es: Seq<(String, Value)>) -> nat {
    match lookup(es, "steps"@) {
        Some(Value::Array(items)) => items@.len(),
        _ => 0,
    }
}

/// The legacy top-level `packages` mapping is absent or empty.
pub open spec fn legacy_packages_empty(es: Seq<(String, Value)>) -> bool {
    match lookup(es, "packages"@) {
        None => true,
        Some(Value::Table(ps)) => ps@.len() == 0,
        Some(_) => false,
    }
}

/// The legacy top-level `packages` mapping has at least one entry.
pub open spec fn legacy_packages_nonempty(es: Seq<(String, Value)>) -> bool {
    match lookup(es, "packages"@) {
        Some(Value::Table(ps)) => ps@.len() > 0,
        _ => false,
    }
}

pub proof fn lemma_lookup_absent(es: Seq<(String, Value)>, k: Seq<char>)
    requires
        forall|i: int| 0 <= i < es.len() ==> (#[trigger] es[i]).0@ != k,
    ensures
        lookup(es, k) is None,
{
    assert forall|c: int| !first_with_key(es, k, c) by {
        if 0 <= c < es.len() {
            assert(es[c].0@ != k);
        }
    }
}

proof fn lemma_field_names_differ()
    ensures
        "version"@ != "path"@,
        "version"@ != "editable"@,
        "path"@ != "editable"@,
{
    reveal_strlit("version");
    reveal_strlit("path");
    reveal_strlit("editable");
    assert("version"@.len() == 7 && "path"@.len() == 4 && "editable"@.len() == 8);
}

proof fn lemma_steps_count(es: Seq<(String, Value)>)
    requires
        steps_spec(es) is Ok,
    ensures
        steps_spec(es)->Ok_0.len() == explicit_step_count(es),
{
}

/// Parsing depends on the document alone: two parses of the same document
/// give the same configuration, or the same error.
pub proof fn law_parse_deterministic(
    doc: Value,
    first: Result<Config, ConfigError>,
    second: Result<Config, ConfigError>,
)
    requires
        config_result(first) == config_spec(doc),
        config_result(second) == config_spec(doc),
    ensures
        config_result(first) == config_result(second),
{
}

/// Where the legacy `packages` mapping is non-empty, a valid document yields
/// its explicit steps, in order, followed by exactly one step built from the
/// legacy `index_url`, `extra_index_urls` and `packages`.
pub proof fn law_legacy_step_last(es: Vec<(String, Value)>)
    requires
        config_spec(Value::Table(es)) is Ok,
        legacy_packages_nonempty(es@),
    ensures
        ({
            let c = config_spec(Value::Table(es))->Ok_0;
            &&& c.steps.len() == explicit_step_count(es@) + 1
            &&& c.steps.drop_last() == steps_spec(es@)->Ok_0
            &&& c.steps.last() == StepView {
                index_url: opt_str_spec(es@, "index_url"@)->Ok_0,
                extra_index_urls: str_list_spec(es@, "extra_index_urls"@)->Ok_0,
                packages: packages_spec(es@, "packages"@)->Ok_0,
            }
        }),
{
    lemma_steps_count(es@);
    let st = steps_spec(es@)->Ok_0;
    let p = packages_spec(es@, "packages"@)->Ok_0;
    assert(p.len() > 0);
    let c = config_spec(Value::Table(es))->Ok_0;
    assert(c.steps.drop_last() =~= st);
}

/// Where the legacy `packages` mapping is empty or absent, a valid document
/// yields its explicit steps and nothing more, whatever legacy `index_url` or
/// `extra_index_urls` it gives.
pub proof fn law_no_legacy_step(es: Vec<(String, Value)>)
    requires
        config_spec(Value::Table(es)) is Ok,
        legacy_packages_empty(es@),
    ensures
        config_spec(Value::Table(es))->Ok_0.steps == steps_spec(es@)->Ok_0,
        config_spec(Value::Table(es))->Ok_0.steps.len() == explicit_step_count(es@),
{
    lemma_steps_count(es@);
    let p = packages_spec(es@, "packages"@)->Ok_0;
    if lookup(es@, "packages"@) is Some {
        assert(p =~= Seq::empty());
    }
}

/// A bare string resolves exactly as a table holding that string under
/// `version` and nothing else.
pub proof fn law_shorthand_is_version(s: String, table: Vec<(String, Value)>)
    requires
        table@.len() == 1,
        table@[0].0@ == "version"@,
        table@[0].1 == Value::Str(s),
    ensures
        package_spec(Value::Str(s)) == package_spec(Value::Table(table)),
{
    lemma_field_names_differ();
    let es = table@;
    assert(first_with_key(es, "version"@, 0));
    crate::value::lemma_lookup_at(es, "version"@, 0);
    lemma_lookup_absent(es, "path"@);
    lemma_lookup_absent(es, "editable"@);
    assert(!has_repeat(es));
    assert(is_package_field(es[0].0@));
}

/// A table of `path` and, optionally, `editable` resolves to a path package;
/// `editable` is false where it is not given.
pub proof fn law_path_package(table: Vec<(String, Value)>, x: String, editable: Option<bool>)
    requires
        !has_repeat(table@),
        forall|i: int|
            0 <= i < table@.len() ==> (#[trigger] table@[i]).0@ == "path"@ || table@[i].0@ == "editable"@,
        lookup(table@, "path"@) == Some(Value::Str(x)),
        match editable {
            Some(b) => lookup(table@, "editable"@) == Some(Value::Bool(b)),
            None => lookup(table@, "editable"@) is None,
        },
    ensures
        package_spec(Value::Table(table)) == Ok::<_, ErrorView>(
            PackageView::Path {
                path: x@,
                editable: match editable {
                    Some(b) => b,
                    None => false,
                },
            },
        ),
{
    lemma_field_names_differ();
    lemma_lookup_absent(table@, "version"@);
}

/// A table that gives both `version` and `path` is refused as an invalid
/// combination, whatever the version string.
pub proof fn law_version_with_path(table: Vec<(String, Value)>, v: String, x: String)
    requires
        !has_repeat(table@),
        forall|i: int|
            0 <= i < table@.len() ==> (#[trigger] table@[i]).0@ == "version"@ || table@[i].0@ == "path"@,
        lookup(table@, "version"@) == Some(Value::Str(v)),
        lookup(table@, "path"@) == Some(Value::Str(x)),
    ensures
        package_spec(Value::Table(table)) == fail::<PackageView>(Seq::empty(), KindView::InvalidCombination),
{
    lemma_field_names_differ();
    lemma_lookup_absent(table@, "editable"@);
}

/// A table that gives `editable` without `path` or `version` is refused as
/// an invalid combination.
pub proof fn law_editable_without_path(table: Vec<(String, Value)>, b: bool)
    requires
        !has_repeat(table@),
        forall|i: int| 0 <= i < table@.len() ==> (#[trigger] table@[i]).0@ == "editable"@,
        lookup(table@, "editable"@) == Some(Value::Bool(b)),
    ensures
        package_spec(Value::Table(table)) == fail::<PackageView>(Seq::empty(), KindView::InvalidCombination),
{
    lemma_field_names_differ();
    lemma_lookup_absent(table@, "version"@);
    lemma_lookup_absent(table@, "path"@);
}

/// An empty table is an index package with no version constraint.
pub proof fn law_empty_table(table: Vec<(String, Value)>)
    requires
        table@.len() == 0,
    ensures
        package_spec(Value::Table(table)) == Ok::<_, ErrorView>(PackageView::Index { version: None }),
{
    lemma_lookup_absent(table@, "version"@);
    lemma_lookup_absent(table@, "path"@);
    lemma_lookup_absent(table@, "editable"@);
}

} // verus!
