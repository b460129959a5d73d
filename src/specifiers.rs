//! Version-specifier strings, parsed by `pep440_rs`.

use vstd::prelude::*;

verus! {

/// What `pep440_rs` makes of a version-specifier string: `None` where the
/// string does not parse, else the canonical text of the parsed constraint set.
pub uninterp spec fn canonical_specifiers(s: Seq<char>) -> Option<Seq<char>>;

/// Relies on `<pep440_rs::VersionSpecifiers as FromStr>::from_str`: it accepts or
/// refuses a string by its text alone, and the parsed set is rendered back
/// through its `Display` impl, the form an installer is handed. On refusal the
/// result carries the parser's message.
#[verifier::external_body]
pub(crate) fn parse_specifiers(s: &String) -> (r: Result<String, String>)
    ensures
        r is Ok <==> canonical_specifiers(s@) is Some,
        r matches Ok(t) ==> canonical_specifiers(s@) == Some(t@),
{
    match s.parse::<pep440_rs::VersionSpecifiers>() {
        Ok(v) => Ok(v.to_string()),
        Err(e) => Err(e.to_string()),
    }
}

} // verus!
