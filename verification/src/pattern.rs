//! The engine's only outside calls: compiling and matching the regular
//! expressions that a string schema's `pattern` field may carry.
use vstd::prelude::*;

verus! {

/// Whether the `regex` crate accepts `p` as a pattern. The answer depends
/// on the pattern alone.
pub uninterp spec fn pattern_ok(p: Seq<char>) -> bool;

/// Whether the regular expression `p` matches anywhere in `text`. The
/// answer depends on the pattern and the text alone.
pub uninterp spec fn pattern_matches(p: Seq<char>, text: Seq<char>) -> bool;

/// Relies on regex::Regex::new: it deterministically accepts or rejects a
/// pattern, and on rejection its error describes why.
#[verifier::external_body]
pub(crate) fn compile_pattern(pattern: &String) -> (r: Result<(), String>)
    ensures
        r is Ok <==> pattern_ok(pattern@),
{
    match regex::Regex::new(pattern.as_str()) {
        Ok(_) => Ok(()),
        Err(e) => Err(format!("{}", e)),
    }
}

/// Relies on regex::Regex::new and regex::Regex::is_match: whether a
/// compiled pattern matches anywhere in a text is a function of the
/// pattern and the text.
#[verifier::external_body]
pub(crate) fn pattern_is_match(pattern: &String, text: &String) -> (r: bool)
    ensures
        pattern_ok(pattern@) ==> r == pattern_matches(pattern@, text@),
        !pattern_ok(pattern@) ==> !r,
{
    match regex::Regex::new(pattern.as_str()) {
        Ok(re) => re.is_match(text.as_str()),
        Err(_) => false,
    }
}

} // verus!
