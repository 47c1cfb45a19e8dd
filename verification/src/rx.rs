//! The boundary to the regular-expression engine: compilation, matching and
//! case folding are outside calls, stated here once and trusted, so that the
//! rest of the library can be verified against those statements.
use vstd::prelude::*;

verus! {

#[verifier::external_type_specification]
#[verifier::external_body]
pub struct ExRegex(regex::Regex);

pub uninterp spec fn regex_valid(pat: Seq<char>) -> bool;

pub uninterp spec fn pattern_of(re: regex::Regex) -> Seq<char>;

pub uninterp spec fn regex_match(pat: Seq<char>, text: Seq<char>) -> bool;

pub uninterp spec fn lower_of(s: Seq<char>) -> Seq<char>;

/// Relies on regex::Regex::new: whether a pattern is accepted (valid syntax
/// and within the default size limit) is a deterministic function of the
/// pattern string alone, the compiled value keeps that pattern
/// (`Regex::as_str` returns it back), and a failure carries a descriptive
/// message.
#[verifier::external_body]
pub fn regex_new(pat: &str) -> (r: Result<regex::Regex, String>)
    ensures
        r is Ok <==> regex_valid(pat@),
        r is Ok ==> pattern_of(r->Ok_0) == pat@,
{
    match regex::Regex::new(pat) {
        Ok(re) => Ok(re),
        Err(e) => Err(e.to_string()),
    }
}

/// Relies on regex::Regex::is_match: whether a haystack matches depends on
/// the compiled pattern and the haystack characters alone.
#[verifier::external_body]
pub fn regex_is_match(re: &regex::Regex, text: &str) -> (b: bool)
    ensures
        b == regex_match(pattern_of(*re), text@),
{
    re.is_match(text)
}

/// Relies on str::to_lowercase: the result depends on the characters alone,
/// and an empty string stays empty.
#[verifier::external_body]
pub fn to_lowercase(s: &str) -> (r: String)
    ensures
        r@ == lower_of(s@),
        s@.len() == 0 ==> r@.len() == 0,
{
    s.to_lowercase()
}

} // verus!
