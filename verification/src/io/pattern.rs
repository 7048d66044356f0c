//! Regular expressions, compiled and matched by the `regex` crate.

use vstd::prelude::*;

verus! {

/// The message of the error that `regex::Regex::new` gives for `pattern`, or
/// `None` if it compiles. It is a function of the pattern alone (the size
/// limits are the crate's fixed defaults).
pub uninterp spec fn regex_error(pattern: Seq<char>) -> Option<Seq<char>>;

/// Whether the regular expression `pattern` matches somewhere in `text`, as
/// `regex::Regex::is_match` decides it.
pub uninterp spec fn regex_matches(pattern: Seq<char>, text: Seq<char>) -> bool;

/// Compiles `pattern` with `regex::Regex::new` and returns the `Display` text
/// of its error, if it fails; the outcome is named `regex_error`.
#[verifier::external_body]
pub(crate) fn pattern_error(pattern: &str) -> (r: Option<String>)
    ensures
        r is None <==> regex_error(pattern@) is None,
        r matches Some(m) ==> regex_error(pattern@) == Some(m@),
{
    match regex::Regex::new(pattern) {
        Ok(_) => None,
        Err(e) => Some(e.to_string()),
    }
}

/// Whether the compiled `pattern` matches somewhere in `text`
/// (`regex::Regex::is_match`); the answer is named `regex_matches`.
#[verifier::external_body]
pub(crate) fn pattern_matches(pattern: &str, text: &str) -> (r: bool)
    requires
        regex_error(pattern@) is None,
    ensures
        r == regex_matches(pattern@, text@),
{
    match regex::Regex::new(pattern) {
        Ok(re) => re.is_match(text),
        Err(_) => false,
    }
}

} // verus!
