//! Regular-expression scanning, through the regex crate.
//!
//! Both operations are named: for one pattern and one text the outcome is a
//! single value, so every caller is verified for whatever the scan returns.

use vstd::prelude::*;

verus! {

/// The replacement outcome for a pattern over a text: the rewritten text and
/// the number of non-overlapping matches; `None` where the pattern is not a
/// valid regular expression.
pub uninterp spec fn regex_replace_of(
    pattern: Seq<char>,
    text: Seq<char>,
    replacement: Seq<char>,
) -> Option<(Seq<char>, usize)>;

/// Whether the pattern matches somewhere in the text; `None` where the
/// pattern is not a valid regular expression.
pub uninterp spec fn regex_match_of(pattern: Seq<char>, text: Seq<char>) -> Option<bool>;

/// Relies on regex::Regex::new, Regex::find_iter and Regex::replace_all:
/// counts the non-overlapping matches of `pattern` in `text` and replaces
/// each with `replacement`, left to right; a function of the three texts
/// alone.
#[verifier::external_body]
pub fn regex_replace(pattern: &str, text: &str, replacement: &str) -> (r: Option<(String, usize)>)
    ensures
        r matches Some(t) ==> regex_replace_of(pattern@, text@, replacement@) == Some((
            t.0@,
            t.1,
        )),
        r is None ==> regex_replace_of(pattern@, text@, replacement@) is None,
{
    match regex::Regex::new(pattern) {
        Ok(re) => {
            let n = re.find_iter(text).count();
            Some((re.replace_all(text, replacement).into_owned(), n))
        },
        Err(_) => None,
    }
}

/// Relies on regex::Regex::new and Regex::is_match: whether the pattern
/// matches somewhere in the text; a function of the two texts alone.
#[verifier::external_body]
pub fn regex_is_match(pattern: &str, text: &str) -> (r: Option<bool>)
    ensures
        r matches Some(b) ==> regex_match_of(pattern@, text@) == Some(b),
        r is None ==> regex_match_of(pattern@, text@) is None,
{
    match regex::Regex::new(pattern) {
        Ok(re) => Some(re.is_match(text)),
        Err(_) => None,
    }
}

} // verus!
