//! Regular-expression matching, done by the `regex` crate.
use vstd::prelude::*;

use crate::text::{find, is_digit, is_whitespace, opt_string_view};


verus! {

pub open spec fn opt_strings_view(o: Option<Vec<Option<String>>>) -> Option<Seq<Option<Seq<char>>>> {
    match o {
        Some(v) => Some(v@.map_values(|x: Option<String>| opt_string_view(x))),
        None => None,
    }
}

/// Capture group 1 of the leftmost-first match of `pattern` in `haystack`, as
/// `regex::Regex::new(pattern)` and `Regex::captures` find it. `None` when the
/// pattern does not compile, when nothing matches, or when group 1 took no part
/// in the match.
pub uninterp spec fn regex_group1(pattern: Seq<char>, haystack: Seq<char>) -> Option<Seq<char>>;

/// Capture group 1 of every successive non-overlapping match of `pattern` in
/// `haystack`, in order, as `Regex::captures_iter` yields them (`None` for a
/// match in which group 1 took no part). `None` when the pattern does not compile.
pub uninterp spec fn regex_all_group1(pattern: Seq<char>, haystack: Seq<char>) -> Option<
    Seq<Option<Seq<char>>>,
>;

/// The text in front of the percentage in Lada's status lines.
pub open spec fn progress_marker() -> Seq<char> {
    "Processing video:"@
}

/// The number of whitespace chars (`\s`, Unicode `White_Space`) in `s` from
/// index `i` on, up to the first other char.
pub open spec fn whitespace_run(s: Seq<char>, i: int) -> nat
    decreases s.len() - i,
{
    if 0 <= i < s.len() && is_whitespace(s[i]) {
        1 + whitespace_run(s, i + 1)
    } else {
        0
    }
}

/// The number of ASCII digits in `s` from index `i` on, up to the first other
/// char.
pub open spec fn digit_run(s: Seq<char>, i: int) -> nat
    decreases s.len() - i,
{
    if 0 <= i < s.len() && is_digit(s[i]) {
        1 + digit_run(s, i + 1)
    } else {
        0
    }
}

/// What `Processing video:\s+(\d+)%` captures when the first
/// `Processing video:` of `s` is followed by whitespace, ASCII digits and `%`:
/// those digits. `None` when the first marker is not followed so (or there is
/// none); what the pattern captures then is not described here.
pub open spec fn percent_at_first_marker(s: Seq<char>) -> Option<Seq<char>> {
    match find(s, progress_marker()) {
        Some(k) => {
            let j: int = k as int + progress_marker().len() as int;
            let w: int = whitespace_run(s, j) as int;
            let d: int = digit_run(s, j + w) as int;
            if w > 0 && d > 0 && j + w + d < s.len() && s[j + w + d] == '%' {
                Some(s.subrange(j + w, j + w + d))
            } else {
                None
            }
        },
        None => None,
    }
}

/// Calls `regex::Regex::new`, then `Regex::captures`, `Captures::get(1)` and
/// `Match::as_str`. Its contract ties the result to the name `regex_group1` of
/// its two arguments. Of the pattern `Processing video:\s+(\d+)%` it also
/// states, from the documented syntax (`\s` is Unicode `White_Space`, `\d`
/// includes the ASCII digits, `+` is greedy, the leftmost match is reported):
/// when the first `Processing video:` of the haystack is followed by
/// whitespace, ASCII digits and `%`, no match starts earlier, the match starts
/// there, and group 1 is those digits. What any other pattern matches is not
/// stated.
#[verifier::external_body]
pub(crate) fn capture_group1(pattern: &str, haystack: &str) -> (r: Option<String>)
    ensures
        opt_string_view(r) == regex_group1(pattern@, haystack@),
        pattern@ == "Processing video:\\s+(\\d+)%"@ && percent_at_first_marker(haystack@) is Some
            ==> opt_string_view(r) == percent_at_first_marker(haystack@),
{
    match regex::Regex::new(pattern) {
        Ok(re) => match re.captures(haystack) {
            Some(caps) => match caps.get(1) {
                Some(m) => Some(m.as_str().to_string()),
                None => None,
            },
            None => None,
        },
        Err(_) => None,
    }
}

/// Calls `regex::Regex::new`, then `Regex::captures_iter`, and takes group 1
/// (`Captures::get(1)`, `Match::as_str`) of each match. Its contract only ties
/// the result to the name `regex_all_group1` of its two arguments; what the
/// regex engine matches is not stated.
#[verifier::external_body]
pub(crate) fn all_capture_group1(pattern: &str, haystack: &str) -> (r: Option<Vec<Option<String>>>)
    ensures
        opt_strings_view(r) == regex_all_group1(pattern@, haystack@),
{
    match regex::Regex::new(pattern) {
        Ok(re) => Some(
            re.captures_iter(haystack).map(|c| c.get(1).map(|m| m.as_str().to_string())).collect(),
        ),
        Err(_) => None,
    }
}

} // verus!
