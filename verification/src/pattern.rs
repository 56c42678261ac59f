//! Regular expressions, as the `regex` crate compiles and applies them.

use regex::Regex;
use std::borrow::Cow;
use vstd::prelude::*;

verus! {

/// `regex::Regex`, a compiled regular expression. Nothing is known of one
/// but what the functions below say.
#[verifier::external_type_specification]
#[verifier::external_body]
pub struct ExRegex(Regex);

/// What `Regex::new` makes of a pattern: the compiled expression, or `None`
/// where the pattern is refused.
pub uninterp spec fn regex_compiled(pattern: Seq<char>) -> Option<Regex>;

/// What `Regex::replace` makes of a haystack and a replacement template:
/// the rewritten text where the expression matches, `None` where it does not.
pub uninterp spec fn regex_replaced(
    re: Regex,
    haystack: Seq<char>,
    template: Seq<char>,
) -> Option<Seq<char>>;

/// Calls `Regex::new` and drops the error: `None` stands for a pattern that
/// the crate refuses. The outcome depends on the pattern alone.
#[verifier::external_body]
pub(crate) fn compile(pattern: &str) -> (r: Option<Regex>)
    ensures
        r == regex_compiled(pattern@),
{
    Regex::new(pattern).ok()
}

/// Calls `Regex::replace`, which rewrites the leftmost match by the template
/// and hands back an owned string exactly when there is a match: `Some` holds
/// that string, `None` stands for a haystack without a match. That the
/// borrowed haystack comes back only where nothing matched is how the crate
/// is written; its documentation speaks of the unchanged haystack alone. The
/// outcome depends on the expression, the haystack and the template alone.
#[verifier::external_body]
pub(crate) fn replace_first(re: &Regex, haystack: &str, template: &str) -> (r: Option<String>)
    ensures
        match r {
            Some(s) => regex_replaced(*re, haystack@, template@) == Some(s@),
            None => regex_replaced(*re, haystack@, template@) is None,
        },
{
    match re.replace(haystack, template) {
        Cow::Owned(s) => Some(s),
        Cow::Borrowed(_) => None,
    }
}

} // verus!
