//! Regular-expression matching, done by the `regex` crate.

use vstd::prelude::*;

verus! {

/// The error with which the `regex` crate refuses a pattern.
#[verifier::external_type_specification]
#[verifier::external_body]
pub struct ExRegexError(regex::Error);

/// What replacing the first match of `pattern` in `text` by `rep` gives, or
/// `None` where `pattern` is refused as a regular expression. `rep` is read
/// with the crate's `$name` syntax for capture groups.
pub uninterp spec fn replaced_first(pattern: Seq<char>, text: Seq<char>, rep: Seq<char>) -> Option<
    Seq<char>,
>;

/// `Regex::new` and then `Regex::replace` of the `regex` crate: compiles
/// `pattern` and replaces its leftmost match in `text` by `rep`. The contract
/// gives the outcome its name, `replaced_first`, and says that the call fails
/// exactly where the name is `None`; it claims nothing about what the text
/// is.
#[verifier::external_body]
pub(crate) fn replace_first(pattern: &str, text: &str, rep: &str) -> (r: Result<
    String,
    regex::Error,
>)
    ensures
        match r {
            Ok(s) => replaced_first(pattern@, text@, rep@) == Some(s@),
            Err(_) => replaced_first(pattern@, text@, rep@) is None,
        },
{
    match regex::Regex::new(pattern) {
        Ok(re) => Ok(re.replace(text, rep).into_owned()),
        Err(e) => Err(e),
    }
}

/// What the capture group named `group` holds at the leftmost match of
/// `pattern` in `text`: `Some(None)` where there is no match or the group took
/// no part in it, and `None` where `pattern` is refused as a regular
/// expression.
pub uninterp spec fn captured(pattern: Seq<char>, text: Seq<char>, group: Seq<char>) -> Option<
    Option<Seq<char>>,
>;

/// `Regex::new`, `Regex::captures` and `Captures::name` of the `regex` crate:
/// compiles `pattern`, looks for its leftmost match in `text` and hands out
/// the text of the group named `group`. The contract gives the outcome its
/// name, `captured`, and says that the call fails exactly where the name is
/// `None`; it claims nothing about what is captured.
#[verifier::external_body]
pub(crate) fn capture(pattern: &str, text: &str, group: &str) -> (r: Result<
    Option<String>,
    regex::Error,
>)
    ensures
        match r {
            Ok(Some(s)) => captured(pattern@, text@, group@) == Some(Some(s@)),
            Ok(None) => captured(pattern@, text@, group@) == Some(None::<Seq<char>>),
            Err(_) => captured(pattern@, text@, group@) is None,
        },
{
    match regex::Regex::new(pattern) {
        Ok(re) => Ok(
            re.captures(text).and_then(|caps| caps.name(group)).map(|m| m.as_str().to_string()),
        ),
        Err(e) => Err(e),
    }
}

} // verus!
