//! Search patterns. A pattern is the text of a regular expression in the
//! syntax of the `regex` crate, which does all the matching. What that crate
//! answers is not proved here: each answer has a name, and the library's
//! contracts are stated over those names.

use vstd::prelude::*;

verus! {

/// `regex::Error`, the error of `regex::Regex::new`. The library hands it on
/// and looks at nothing inside it.
#[verifier::external_type_specification]
#[verifier::external_body]
pub struct ExRegexError(regex::Error);

/// Whether `regex::Regex::new` accepts `pattern`.
pub uninterp spec fn pattern_compiles(pattern: Seq<char>) -> bool;

/// What `regex::Regex::is_match` answers for the compiled `pattern` on `text`:
/// whether the pattern matches anywhere in the text.
pub uninterp spec fn pattern_matches(pattern: Seq<char>, text: Seq<char>) -> bool;

/// What `regex::Regex::captures` finds for the compiled `pattern` in `text`,
/// read at the capture group with the given index: the text that the group
/// captured in the first match, or `None` where there is no match, no such
/// group, or the group took no part in the match.
pub uninterp spec fn first_match_group(pattern: Seq<char>, text: Seq<char>, index: int) -> Option<
    Seq<char>,
>;

/// What `regex::Regex::captures_iter` finds for the compiled `pattern` in
/// `text`, read at the capture group with the given name: one item for each
/// successive match, holding the text that the group captured in it, or
/// `None` where there is no such group or it took no part in that match.
pub uninterp spec fn named_group_of_matches(
    pattern: Seq<char>,
    text: Seq<char>,
    name: Seq<char>,
) -> Seq<Option<Seq<char>>>;

/// Why a pattern could not be used.
#[derive(Clone, Copy, Debug, PartialEq, Eq, Structural)]
pub enum PatternError {
    /// The text is no regular expression that the matcher accepts.
    Invalid,
}

/// Calls `regex::Regex::new` and drops the compiled expression. The call
/// succeeds exactly on the patterns that compile.
#[verifier::external_body]
pub(crate) fn regex_new(pattern: &str) -> (outcome: Result<(), regex::Error>)
    ensures
        outcome is Ok <==> pattern_compiles(pattern@),
{
    match regex::Regex::new(pattern) {
        Ok(_) => Ok(()),
        Err(e) => Err(e),
    }
}

/// Compiles `pattern` and calls `regex::Regex::is_match` on `text`. Fails
/// exactly where the pattern does not compile; otherwise hands back the
/// answer of `is_match`.
#[verifier::external_body]
pub(crate) fn regex_is_match(pattern: &str, text: &str) -> (outcome: Result<bool, regex::Error>)
    ensures
        outcome is Ok <==> pattern_compiles(pattern@),
        outcome matches Ok(found) ==> found == pattern_matches(pattern@, text@),
{
    let regex = regex::Regex::new(pattern)?;
    Ok(regex.is_match(text))
}

/// Compiles `pattern`, calls `regex::Regex::captures` on `text` and reads the
/// group at `index` with `regex::Captures::get`. Fails exactly where the
/// pattern does not compile; otherwise hands back the captured text, if any.
#[verifier::external_body]
pub(crate) fn regex_captures_get(pattern: &str, text: &str, index: usize) -> (outcome: Result<
    Option<String>,
    regex::Error,
>)
    ensures
        outcome is Ok <==> pattern_compiles(pattern@),
        outcome matches Ok(group) ==> group.deep_view() == first_match_group(
            pattern@,
            text@,
            index as int,
        ),
{
    let regex = regex::Regex::new(pattern)?;
    match regex.captures(text) {
        Some(captures) => match captures.get(index) {
            Some(group) => Ok(Some(group.as_str().to_string())),
            None => Ok(None),
        },
        None => Ok(None),
    }
}

/// Compiles `pattern`, calls `regex::Regex::captures_iter` on `text` and reads
/// the group called `name` in every match with `regex::Captures::name`. Fails
/// exactly where the pattern does not compile; otherwise hands back one item
/// for each match, in order.
#[verifier::external_body]
pub(crate) fn regex_captures_iter_name(pattern: &str, text: &str, name: &str) -> (outcome: Result<
    Vec<Option<String>>,
    regex::Error,
>)
    ensures
        outcome is Ok <==> pattern_compiles(pattern@),
        outcome matches Ok(groups) ==> groups.deep_view() == named_group_of_matches(
            pattern@,
            text@,
            name@,
        ),
{
    let regex = regex::Regex::new(pattern)?;
    Ok(
        regex.captures_iter(text).map(
            |captures| captures.name(name).map(|group| group.as_str().to_string()),
        ).collect(),
    )
}

/// Tests whether `pattern` is a regular expression that the matcher accepts.
pub fn is_valid_pattern(pattern: &str) -> (valid: bool)
    ensures
        valid == pattern_compiles(pattern@),
{
    regex_new(pattern).is_ok()
}

/// Tests whether `pattern` matches anywhere in `text`.
pub fn is_match(pattern: &str, text: &str) -> (outcome: Result<bool, PatternError>)
    ensures
        outcome == if pattern_compiles(pattern@) {
            Ok::<bool, PatternError>(pattern_matches(pattern@, text@))
        } else {
            Err::<bool, PatternError>(PatternError::Invalid)
        },
{
    match regex_is_match(pattern, text) {
        Ok(found) => Ok(found),
        Err(_) => Err(PatternError::Invalid),
    }
}

/// Tests whether `pattern`, which compiles, matches anywhere in `text`.
pub(crate) fn has_match(pattern: &str, text: &str) -> (found: bool)
    requires
        pattern_compiles(pattern@),
    ensures
        found == pattern_matches(pattern@, text@),
{
    match regex_is_match(pattern, text) {
        Ok(found) => found,
        Err(_) => false,
    }
}

} // verus!
