use vstd::prelude::*;

verus! {

#[verifier::external_type_specification]
#[verifier::external_body]
pub struct ExRegexError(regex::Error);

/// Whether `regex::Regex::new` accepts `pattern`.
pub uninterp spec fn pattern_compiles(pattern: Seq<char>) -> bool;

/// What the first capture group of `pattern` holds in the leftmost match
/// that `regex::Regex::captures` finds in `text`; `None` where nothing
/// matches or the group takes no part in the match.
pub uninterp spec fn first_group(pattern: Seq<char>, text: Seq<char>) -> Option<Seq<char>>;

/// The view of an optional string.
pub open spec fn optional_text(s: Option<String>) -> Option<Seq<char>> {
    match s {
        Some(t) => Some(t@),
        None => None,
    }
}

/// Compiles `pattern` with `regex::Regex::new`, searches `text` with
/// `Regex::captures` and hands out the text of capture group 1 from
/// `Captures::get`. Believed without proof: the call fails exactly where the
/// pattern does not compile, and otherwise returns what the regex crate finds,
/// which depends on the pattern and the text alone.
#[verifier::external_body]
pub(crate) fn capture_first_group(pattern: &str, text: &str) -> (r: Result<
    Option<String>,
    regex::Error,
>)
    ensures
        r is Ok == pattern_compiles(pattern@),
        r matches Ok(found) ==> optional_text(found) == first_group(pattern@, text@),
{
    let regex = regex::Regex::new(pattern)?;
    Ok(regex.captures(text).and_then(|groups| groups.get(1)).map(|m| m.as_str().to_owned()))
}

} // verus!
