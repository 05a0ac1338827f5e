//! Regular expressions, by the `regex` crate.

use vstd::prelude::*;

verus! {

/// What `regex::Regex::replace_all` returns for the expression compiled from
/// `pattern`, on `text` with the replacement `rep`; `None` where
/// `regex::Regex::new` rejects `pattern`.
pub uninterp spec fn regex_replace_all(
    pattern: Seq<char>,
    text: Seq<char>,
    rep: Seq<char>,
) -> Option<Seq<char>>;

/// The text of the first capture group in the first match that
/// `regex::Regex::captures` finds in `text` for the expression compiled from
/// `pattern`; `None` where `regex::Regex::new` rejects `pattern`, where
/// nothing matches, and where the match does not go through the group.
pub uninterp spec fn regex_first_group(pattern: Seq<char>, text: Seq<char>) -> Option<Seq<char>>;

/// Compiles `pattern` with `regex::Regex::new` and calls
/// `regex::Regex::replace_all` on `text` with the replacement `rep`, in which
/// `$1` stands for the first capture group. The contract only gives the
/// result its name; `None` stands for a pattern that does not compile.
#[verifier::external_body]
fn replace_all_compiled(pattern: &str, text: &str, rep: &str) -> (out: Option<String>)
    ensures
        match out {
            Some(t) => regex_replace_all(pattern@, text@, rep@) == Some(t@),
            None => regex_replace_all(pattern@, text@, rep@) is None,
        },
{
    match regex::Regex::new(pattern) {
        Ok(re) => Some(re.replace_all(text, rep).into_owned()),
        Err(_) => None,
    }
}

/// Compiles `pattern` with `regex::Regex::new`, calls
/// `regex::Regex::captures` on `text` and hands out the text of group 1 of
/// the match. The contract only gives the result its name.
#[verifier::external_body]
fn first_group_compiled(pattern: &str, text: &str) -> (out: Option<String>)
    ensures
        match out {
            Some(t) => regex_first_group(pattern@, text@) == Some(t@),
            None => regex_first_group(pattern@, text@) is None,
        },
{
    match regex::Regex::new(pattern) {
        Ok(re) => match re.captures(text) {
            Some(found) => match found.get(1) {
                Some(group) => Some(group.as_str().to_string()),
                None => None,
            },
            None => None,
        },
        Err(_) => None,
    }
}

/// `text` with every match of `pattern` replaced by `rep`. A pattern that the
/// engine rejects matches nothing: the text stays as it is.
pub open spec fn replaced(pattern: Seq<char>, text: Seq<char>, rep: Seq<char>) -> Seq<char> {
    match regex_replace_all(pattern, text, rep) {
        Some(t) => t,
        None => text,
    }
}

/// Replaces every match of `pattern` in `text` by `rep`.
pub fn replace_all(pattern: &str, text: &str, rep: &str) -> (out: String)
    ensures
        out@ == replaced(pattern@, text@, rep@),
{
    match replace_all_compiled(pattern, text, rep) {
        Some(t) => t,
        None => text.to_owned(),
    }
}

/// The first capture group of the first match of `pattern` in `text`.
pub fn first_group(pattern: &str, text: &str) -> (out: Option<String>)
    ensures
        match out {
            Some(t) => regex_first_group(pattern@, text@) == Some(t@),
            None => regex_first_group(pattern@, text@) is None,
        },
{
    first_group_compiled(pattern, text)
}

} // verus!
