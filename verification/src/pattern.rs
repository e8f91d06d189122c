//! Regular expressions. The `regex` crate compiles and matches them; this
//! module gives its answers a name that contracts can speak of.

use vstd::prelude::*;

verus! {

#[verifier::external_type_specification]
#[verifier::external_body]
pub struct ExRegexError(regex::Error);

/// Whether `subject` holds a match of the regular expression `pattern`, as
/// the `regex` crate decides it; `None` where the crate does not accept
/// `pattern`.
pub uninterp spec fn pattern_match(pattern: Seq<char>, subject: Seq<char>) -> Option<bool>;

/// The text of the leftmost match of the regular expression `pattern` in
/// `subject`, as the `regex` crate finds it. The outer `None` stands for a
/// pattern that the crate does not accept, the inner one for no match.
pub uninterp spec fn first_match(pattern: Seq<char>, subject: Seq<char>) -> Option<
    Option<Seq<char>>,
>;

/// `regex::Regex::new` on `pattern`, then `Regex::is_match` on `subject`.
/// Not proved: that the answer is what `pattern_match` names, which says no
/// more than that equal texts get equal answers. An error is the one that
/// `Regex::new` gave.
#[verifier::external_body]
pub(crate) fn is_match(pattern: &str, subject: &str) -> (r: Result<bool, regex::Error>)
    ensures
        match r {
            Ok(b) => pattern_match(pattern@, subject@) == Some(b),
            Err(_) => pattern_match(pattern@, subject@) is None,
        },
{
    match regex::Regex::new(pattern) {
        Ok(re) => Ok(re.is_match(subject)),
        Err(e) => Err(e),
    }
}

/// `regex::Regex::new` on `pattern`, then `Regex::find` on `subject`, and
/// the text of the match that was found. Not proved: that the answer is
/// what `first_match` names. Nothing is claimed of where the match lies.
#[verifier::external_body]
pub(crate) fn find(pattern: &str, subject: &str) -> (r: Result<Option<String>, regex::Error>)
    ensures
        match r {
            Ok(Some(m)) => first_match(pattern@, subject@) == Some(Some(m@)),
            Ok(None) => first_match(pattern@, subject@) == Some(None::<Seq<char>>),
            Err(_) => first_match(pattern@, subject@) is None,
        },
{
    match regex::Regex::new(pattern) {
        Ok(re) => match re.find(subject) {
            Some(m) => Ok(Some(m.as_str().to_string())),
            None => Ok(None),
        },
        Err(e) => Err(e),
    }
}

} // verus!
