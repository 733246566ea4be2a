//! Regular expressions of the `regex` crate, named by their results.

use vstd::prelude::*;

verus! {

/// What searching `text` for the first match of `pattern` tells of one of
/// its capture groups.
pub enum CaptureSpec {
    /// The pattern does not compile; the text of the error
    Invalid(Seq<char>),
    /// The pattern does not match the text
    NoMatch,
    /// The pattern matches but the group took part in no match
    Unset,
    /// The text that the group captured in the first match
    Found(Seq<char>),
}

/// The outcome of a capture search, as the library holds it.
pub enum Capture {
    /// The pattern does not compile; the text of the error
    Invalid(String),
    /// The pattern does not match the text
    NoMatch,
    /// The pattern matches but the group took part in no match
    Unset,
    /// The text that the group captured in the first match
    Found(String),
}

/// What `Regex::new(pattern)`, then `captures(text)`, then `get(group)`
/// give.
pub uninterp spec fn regex_capture(pattern: Seq<char>, text: Seq<char>, group: nat) -> CaptureSpec;

/// What `Regex::new(pattern)` then `replace_all(text, rep)` give: the
/// rewritten text, or the text of the compile error.
pub uninterp spec fn regex_replaced(pattern: Seq<char>, text: Seq<char>, rep: Seq<char>) -> Result<
    Seq<char>,
    Seq<char>,
>;

/// The outcome as a specification value.
pub open spec fn capture_view(c: Capture) -> CaptureSpec {
    match c {
        Capture::Invalid(e) => CaptureSpec::Invalid(e@),
        Capture::NoMatch => CaptureSpec::NoMatch,
        Capture::Unset => CaptureSpec::Unset,
        Capture::Found(s) => CaptureSpec::Found(s@),
    }
}

/// Calls `regex::Regex::new`, `Regex::captures` and `Captures::get`; the
/// contract names the outcome by `regex_capture` (the regular expression
/// language is not stated).
#[verifier::external_body]
pub(crate) fn capture_group(pattern: &str, text: &str, group: usize) -> (res: Capture)
    ensures
        capture_view(res) == regex_capture(pattern@, text@, group as nat),
{
    match regex::Regex::new(pattern) {
        Err(e) => Capture::Invalid(e.to_string()),
        Ok(re) => match re.captures(text) {
            None => Capture::NoMatch,
            Some(caps) => match caps.get(group) {
                None => Capture::Unset,
                Some(m) => Capture::Found(m.as_str().to_string()),
            },
        },
    }
}

/// Calls `regex::Regex::new` and `Regex::replace_all`; the contract names
/// the result by `regex_replaced` (the expansion of `$` groups in `rep` is
/// not stated).
#[verifier::external_body]
pub(crate) fn replace_matches(pattern: &str, text: &str, rep: &str) -> (res: Result<String, String>)
    ensures
        match res {
            Ok(s) => regex_replaced(pattern@, text@, rep@) == Ok::<Seq<char>, Seq<char>>(s@),
            Err(e) => regex_replaced(pattern@, text@, rep@) == Err::<Seq<char>, Seq<char>>(e@),
        },
{
    match regex::Regex::new(pattern) {
        Err(e) => Err(e.to_string()),
        Ok(re) => Ok(re.replace_all(text, rep).to_string()),
    }
}

} // verus!
