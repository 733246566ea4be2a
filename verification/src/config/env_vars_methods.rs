//! Reading a boolean setting from its text.

use crate::text::{chars_of, eq_chars, lowercase, to_lowercase};
use vstd::prelude::*;

verus! {

/// The boolean that a lower-case word stands for: `true`, `1`, `yes`, `y`
/// are true; `false`, `0`, `no`, `n` are false; any other word is none.
pub open spec fn bool_word(l: Seq<char>) -> Option<bool> {
    if l == seq!['t', 'r', 'u', 'e'] || l == seq!['1'] || l == seq!['y', 'e', 's'] || l == seq!['y'] {
        Some(true)
    } else if l == seq!['f', 'a', 'l', 's', 'e'] || l == seq!['0'] || l == seq!['n', 'o'] || l == seq!['n'] {
        Some(false)
    } else {
        None
    }
}

/// The boolean that an already lower-cased word stands for.
pub fn bool_from_lowercase(lower: &str) -> (res: Option<bool>)
    ensures
        res == bool_word(lower@),
{
    let l = chars_of(lower);
    let w = vec!['t', 'r', 'u', 'e'];
    assert(w@ =~= seq!['t', 'r', 'u', 'e']);
    if eq_chars(l.as_slice(), w.as_slice()) {
        return Some(true);
    }
    let w = vec!['1'];
    assert(w@ =~= seq!['1']);
    if eq_chars(l.as_slice(), w.as_slice()) {
        return Some(true);
    }
    let w = vec!['y', 'e', 's'];
    assert(w@ =~= seq!['y', 'e', 's']);
    if eq_chars(l.as_slice(), w.as_slice()) {
        return Some(true);
    }
    let w = vec!['y'];
    assert(w@ =~= seq!['y']);
    if eq_chars(l.as_slice(), w.as_slice()) {
        return Some(true);
    }
    let w = vec!['f', 'a', 'l', 's', 'e'];
    assert(w@ =~= seq!['f', 'a', 'l', 's', 'e']);
    if eq_chars(l.as_slice(), w.as_slice()) {
        return Some(false);
    }
    let w = vec!['0'];
    assert(w@ =~= seq!['0']);
    if eq_chars(l.as_slice(), w.as_slice()) {
        return Some(false);
    }
    let w = vec!['n', 'o'];
    assert(w@ =~= seq!['n', 'o']);
    if eq_chars(l.as_slice(), w.as_slice()) {
        return Some(false);
    }
    let w = vec!['n'];
    assert(w@ =~= seq!['n']);
    if eq_chars(l.as_slice(), w.as_slice()) {
        return Some(false);
    }
    None
}

/// Reads a boolean from text, ignoring case: true for `true`, `1`, `yes`,
/// `y`; false for `false`, `0`, `no`, `n`; none for any other text.
pub fn parse_bool_str(v: &str) -> (res: Option<bool>)
    ensures
        res == bool_word(lowercase(v@)),
{
    let lower = to_lowercase(v);
    bool_from_lowercase(lower.as_str())
}

} // verus!
