//! Telling the original text from its replacement in a redaction pair.

use crate::text::chars_of;
use vstd::prelude::*;
use vstd::utf8::encode_utf8;

verus! {

/// Four asterisks, the tail of a partial mask.
pub open spec fn four_stars() -> Seq<char> {
    seq!['*', '*', '*', '*']
}

/// Wrapped in square brackets, as a full mask such as `[PERSON]` is.
pub open spec fn is_bracketed(s: Seq<char>) -> bool {
    s.len() > 0 && s[0] == '[' && s.last() == ']'
}

/// A partial mask such as `user@e****`: longer than four bytes, ending in
/// four asterisks, with none of its first four characters an asterisk.
pub open spec fn is_partial_mask(s: Seq<char>) -> bool {
    &&& encode_utf8(s).len() > 4
    &&& s.len() >= 4
    &&& s.subrange(s.len() - 4, s.len() as int) == four_stars()
    &&& forall|i: int| 0 <= i < 4 ==> s[i] != '*'
}

/// Looks like the replacement side of a redaction pair.
pub open spec fn is_mask(s: Seq<char>) -> bool {
    is_bracketed(s) || is_partial_mask(s)
}

/// The pair ordered as (original text, mask).
pub open spec fn ordered_pair(key: Seq<char>, value: Seq<char>) -> (Seq<char>, Seq<char>) {
    if is_mask(key) {
        (value, key)
    } else {
        (key, value)
    }
}

/// Swaps key and value if the key is wrapped in `[]` or is a partial mask
/// ending in `****`; returns (unmasked value, identifier).
pub fn check_or_swap<'a>(key: &'a str, value: &'a str) -> (res: (&'a str, &'a str))
    ensures
        res == (if is_mask(key@) { (value, key) } else { (key, value) }),
        (res.0@, res.1@) == ordered_pair(key@, value@),
{
    let k = chars_of(key);
    let n = k.len();
    let byte_len = key.as_bytes().len();
    assert(byte_len == encode_utf8(key@).len());
    if n > 0 && k[0] == '[' && k[n - 1] == ']' {
        return (value, key);
    }
    if byte_len > 4 && n >= 4 && k[n - 4] == '*' && k[n - 3] == '*' && k[n - 2] == '*' && k[n
        - 1] == '*' && k[0] != '*' && k[1] != '*' && k[2] != '*' && k[3] != '*' {
        assert(k@.subrange(n - 4, n as int) =~= four_stars());
        return (value, key);
    }
    assert(!is_partial_mask(key@)) by {
        if is_partial_mask(key@) {
            assert(byte_len > 4);
            assert(n >= 4);
            assert(k@.subrange(n - 4, n as int)[0] == '*');
            assert(k@.subrange(n - 4, n as int)[1] == '*');
            assert(k@.subrange(n - 4, n as int)[2] == '*');
            assert(k@.subrange(n - 4, n as int)[3] == '*');
            assert(k@[0] != '*' && k@[1] != '*' && k@[2] != '*' && k@[3] != '*');
        }
    }
    (key, value)
}

/// When exactly one of the two texts is a mask, the order in which they
/// come does not matter: the original text comes first and the mask second.
pub proof fn law_check_or_swap_order_free(a: Seq<char>, b: Seq<char>)
    requires
        is_mask(a) != is_mask(b),
    ensures
        ordered_pair(a, b) == ordered_pair(b, a),
        is_mask(ordered_pair(a, b).1),
        !is_mask(ordered_pair(a, b).0),
{
}

} // verus!
