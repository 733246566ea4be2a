//! Masking secrets for display.

use crate::text::chars_of;
use vstd::prelude::*;
use vstd::string::*;
use vstd::utf8::{
    decode_utf8, decode_utf8_encode_utf8, encode_utf8, encode_utf8_decode_utf8,
    encode_utf8_valid_utf8, is_char_boundary, valid_utf8_split,
};

verus! {

/// Four asterisks.
pub open spec fn stars() -> Seq<char> {
    seq!['*', '*', '*', '*']
}

/// The masked form of a secret: its first four bytes (when it has more than
/// four) or the whole of it, followed by `****`.
pub open spec fn masked(v: Seq<char>) -> Seq<char> {
    if encode_utf8(v).len() > 4 {
        decode_utf8(encode_utf8(v).subrange(0, 4)) + stars()
    } else {
        v + stars()
    }
}

/// Byte four of the secret, when it has more than four bytes, starts a
/// character, so that the first four bytes can be cut off.
pub open spec fn maskable(v: Seq<char>) -> bool {
    encode_utf8(v).len() > 4 ==> is_char_boundary(encode_utf8(v), 4)
}

/// Masks a secret: keeps at most its first four bytes and appends `****`.
pub fn mask(value: String) -> (res: String)
    requires
        maskable(value@),
    ensures
        res@ == masked(value@),
{
    let s = value.as_str();
    let n = s.as_bytes().len();
    proof {
        reveal_strlit("****");
    }
    if n > 4 {
        let (head, _tail) = s.split_at(4);
        proof {
            encode_utf8_decode_utf8(head@);
        }
        let mut r = String::from_str(head);
        r.append("****");
        r
    } else {
        let mut r = value.clone();
        r.append("****");
        r
    }
}

/// The prefix that marks an environment variable as a secret.
pub open spec fn aws_prefix() -> Seq<char> {
    seq!['A', 'W', 'S', '_']
}

/// The value shown for an environment variable: masked for `AWS_` variables.
pub open spec fn shown_env_value(key: Seq<char>, value: Seq<char>) -> Seq<char> {
    if aws_prefix().is_prefix_of(key) {
        masked(value)
    } else {
        value
    }
}

/// The line `key: value` that lists an environment variable, with the
/// value of an `AWS_` variable masked.
pub fn env_line(key: &str, value: String) -> (res: String)
    requires
        aws_prefix().is_prefix_of(key@) ==> maskable(value@),
    ensures
        res@ == key@ + seq![':', ' '] + shown_env_value(key@, value@),
{
    let k = chars_of(key);
    let secret = k.len() >= 4 && k[0] == 'A' && k[1] == 'W' && k[2] == 'S' && k[3] == '_';
    assert(secret == aws_prefix().is_prefix_of(key@)) by {
        if aws_prefix().is_prefix_of(key@) {
            assert(key@[0] == aws_prefix()[0]);
            assert(key@[1] == aws_prefix()[1]);
            assert(key@[2] == aws_prefix()[2]);
            assert(key@[3] == aws_prefix()[3]);
        }
        if secret {
            assert(key@.take(4) =~= aws_prefix());
        }
    }
    let shown = if secret {
        mask(value)
    } else {
        value
    };
    proof {
        reveal_strlit(": ");
    }
    let mut line = String::from_str(key);
    line.append(": ");
    line.append(shown.as_str());
    line
}

/// The encoding of two texts one after the other is the one encoding after
/// the other.
pub proof fn lemma_encode_concat(a: Seq<char>, b: Seq<char>)
    ensures
        encode_utf8(a + b) == encode_utf8(a) + encode_utf8(b),
    decreases a.len(),
{
    if a.len() == 0 {
        assert(a + b =~= b);
        assert(encode_utf8(a) + encode_utf8(b) =~= encode_utf8(b));
    } else {
        assert((a + b).drop_first() =~= a.drop_first() + b);
        lemma_encode_concat(a.drop_first(), b);
        assert((a + b)[0] == a[0]);
        assert(encode_utf8(a + b) =~= encode_utf8(a) + encode_utf8(b));
    }
}

/// Masking reveals no more of a secret than its first four bytes: the
/// masked text is encoded as those bytes (or the whole secret, when it has
/// no more than four) followed by the four asterisks.
pub proof fn law_mask_reveals_at_most_four_bytes(v: Seq<char>)
    requires
        maskable(v),
    ensures
        encode_utf8(masked(v)) == (if encode_utf8(v).len() > 4 {
            encode_utf8(v).subrange(0, 4)
        } else {
            encode_utf8(v)
        }) + encode_utf8(stars()),
{
    let bytes = encode_utf8(v);
    if bytes.len() > 4 {
        encode_utf8_valid_utf8(v);
        valid_utf8_split(bytes, 4);
        decode_utf8_encode_utf8(bytes.subrange(0, 4));
        lemma_encode_concat(decode_utf8(bytes.subrange(0, 4)), stars());
    } else {
        lemma_encode_concat(v, stars());
    }
}

} // verus!
