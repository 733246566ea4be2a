//! Shortening a text by abbreviating its repeated words.

use crate::text::{
    append_chars, chars_of, eq_chars, slice_chars, lowercase, non_alnum, split_whitespace_chars, split_ws,
    string_of, strip, to_lowercase, trim_non_alnum, words_view,
};
use vstd::hash_map::StringHashMap;
use vstd::prelude::*;

verus! {

/// Each word trimmed of non-alphanumeric characters at both ends, the empty
/// ones dropped, the rest in lower case.
pub open spec fn normalized(ws: Seq<Seq<char>>) -> Seq<Seq<char>>
    decreases ws.len(),
{
    if ws.len() == 0 {
        seq![]
    } else {
        let t = strip(ws.last(), non_alnum());
        if t.len() == 0 {
            normalized(ws.drop_last())
        } else {
            normalized(ws.drop_last()).push(lowercase(t))
        }
    }
}

/// The words of the text that brevify works on.
pub open spec fn brevify_words(text: Seq<char>) -> Seq<Seq<char>> {
    normalized(split_ws(text))
}

/// How often `w` occurs in `ws`.
pub open spec fn count(ws: Seq<Seq<char>>, w: Seq<char>) -> nat
    decreases ws.len(),
{
    if ws.len() == 0 {
        0
    } else {
        count(ws.drop_last(), w) + if ws.last() == w {
            1nat
        } else {
            0nat
        }
    }
}

/// The first character of a word (`x` for an empty one).
pub open spec fn first_char(w: Seq<char>) -> char {
    if w.len() > 0 {
        w[0]
    } else {
        'x'
    }
}

/// An ASCII decimal digit.
pub open spec fn is_ascii_digit(c: char) -> bool {
    '0' <= c && c <= '9'
}

/// A word is abbreviated when it occurs more than once and does not start
/// with a digit.
pub open spec fn eligible(ws: Seq<Seq<char>>, w: Seq<char>) -> bool {
    !is_ascii_digit(first_char(w)) && count(ws, w) > 1
}

/// The word at `k` gets a new abbreviation there: it is abbreviated and
/// occurs there for the first time.
pub open spec fn fresh(ws: Seq<Seq<char>>, k: int) -> bool {
    !ws.take(k).contains(ws[k]) && eligible(ws, ws[k])
}

/// How many abbreviations with first character `c` are made before `j`.
pub open spec fn rank(ws: Seq<Seq<char>>, j: int, c: char) -> nat
    decreases j,
{
    if j <= 0 {
        0
    } else {
        rank(ws, j - 1, c) + if fresh(ws, j - 1) && first_char(ws[j - 1]) == c {
            1nat
        } else {
            0nat
        }
    }
}

/// The decimal digits.
pub open spec fn digits() -> Seq<char> {
    seq!['0', '1', '2', '3', '4', '5', '6', '7', '8', '9']
}

/// The decimal notation of `n`.
pub open spec fn decimal(n: nat) -> Seq<char>
    decreases n,
{
    if n < 10 {
        seq![digits()[n as int]]
    } else {
        decimal(n / 10).push(digits()[(n % 10) as int])
    }
}

/// The abbreviation made at `j`: the word's first character and its
/// running number among the abbreviations with that character.
pub open spec fn abbr_at(ws: Seq<Seq<char>>, j: int) -> Seq<char> {
    seq![first_char(ws[j])] + decimal(rank(ws, j, first_char(ws[j])) + 1)
}

/// The index of the first occurrence of `w`.
pub open spec fn first_index(ws: Seq<Seq<char>>, w: Seq<char>) -> int
    decreases ws.len(),
{
    if ws.len() == 0 {
        0
    } else if ws.drop_last().contains(w) {
        first_index(ws.drop_last(), w)
    } else {
        ws.len() - 1
    }
}

/// The word at `i` in the short text: its abbreviation, or itself.
pub open spec fn token(ws: Seq<Seq<char>>, i: int) -> Seq<char> {
    if eligible(ws, ws[i]) {
        abbr_at(ws, first_index(ws, ws[i]))
    } else {
        ws[i]
    }
}

/// The words of the short text.
pub open spec fn tokens(ws: Seq<Seq<char>>) -> Seq<Seq<char>> {
    Seq::new(ws.len(), |i: int| token(ws, i))
}

/// The abbreviations made before `j`, each with its word, in order.
pub open spec fn dict_upto(ws: Seq<Seq<char>>, j: int) -> Seq<(Seq<char>, Seq<char>)>
    decreases j,
{
    if j <= 0 {
        seq![]
    } else if fresh(ws, j - 1) {
        dict_upto(ws, j - 1).push((abbr_at(ws, j - 1), ws[j - 1]))
    } else {
        dict_upto(ws, j - 1)
    }
}

/// The words joined with single spaces.
pub open spec fn joined(ts: Seq<Seq<char>>) -> Seq<char>
    decreases ts.len(),
{
    if ts.len() == 0 {
        seq![]
    } else if ts.len() == 1 {
        ts[0]
    } else {
        joined(ts.drop_last()) + seq![' '] + ts.last()
    }
}

/// The pairs as texts.
pub open spec fn pair_texts(v: Seq<(String, String)>) -> Seq<(Seq<char>, Seq<char>)> {
    v.map_values(|p: (String, String)| (p.0@, p.1@))
}

/// The pairs of character vectors as texts.
pub open spec fn pair_chars(v: Seq<(Vec<char>, Vec<char>)>) -> Seq<(Seq<char>, Seq<char>)> {
    v.map_values(|p: (Vec<char>, Vec<char>)| (p.0@, p.1@))
}

/// The first occurrence of `w` in the prefix `ws.take(j)` that holds it:
/// a `k < j` where `w` occurs and does not occur before.
proof fn lemma_first_in_prefix(ws: Seq<Seq<char>>, j: int, w: Seq<char>) -> (k: int)
    requires
        0 <= j <= ws.len(),
        ws.take(j).contains(w),
    ensures
        0 <= k < j,
        ws[k] == w,
        !ws.take(k).contains(w),
    decreases j,
{
    if ws.take(j - 1).contains(w) {
        assert(ws.take(j - 1) =~= ws.take(j).take(j - 1));
        lemma_first_in_prefix(ws, j - 1, w)
    } else {
        let t = choose|t: int| 0 <= t < j && ws.take(j)[t] == w;
        if t < j - 1 {
            assert(ws.take(j - 1)[t] == w);
        }
        j - 1
    }
}

/// `first_index` finds the first occurrence.
proof fn lemma_first_index(ws: Seq<Seq<char>>, w: Seq<char>, k: int)
    requires
        0 <= k < ws.len(),
        ws[k] == w,
        !ws.take(k).contains(w),
    ensures
        first_index(ws, w) == k,
    decreases ws.len(),
{
    let d = ws.drop_last();
    if k == ws.len() - 1 {
        assert(d =~= ws.take(k));
    } else {
        assert(d[k] == w);
        assert(d.take(k) =~= ws.take(k));
        lemma_first_index(d, w, k);
    }
}

/// The running number equals how many abbreviations with that first
/// character were made.
proof fn lemma_rank(ws: Seq<Seq<char>>, j: int, c: char)
    requires
        0 <= j <= ws.len(),
    ensures
        rank(ws, j, c) == count_first(dict_upto(ws, j), c),
    decreases j,
{
    if j > 0 {
        lemma_rank(ws, j - 1, c);
        let d = dict_upto(ws, j - 1);
        if fresh(ws, j - 1) {
            assert(dict_upto(ws, j).drop_last() =~= d);
        }
    }
}

/// How many pairs have a word with first character `c`.
pub open spec fn count_first(d: Seq<(Seq<char>, Seq<char>)>, c: char) -> nat
    decreases d.len(),
{
    if d.len() == 0 {
        0
    } else {
        count_first(d.drop_last(), c) + if first_char(d.last().1) == c {
            1nat
        } else {
            0nat
        }
    }
}

/// A digit as a character.
fn digit_char(d: usize) -> (res: char)
    requires
        d < 10,
    ensures
        res == digits()[d as int],
{
    let ds = vec!['0', '1', '2', '3', '4', '5', '6', '7', '8', '9'];
    assert(ds@ =~= digits());
    ds[d]
}

/// The decimal notation of `n`.
fn decimal_chars(n: usize) -> (res: Vec<char>)
    ensures
        res@ == decimal(n as nat),
    decreases n,
{
    if n < 10 {
        let mut v: Vec<char> = Vec::new();
        v.push(digit_char(n));
        assert(v@ =~= decimal(n as nat));
        v
    } else {
        let mut v = decimal_chars(n / 10);
        v.push(digit_char(n % 10));
        v
    }
}

/// The number of pairs whose word starts with `c`.
fn count_first_chars(d: &Vec<(Vec<char>, Vec<char>)>, c: char) -> (res: usize)
    ensures
        res == count_first(pair_chars(d@), c),
        res <= d@.len(),
{
    let mut k: usize = 0;
    let mut i: usize = 0;
    while i < d.len()
        invariant
            i <= d.len(),
            k <= i,
            k == count_first(pair_chars(d@.take(i as int)), c),
        decreases d.len() - i,
    {
        assert(pair_chars(d@.take(i + 1)).drop_last() =~= pair_chars(d@.take(i as int)));
        let w = &d[i].1;
        if w.len() > 0 && w[0] == c || w.len() == 0 && c == 'x' {
            k += 1;
        }
        i += 1;
    }
    assert(d@.take(d.len() as int) =~= d@);
    k
}

/// The words that brevify works on.
fn brevify_words_of(text: &str) -> (res: Vec<Vec<char>>)
    ensures
        words_view(res@) == brevify_words(text@),
{
    let chars = chars_of(text);
    let raw = split_whitespace_chars(chars.as_slice());
    let ghost rv = words_view(raw@);
    let mut out: Vec<Vec<char>> = Vec::new();
    let mut i: usize = 0;
    while i < raw.len()
        invariant
            i <= raw.len(),
            rv == words_view(raw@),
            words_view(out@) == normalized(rv.take(i as int)),
        decreases raw.len() - i,
    {
        assert(rv.take(i + 1).drop_last() =~= rv.take(i as int));
        assert(rv.take(i + 1).last() == raw@[i as int]@);
        let t = trim_non_alnum(raw[i].as_slice());
        if t.len() > 0 {
            let lower = to_lowercase(string_of(t.as_slice()).as_str());
            let ghost before = words_view(out@);
            out.push(chars_of(lower.as_str()));
            assert(words_view(out@) =~= before.push(lowercase(t@)));
        }
        i += 1;
    }
    assert(rv.take(raw.len() as int) =~= rv);
    out
}

/// The words joined with single spaces.
fn join_words(ts: &Vec<Vec<char>>) -> (res: Vec<char>)
    ensures
        res@ == joined(words_view(ts@)),
{
    let ghost tv = words_view(ts@);
    let mut out: Vec<char> = Vec::new();
    let mut i: usize = 0;
    while i < ts.len()
        invariant
            i <= ts.len(),
            tv == words_view(ts@),
            out@ == joined(tv.take(i as int)),
        decreases ts.len() - i,
    {
        let ghost next = tv.take(i + 1);
        assert(next.drop_last() =~= tv.take(i as int));
        if i > 0 {
            out.push(' ');
        } else {
            assert(next =~= seq![tv[0]]);
        }
        append_chars(&mut out, ts[i].as_slice());
        i += 1;
    }
    assert(tv.take(ts.len() as int) =~= tv);
    out
}

/// Abbreviates the repeated words among `words` (already normalized):
/// returns the abbreviations with their words, in the order they are made,
/// and the words joined with single spaces, each repeated eligible word
/// replaced by its abbreviation.
pub fn abbreviate_words(words: &Vec<Vec<char>>) -> (res: (Vec<(String, String)>, String))
    ensures
        pair_texts(res.0@) == dict_upto(words_view(words@), words@.len() as int),
        res.1@ == joined(tokens(words_view(words@))),
{
    let ghost ws = words_view(words@);
    let n = words.len();
    let mut counts: StringHashMap<usize> = StringHashMap::new();
    let mut i: usize = 0;
    while i < n
        invariant
            i <= n,
            n == words.len(),
            ws == words_view(words@),
            forall|w: Seq<char>| #[trigger]
                counts@.contains_key(w) <==> ws.take(i as int).contains(w),
            forall|w: Seq<char>| #[trigger]
                counts@.contains_key(w) ==> counts@[w] == count(ws.take(i as int), w),
        decreases n - i,
    {
        broadcast use vstd::seq_lib::lemma_seq_contains_after_push;

        let ghost next = ws.take(i + 1);
        assert(next =~= ws.take(i as int).push(ws[i as int]));
        assert(next.drop_last() =~= ws.take(i as int));
        let key = string_of(words[i].as_slice());
        let c = match counts.get(key.as_str()) {
            Some(v) => *v,
            None => 0,
        };
        proof {
            if !counts@.contains_key(ws[i as int]) {
                assert(count(ws.take(i as int), ws[i as int]) == 0) by {
                    lemma_count_absent(ws.take(i as int), ws[i as int]);
                }
            }
            lemma_count_le(ws.take(i as int), ws[i as int]);
        }
        counts.insert(key, c + 1);
        i += 1;
    }
    assert(ws.take(n as int) =~= ws);
    let mut word_to_abbr: StringHashMap<Vec<char>> = StringHashMap::new();
    let mut dict: Vec<(Vec<char>, Vec<char>)> = Vec::new();
    let mut result: Vec<Vec<char>> = Vec::new();
    let mut i: usize = 0;
    while i < n
        invariant
            i <= n,
            n == words.len(),
            ws == words_view(words@),
            forall|w: Seq<char>| #[trigger] counts@.contains_key(w) <==> ws.contains(w),
            forall|w: Seq<char>| #[trigger] counts@.contains_key(w) ==> counts@[w] == count(ws, w),
            forall|w: Seq<char>| #[trigger]
                word_to_abbr@.contains_key(w) <==> (ws.take(i as int).contains(w) && eligible(
                    ws,
                    w,
                )),
            forall|w: Seq<char>| #[trigger]
                word_to_abbr@.contains_key(w) ==> word_to_abbr@[w]@ == abbr_at(
                    ws,
                    first_index(ws, w),
                ),
            pair_chars(dict@) == dict_upto(ws, i as int),
            dict@.len() <= i,
            words_view(result@) == tokens(ws).take(i as int),
        decreases n - i,
    {
        broadcast use vstd::seq_lib::lemma_seq_contains_after_push;

        let ghost w = ws[i as int];
        let ghost next = ws.take(i + 1);
        assert(next =~= ws.take(i as int).push(w));
        assert(ws.contains(w));
        let word = &words[i];
        let first_char = if word.len() > 0 {
            word[0]
        } else {
            'x'
        };
        let key = string_of(word.as_slice());
        assert(key@ == w);
        let cnt = match counts.get(key.as_str()) {
            Some(v) => *v,
            None => 0,
        };
        let ghost before_tokens = words_view(result@);
        if ('0' <= first_char && first_char <= '9') || cnt <= 1 {
            assert(!eligible(ws, w));
            assert(!fresh(ws, i as int));
            let copy = slice_chars(word.as_slice(), 0, word.len());
            assert(copy@ =~= w);
            assert(token(ws, i as int) == w);
            result.push(copy);
            assert(words_view(result@) =~= before_tokens.push(w));
            assert(words_view(result@) =~= tokens(ws).take(i + 1));
            i += 1;
            continue;
        }
        assert(eligible(ws, w));
        match word_to_abbr.get(key.as_str()) {
            Some(abbr) => {
                assert(ws.take(i as int).contains(w));
                assert(!fresh(ws, i as int));
                let a = slice_chars(abbr.as_slice(), 0, abbr.len());
                assert(a@ =~= abbr@);
                assert(word_to_abbr@.contains_key(w));
                assert(a@ == abbr_at(ws, first_index(ws, w)));
                assert(token(ws, i as int) == a@);
                result.push(a);
                assert(words_view(result@) =~= before_tokens.push(a@));
                assert(words_view(result@) =~= tokens(ws).take(i + 1));
            },
            None => {
                assert(!ws.take(i as int).contains(w));
                proof {
                    lemma_first_index(ws, w, i as int);
                    lemma_rank(ws, i as int, first_char);
                }
                let id = count_first_chars(&dict, first_char) + 1;
                let mut abbr: Vec<char> = Vec::new();
                abbr.push(first_char);
                let num = decimal_chars(id);
                append_chars(&mut abbr, num.as_slice());
                assert(abbr@ =~= abbr_at(ws, i as int));
                let ghost before_dict = pair_chars(dict@);
                let a2 = slice_chars(abbr.as_slice(), 0, abbr.len());
                let w2 = slice_chars(word.as_slice(), 0, word.len());
                assert(a2@ =~= abbr@);
                assert(w2@ =~= w);
                dict.push((a2, w2));
                assert(pair_chars(dict@) =~= before_dict.push((abbr_at(ws, i as int), w)));
                word_to_abbr.insert(key, slice_chars(abbr.as_slice(), 0, abbr.len()));
                assert(first_index(ws, w) == i);
                assert(token(ws, i as int) == abbr@);
                let ghost av = abbr@;
                result.push(abbr);
                assert(words_view(result@) =~= before_tokens.push(av));
                assert(words_view(result@) =~= tokens(ws).take(i + 1));
            },
        }
        i += 1;
    }
    assert(tokens(ws).take(n as int) =~= tokens(ws));
    let text_out = join_words(&result);
    let mut pairs: Vec<(String, String)> = Vec::new();
    let mut k: usize = 0;
    while k < dict.len()
        invariant
            k <= dict.len(),
            pair_texts(pairs@) == pair_chars(dict@).take(k as int),
        decreases dict.len() - k,
    {
        let ghost before = pair_texts(pairs@);
        let a = string_of(dict[k].0.as_slice());
        let b = string_of(dict[k].1.as_slice());
        assert(pair_chars(dict@)[k as int] == (a@, b@));
        pairs.push((a, b));
        assert(pair_texts(pairs@) =~= before.push((a@, b@)));
        assert(pair_texts(pairs@) =~= pair_chars(dict@).take(k + 1));
        k += 1;
    }
    assert(pair_chars(dict@).take(dict.len() as int) =~= pair_chars(dict@));
    (pairs, string_of(text_out.as_slice()))
}

/// Compresses repeated words in a text using a prefix-based abbreviation
/// strategy.
///
/// Words that appear more than once are replaced with a short form (e.g.
/// "question" -> "q1"): the first letter and a running index per letter.
/// Words starting with digits are not abbreviated. Returns the
/// abbreviations with their words, and the compressed text.
pub fn brevify(text: &str) -> (res: (Vec<(String, String)>, String))
    ensures
        pair_texts(res.0@) == dict_upto(brevify_words(text@), brevify_words(text@).len() as int),
        res.1@ == joined(tokens(brevify_words(text@))),
{
    let words = brevify_words_of(text);
    abbreviate_words(&words)
}

/// A word absent from the words occurs zero times.
proof fn lemma_count_absent(ws: Seq<Seq<char>>, w: Seq<char>)
    requires
        !ws.contains(w),
    ensures
        count(ws, w) == 0,
    decreases ws.len(),
{
    if ws.len() > 0 {
        assert(ws.last() != w) by {
            assert(ws[ws.len() - 1] == ws.last());
        }
        assert(!ws.drop_last().contains(w)) by {
            if ws.drop_last().contains(w) {
                let t = choose|t: int| 0 <= t < ws.drop_last().len() && ws.drop_last()[t] == w;
                assert(ws[t] == w);
            }
        }
        lemma_count_absent(ws.drop_last(), w);
    }
}

/// A word occurs at most as often as there are words.
proof fn lemma_count_le(ws: Seq<Seq<char>>, w: Seq<char>)
    ensures
        count(ws, w) <= ws.len(),
    decreases ws.len(),
{
    if ws.len() > 0 {
        lemma_count_le(ws.drop_last(), w);
    }
}

/// Each abbreviation made before `j` is in the dictionary with its word.
proof fn lemma_dict_has(ws: Seq<Seq<char>>, j: int, k: int)
    requires
        0 <= k < j <= ws.len(),
        fresh(ws, k),
    ensures
        dict_upto(ws, j).contains((abbr_at(ws, k), ws[k])),
    decreases j,
{
    broadcast use vstd::seq_lib::lemma_seq_contains_after_push;

    if k < j - 1 {
        lemma_dict_has(ws, j - 1, k);
    }
}

/// Every word of the short text is either the word itself or an
/// abbreviation that the dictionary maps back to it, so the original words
/// can be read back.
pub proof fn law_brevify_recoverable(ws: Seq<Seq<char>>)
    ensures
        forall|i: int|
            0 <= i < ws.len() ==> #[trigger] tokens(ws)[i] == ws[i] || dict_upto(
                ws,
                ws.len() as int,
            ).contains((tokens(ws)[i], ws[i])),
{
    assert forall|i: int| 0 <= i < ws.len() implies #[trigger] tokens(ws)[i] == ws[i] || dict_upto(
        ws,
        ws.len() as int,
    ).contains((tokens(ws)[i], ws[i])) by {
        let w = ws[i];
        if eligible(ws, w) {
            assert(ws.take(i + 1)[i] == w);
            let k = lemma_first_in_prefix(ws, i + 1, w);
            lemma_first_index(ws, w, k);
            assert(fresh(ws, k));
            lemma_dict_has(ws, ws.len() as int, k);
        }
    }
}

/// The decimal notation has at least one digit, and two when the number
/// is ten or more.
proof fn lemma_decimal_len(n: nat)
    ensures
        decimal(n).len() >= 1,
        n >= 10 ==> decimal(n).len() >= 2,
    decreases n,
{
    if n >= 10 {
        lemma_decimal_len(n / 10);
    }
}

/// Different numbers have different decimal notations.
proof fn lemma_decimal_injective(a: nat, b: nat)
    requires
        decimal(a) == decimal(b),
    ensures
        a == b,
    decreases a,
{
    lemma_decimal_len(a);
    lemma_decimal_len(b);
    if a < 10 && b < 10 {
        assert(decimal(a)[0] == digits()[a as int]);
        assert(decimal(b)[0] == digits()[b as int]);
    } else if a >= 10 && b >= 10 {
        let da = decimal(a / 10);
        let db = decimal(b / 10);
        assert(decimal(a).drop_last() =~= da);
        assert(decimal(b).drop_last() =~= db);
        lemma_decimal_injective(a / 10, b / 10);
        assert(decimal(a).last() == digits()[(a % 10) as int]);
        assert(decimal(b).last() == digits()[(b % 10) as int]);
        assert(digits()[(a % 10) as int] == digits()[(b % 10) as int]);
        assert(a % 10 == b % 10);
        assert(a == 10 * (a / 10) + a % 10);
        assert(b == 10 * (b / 10) + b % 10);
    }
}

/// A later abbreviation with the same first character has a higher
/// running number.
proof fn lemma_rank_grows(ws: Seq<Seq<char>>, k1: int, k2: int, c: char)
    requires
        0 <= k1 < k2,
        fresh(ws, k1),
        first_char(ws[k1]) == c,
    ensures
        rank(ws, k2, c) >= rank(ws, k1, c) + 1,
    decreases k2,
{
    if k2 > k1 + 1 {
        lemma_rank_grows(ws, k1, k2 - 1, c);
    }
}

/// The pairs of the dictionary are abbreviations made at increasing
/// positions: each is the abbreviation of a fresh word.
proof fn lemma_dict_entry(ws: Seq<Seq<char>>, j: int, t: int) -> (k: int)
    requires
        0 <= j <= ws.len(),
        0 <= t < dict_upto(ws, j).len(),
    ensures
        0 <= k < j,
        fresh(ws, k),
        dict_upto(ws, j)[t] == (abbr_at(ws, k), ws[k]),
        forall|t2: int| t < t2 < dict_upto(ws, j).len() ==> exists|k2: int| k < k2 < j && fresh(ws, k2) && #[trigger] dict_upto(ws, j)[t2] == (abbr_at(ws, k2), ws[k2]),
    decreases j,
{
    let d = dict_upto(ws, j - 1);
    if fresh(ws, j - 1) && t == d.len() {
        j - 1
    } else {
        let k = lemma_dict_entry(ws, j - 1, t);
        if fresh(ws, j - 1) {
            assert forall|t2: int| t < t2 < dict_upto(ws, j).len() implies exists|k2: int| k < k2 < j && fresh(ws, k2) && #[trigger] dict_upto(ws, j)[t2] == (abbr_at(ws, k2), ws[k2]) by {
                if t2 == d.len() {
                    assert(dict_upto(ws, j)[t2] == (abbr_at(ws, j - 1), ws[j - 1]));
                } else {
                    assert(dict_upto(ws, j)[t2] == d[t2]);
                }
            }
        }
        k
    }
}

/// No two entries of the dictionary share an abbreviation: every
/// abbreviation stands for one word.
pub proof fn law_brevify_abbreviations_distinct(ws: Seq<Seq<char>>)
    ensures
        forall|t1: int, t2: int|
            0 <= t1 < t2 < dict_upto(ws, ws.len() as int).len() ==> #[trigger] dict_upto(
                ws,
                ws.len() as int,
            )[t1].0 != #[trigger] dict_upto(ws, ws.len() as int)[t2].0,
{
    let n = ws.len() as int;
    let d = dict_upto(ws, n);
    assert forall|t1: int, t2: int| 0 <= t1 < t2 < d.len() implies #[trigger] d[t1].0 != #[trigger] d[t2].0 by {
        let k1 = lemma_dict_entry(ws, n, t1);
        let k2 = choose|k2: int| k1 < k2 < n && fresh(ws, k2) && #[trigger] d[t2] == (abbr_at(ws, k2), ws[k2]);
        let c1 = first_char(ws[k1]);
        let c2 = first_char(ws[k2]);
        if c1 == c2 {
            lemma_rank_grows(ws, k1, k2, c1);
            if d[t1].0 == d[t2].0 {
                assert(abbr_at(ws, k1).skip(1) =~= decimal(rank(ws, k1, c1) + 1));
                assert(abbr_at(ws, k2).skip(1) =~= decimal(rank(ws, k2, c1) + 1));
                lemma_decimal_injective(rank(ws, k1, c1) + 1, rank(ws, k2, c1) + 1);
            }
        } else {
            assert(abbr_at(ws, k1)[0] == c1);
            assert(abbr_at(ws, k2)[0] == c2);
        }
    }
}

/// Normalizing drops a word only when nothing is left of it once the
/// non-alphanumeric characters at its ends are trimmed: any other word,
/// one character long or longer, stays, in lower case, after the words
/// before it.
pub proof fn law_normalized_drops_only_empty_words(ws: Seq<Seq<char>>, w: Seq<char>)
    ensures
        strip(w, non_alnum()).len() > 0 ==> normalized(ws.push(w)) == normalized(ws).push(
            lowercase(strip(w, non_alnum())),
        ),
        strip(w, non_alnum()).len() == 0 ==> normalized(ws.push(w)) == normalized(ws),
{
    assert(ws.push(w).drop_last() =~= ws);
    assert(ws.push(w).last() == w);
}

} // verus!
