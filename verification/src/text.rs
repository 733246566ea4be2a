//! Character-level text operations, stated over `Seq<char>`.

use vstd::prelude::*;

verus! {

/// Converts a string slice into its characters.
pub fn chars_of(s: &str) -> (res: Vec<char>)
    ensures
        res@ == s@,
{
    broadcast use vstd::string::axiom_spec_iter;

    let mut out: Vec<char> = Vec::new();
    for c in it: s.chars()
        invariant
            it.seq() == s@,
            out@ == it.seq().take(it.index() as int),
    {
        out.push(c);
    }
    out
}

/// Calls `String::push`, which appends the character to the end of the
/// string.
#[verifier::external_body]
fn push_char(s: &mut String, c: char)
    ensures
        final(s)@ == old(s)@.push(c),
{
    s.push(c);
}

/// Builds a string from characters.
pub fn string_of(v: &[char]) -> (res: String)
    ensures
        res@ == v@,
{
    let mut out = String::new();
    let mut i: usize = 0;
    while i < v.len()
        invariant
            i <= v.len(),
            out@ == v@.take(i as int),
        decreases v.len() - i,
    {
        push_char(&mut out, v[i]);
        i += 1;
        assert(out@ =~= v@.take(i as int));
    }
    assert(v@.take(v.len() as int) =~= v@);
    out
}

/// `p` occurs in `s` starting at index `i`.
pub open spec fn occurs_at(s: Seq<char>, p: Seq<char>, i: int) -> bool {
    0 <= i && i + p.len() <= s.len() && s.subrange(i, i + p.len()) == p
}

/// The first index at or after `k` where `p` occurs in `s`, as `str::find` reports it.
pub open spec fn find_from(s: Seq<char>, p: Seq<char>, k: int) -> Option<int>
    decreases s.len() + 1 - k,
{
    if k < 0 || k + p.len() > s.len() {
        None
    } else if occurs_at(s, p, k) {
        Some(k)
    } else {
        find_from(s, p, k + 1)
    }
}

/// What `find_from` finds is an occurrence at or after `k`, and none comes
/// between `k` and it.
pub proof fn lemma_find_from(s: Seq<char>, p: Seq<char>, k: int)
    requires
        0 <= k,
    ensures
        find_from(s, p, k) matches Some(i) ==> k <= i && occurs_at(s, p, i) && forall|j: int|
            k <= j < i ==> !occurs_at(s, p, j),
        find_from(s, p, k) is None ==> forall|j: int| k <= j ==> !occurs_at(s, p, j),
    decreases s.len() + 1 - k,
{
    if k + p.len() > s.len() {
    } else if !occurs_at(s, p, k) {
        lemma_find_from(s, p, k + 1);
    }
}

/// The first occurrence of `p` in `s`.
pub open spec fn find_first(s: Seq<char>, p: Seq<char>) -> Option<int> {
    find_from(s, p, 0)
}

/// Every non-overlapping occurrence of `pat`, from left to right, replaced by
/// `rep`; an empty `pat` matches before each character and at the end, as in
/// `str::replace`.
pub open spec fn replace_all(s: Seq<char>, pat: Seq<char>, rep: Seq<char>) -> Seq<char>
    decreases s.len(),
{
    if s.len() == 0 {
        if pat.len() == 0 { rep } else { seq![] }
    } else if pat.len() == 0 {
        rep + seq![s[0]] + replace_all(s.drop_first(), pat, rep)
    } else if occurs_at(s, pat, 0) {
        rep + replace_all(s.skip(pat.len() as int), pat, rep)
    } else {
        seq![s[0]] + replace_all(s.drop_first(), pat, rep)
    }
}

/// Whether `p` occurs at index `i` of `s`.
pub fn matches_at(s: &[char], p: &[char], i: usize) -> (res: bool)
    ensures
        res == occurs_at(s@, p@, i as int),
{
    if p.len() > s.len() || i > s.len() - p.len() {
        return false;
    }
    let mut j: usize = 0;
    while j < p.len()
        invariant
            i + p.len() <= s.len(),
            j <= p.len(),
            forall|t: int| 0 <= t < j ==> s@[i + t] == p@[t],
        decreases p.len() - j,
    {
        if s[i + j] != p[j] {
            assert(s@.subrange(i as int, i + p.len())[j as int] != p@[j as int]);
            return false;
        }
        j += 1;
    }
    assert(s@.subrange(i as int, i + p.len()) =~= p@);
    true
}

/// The char index of the first occurrence of `p` in `s`.
pub fn find_chars(s: &[char], p: &[char]) -> (res: Option<usize>)
    ensures
        match res {
            Some(r) => find_first(s@, p@) == Some(r as int) && occurs_at(s@, p@, r as int),
            None => find_first(s@, p@) is None,
        },
{
    if p.len() > s.len() {
        return None;
    }
    let last = s.len() - p.len();
    let mut k: usize = 0;
    while k <= last
        invariant
            last == s.len() - p.len(),
            p.len() <= s.len(),
            k <= last + 1,
            find_from(s@, p@, 0) == find_from(s@, p@, k as int),
        decreases last + 1 - k,
    {
        if matches_at(s, p, k) {
            return Some(k);
        }
        assert(find_from(s@, p@, k as int) == find_from(s@, p@, k + 1));
        if k == last {
            assert(find_from(s@, p@, k + 1) is None);
            return None;
        }
        k += 1;
    }
    None
}

/// Appends `src` to `out`.
pub fn append_chars(out: &mut Vec<char>, src: &[char])
    ensures
        final(out)@ == old(out)@ + src@,
{
    let mut t: usize = 0;
    while t < src.len()
        invariant
            t <= src.len(),
            out@ == old(out)@ + src@.take(t as int),
        decreases src.len() - t,
    {
        out.push(src[t]);
        t += 1;
        assert(src@.take(t as int) =~= src@.take(t - 1) + seq![src@[t - 1]]);
    }
    assert(src@.take(src.len() as int) =~= src@);
}

/// `str::replace` on characters.
pub fn replace_chars(s: &[char], pat: &[char], rep: &[char]) -> (res: Vec<char>)
    ensures
        res@ == replace_all(s@, pat@, rep@),
{
    let mut out: Vec<char> = Vec::new();
    let mut i: usize = 0;
    assert(s@.skip(0) =~= s@);
    while i < s.len()
        invariant
            i <= s.len(),
            out@ + replace_all(s@.skip(i as int), pat@, rep@) == replace_all(s@, pat@, rep@),
        decreases s.len() - i,
    {
        let ghost rest = s@.skip(i as int);
        let ghost before = out@;
        if pat.len() == 0 {
            append_chars(&mut out, rep);
            out.push(s[i]);
            assert(rest.drop_first() =~= s@.skip(i + 1));
            assert(out@ =~= before + rep@ + seq![rest[0]]);
            i += 1;
        } else if matches_at(s, pat, i) {
            append_chars(&mut out, rep);
            assert(rest.subrange(0, pat@.len() as int) =~= s@.subrange(i as int, i + pat@.len()));
            assert(rest.skip(pat@.len() as int) =~= s@.skip(i + pat@.len()));
            i += pat.len();
        } else {
            assert(rest.subrange(0, pat@.len() as int) =~= s@.subrange(i as int, i + pat@.len())
                || !(i + pat@.len() <= s@.len()));
            out.push(s[i]);
            assert(rest.drop_first() =~= s@.skip(i + 1));
            assert(out@ =~= before + seq![rest[0]]);
            i += 1;
        }
    }
    assert(s@.skip(s.len() as int) =~= Seq::<char>::empty());
    if pat.len() == 0 {
        append_chars(&mut out, rep);
    }
    out
}

/// The characters with the Unicode `White_Space` property, of which
/// `char::is_whitespace` is true.
pub open spec fn is_white_space(c: char) -> bool {
    ||| ('\u{9}' <= c && c <= '\u{d}')
    ||| c == ' '
    ||| c == '\u{85}'
    ||| c == '\u{a0}'
    ||| c == '\u{1680}'
    ||| ('\u{2000}' <= c && c <= '\u{200a}')
    ||| c == '\u{2028}'
    ||| c == '\u{2029}'
    ||| c == '\u{202f}'
    ||| c == '\u{205f}'
    ||| c == '\u{3000}'
}

/// Whether `c` is white space.
pub fn is_whitespace_char(c: char) -> (res: bool)
    ensures
        res == is_white_space(c),
{
    ('\u{9}' <= c && c <= '\u{d}') || c == ' ' || c == '\u{85}' || c == '\u{a0}' || c
        == '\u{1680}' || ('\u{2000}' <= c && c <= '\u{200a}') || c == '\u{2028}' || c
        == '\u{2029}' || c == '\u{202f}' || c == '\u{205f}' || c == '\u{3000}'
}

/// The predicate of white space, as a value.
pub open spec fn white_space() -> spec_fn(char) -> bool {
    |c: char| is_white_space(c)
}

/// `s` without its leading characters of which `p` holds.
pub open spec fn strip_start(s: Seq<char>, p: spec_fn(char) -> bool) -> Seq<char>
    decreases s.len(),
{
    if s.len() > 0 && p(s[0]) {
        strip_start(s.drop_first(), p)
    } else {
        s
    }
}

/// `s` without its trailing characters of which `p` holds.
pub open spec fn strip_end(s: Seq<char>, p: spec_fn(char) -> bool) -> Seq<char>
    decreases s.len(),
{
    if s.len() > 0 && p(s.last()) {
        strip_end(s.drop_last(), p)
    } else {
        s
    }
}

/// `s` without the leading and trailing characters of which `p` holds, as
/// `str::trim_matches` with a predicate gives it.
pub open spec fn strip(s: Seq<char>, p: spec_fn(char) -> bool) -> Seq<char> {
    strip_end(strip_start(s, p), p)
}

/// The bounds `lo..hi` of `s` that `strip(s, p)` keeps.
pub proof fn lemma_strip_bounds(s: Seq<char>, p: spec_fn(char) -> bool, lo: int, hi: int)
    requires
        0 <= lo <= hi <= s.len(),
        forall|t: int| 0 <= t < lo ==> p(#[trigger] s[t]),
        forall|t: int| hi <= t < s.len() ==> p(#[trigger] s[t]),
        lo < s.len() ==> !p(s[lo]),
        lo < hi ==> !p(s[hi - 1]),
    ensures
        strip(s, p) == s.subrange(lo, hi),
{
    lemma_strip_start(s, p, lo);
    let a = s.skip(lo);
    if lo < hi {
        lemma_strip_end(a, p, hi - lo);
        assert(a.take(hi - lo) =~= s.subrange(lo, hi));
    } else {
        if lo < s.len() {
            assert(p(s[lo]));
        }
        assert(a =~= Seq::<char>::empty());
        assert(s.subrange(lo, hi) =~= Seq::<char>::empty());
    }
}

proof fn lemma_strip_start(s: Seq<char>, p: spec_fn(char) -> bool, lo: int)
    requires
        0 <= lo <= s.len(),
        forall|t: int| 0 <= t < lo ==> p(#[trigger] s[t]),
        lo < s.len() ==> !p(s[lo]),
    ensures
        strip_start(s, p) == s.skip(lo),
    decreases lo,
{
    if lo == 0 {
        assert(s.skip(0) =~= s);
    } else {
        assert(p(s[0]));
        let d = s.drop_first();
        assert forall|t: int| 0 <= t < lo - 1 implies p(#[trigger] d[t]) by {
            assert(d[t] == s[t + 1]);
        }
        lemma_strip_start(d, p, lo - 1);
        assert(d.skip(lo - 1) =~= s.skip(lo));
    }
}

proof fn lemma_strip_end(s: Seq<char>, p: spec_fn(char) -> bool, hi: int)
    requires
        0 < hi <= s.len(),
        forall|t: int| hi <= t < s.len() ==> p(#[trigger] s[t]),
        !p(s[hi - 1]),
    ensures
        strip_end(s, p) == s.take(hi),
    decreases s.len() - hi,
{
    if hi == s.len() {
        assert(s.take(hi) =~= s);
    } else {
        assert(p(s.last()));
        let d = s.drop_last();
        assert forall|t: int| hi <= t < d.len() implies p(#[trigger] d[t]) by {
            assert(d[t] == s[t]);
        }
        lemma_strip_end(d, p, hi);
        assert(d.take(hi) =~= s.take(hi));
    }
}

/// `str::trim`: `s` without leading and trailing white space.
pub fn trim_chars(s: &[char]) -> (res: Vec<char>)
    ensures
        res@ == strip(s@, white_space()),
{
    let mut lo: usize = 0;
    while lo < s.len() && is_whitespace_char(s[lo])
        invariant
            lo <= s.len(),
            forall|t: int| 0 <= t < lo ==> is_white_space(#[trigger] s@[t]),
        decreases s.len() - lo,
    {
        lo += 1;
    }
    let mut hi: usize = s.len();
    while hi > lo && is_whitespace_char(s[hi - 1])
        invariant
            lo <= hi <= s.len(),
            lo < s.len() ==> !is_white_space(s@[lo as int]),
            forall|t: int| hi <= t < s.len() ==> is_white_space(#[trigger] s@[t]),
        decreases hi,
    {
        hi -= 1;
    }
    proof {
        lemma_strip_bounds(s@, white_space(), lo as int, hi as int);
    }
    slice_chars(s, lo, hi)
}

/// The characters `s[lo..hi]`.
pub fn slice_chars(s: &[char], lo: usize, hi: usize) -> (res: Vec<char>)
    requires
        lo <= hi <= s.len(),
    ensures
        res@ == s@.subrange(lo as int, hi as int),
{
    let mut out: Vec<char> = Vec::new();
    let mut i: usize = lo;
    while i < hi
        invariant
            lo <= i <= hi <= s.len(),
            out@ == s@.subrange(lo as int, i as int),
        decreases hi - i,
    {
        out.push(s[i]);
        i += 1;
        assert(out@ =~= s@.subrange(lo as int, i as int));
    }
    out
}

/// The predicate of being the character `c`, as a value.
pub open spec fn is_char(c: char) -> spec_fn(char) -> bool {
    |x: char| x == c
}

/// `str::trim_matches(c)` for a single character `c`.
pub fn trim_char(s: &[char], c: char) -> (res: Vec<char>)
    ensures
        res@ == strip(s@, is_char(c)),
{
    let ghost p = is_char(c);
    let mut lo: usize = 0;
    while lo < s.len() && s[lo] == c
        invariant
            lo <= s.len(),
            p == is_char(c),
            forall|t: int| 0 <= t < lo ==> p(#[trigger] s@[t]),
        decreases s.len() - lo,
    {
        lo += 1;
    }
    let mut hi: usize = s.len();
    while hi > lo && s[hi - 1] == c
        invariant
            lo <= hi <= s.len(),
            p == is_char(c),
            lo < s.len() ==> !p(s@[lo as int]),
            forall|t: int| hi <= t < s.len() ==> p(#[trigger] s@[t]),
        decreases hi,
    {
        hi -= 1;
    }
    proof {
        lemma_strip_bounds(s@, p, lo as int, hi as int);
    }
    slice_chars(s, lo, hi)
}

/// What `str::to_lowercase` gives for `s`: the Unicode lower-case mapping
/// of each character.
pub uninterp spec fn lowercase(s: Seq<char>) -> Seq<char>;

/// Calls `str::to_lowercase`, whose result the contract names by `lowercase`;
/// its Unicode tables are not stated here.
#[verifier::external_body]
pub(crate) fn to_lowercase(s: &str) -> (res: String)
    ensures
        res@ == lowercase(s@),
{
    s.to_lowercase()
}

/// Whether two character sequences are equal.
pub fn eq_chars(a: &[char], b: &[char]) -> (res: bool)
    ensures
        res == (a@ == b@),
{
    if a.len() != b.len() {
        return false;
    }
    let mut i: usize = 0;
    while i < a.len()
        invariant
            a.len() == b.len(),
            i <= a.len(),
            forall|t: int| 0 <= t < i ==> a@[t] == b@[t],
        decreases a.len() - i,
    {
        if a[i] != b[i] {
            return false;
        }
        i += 1;
    }
    assert(a@ =~= b@);
    true
}

/// What `char::is_alphanumeric` gives: alphabetic or numeric in Unicode.
pub uninterp spec fn is_alnum(c: char) -> bool;

/// Calls `char::is_alphanumeric`, whose result the contract names by
/// `is_alnum` (the Unicode tables are not stated).
#[verifier::external_body]
pub(crate) fn char_is_alphanumeric(c: char) -> (res: bool)
    ensures
        res == is_alnum(c),
{
    c.is_alphanumeric()
}

/// The predicate of not being alphanumeric, as a value.
pub open spec fn non_alnum() -> spec_fn(char) -> bool {
    |c: char| !is_alnum(c)
}

/// `str::trim_matches(|c| !c.is_alphanumeric())`.
pub fn trim_non_alnum(s: &[char]) -> (res: Vec<char>)
    ensures
        res@ == strip(s@, non_alnum()),
{
    let ghost p = non_alnum();
    let mut lo: usize = 0;
    while lo < s.len() && !char_is_alphanumeric(s[lo])
        invariant
            lo <= s.len(),
            p == non_alnum(),
            forall|t: int| 0 <= t < lo ==> p(#[trigger] s@[t]),
        decreases s.len() - lo,
    {
        lo += 1;
    }
    let mut hi: usize = s.len();
    while hi > lo && !char_is_alphanumeric(s[hi - 1])
        invariant
            lo <= hi <= s.len(),
            p == non_alnum(),
            lo < s.len() ==> !p(s@[lo as int]),
            forall|t: int| hi <= t < s.len() ==> p(#[trigger] s@[t]),
        decreases hi,
    {
        hi -= 1;
    }
    proof {
        lemma_strip_bounds(s@, p, lo as int, hi as int);
    }
    slice_chars(s, lo, hi)
}

/// The length of the run of non-white-space characters that starts `s`.
pub open spec fn word_len(s: Seq<char>) -> nat
    decreases s.len(),
{
    if s.len() == 0 || is_white_space(s[0]) {
        0
    } else {
        1 + word_len(s.drop_first())
    }
}

/// A word is no longer than the text, and one starts at every
/// non-white-space character.
pub proof fn lemma_word_len(s: Seq<char>)
    ensures
        word_len(s) <= s.len(),
        s.len() > 0 && !is_white_space(s[0]) ==> word_len(s) >= 1,
    decreases s.len(),
{
    if s.len() > 0 && !is_white_space(s[0]) {
        lemma_word_len(s.drop_first());
    }
}

/// The words of `s` as `str::split_whitespace` yields them: the maximal
/// runs of characters that are not white space, in order.
pub open spec fn split_ws(s: Seq<char>) -> Seq<Seq<char>>
    decreases s.len(),
{
    if s.len() == 0 {
        seq![]
    } else if is_white_space(s[0]) {
        split_ws(s.drop_first())
    } else {
        proof {
            lemma_word_len(s);
        }
        seq![s.take(word_len(s) as int)] + split_ws(s.skip(word_len(s) as int))
    }
}

/// The characters of each word.
pub open spec fn words_view(v: Seq<Vec<char>>) -> Seq<Seq<char>> {
    v.map_values(|w: Vec<char>| w@)
}

/// A run `s[i..j]` of non-white-space characters ended by white space or
/// the end is the word that starts at `i`.
proof fn lemma_word_len_run(s: Seq<char>, i: int, j: int)
    requires
        0 <= i <= j <= s.len(),
        forall|t: int| i <= t < j ==> !is_white_space(#[trigger] s[t]),
        j == s.len() || is_white_space(s[j]),
    ensures
        word_len(s.skip(i)) == j - i,
    decreases j - i,
{
    if i == j {
    } else {
        lemma_word_len_run(s, i + 1, j);
        assert(s.skip(i).drop_first() =~= s.skip(i + 1));
    }
}

/// `str::split_whitespace` on characters.
pub fn split_whitespace_chars(s: &[char]) -> (res: Vec<Vec<char>>)
    ensures
        words_view(res@) == split_ws(s@),
{
    let mut words: Vec<Vec<char>> = Vec::new();
    let mut i: usize = 0;
    let n = s.len();
    assert(s@.skip(0) =~= s@);
    while i < n
        invariant
            i <= n,
            n == s.len(),
            words_view(words@) + split_ws(s@.skip(i as int)) == split_ws(s@),
        decreases n - i,
    {
        if is_whitespace_char(s[i]) {
            assert(s@.skip(i as int).drop_first() =~= s@.skip(i + 1));
            i += 1;
        } else {
            let mut j: usize = i;
            while j < n && !is_whitespace_char(s[j])
                invariant
                    i <= j <= n,
                    n == s.len(),
                    forall|t: int| i <= t < j ==> !is_white_space(#[trigger] s@[t]),
                decreases n - j,
            {
                j += 1;
            }
            proof {
                lemma_word_len_run(s@, i as int, j as int);
                assert(s@.skip(i as int).take(j - i) =~= s@.subrange(i as int, j as int));
                assert(s@.skip(i as int).skip(j - i) =~= s@.skip(j as int));
            }
            let ghost before = words_view(words@);
            words.push(slice_chars(s, i, j));
            assert(words_view(words@) =~= before.push(s@.subrange(i as int, j as int)));
            i = j;
        }
    }
    assert(s@.skip(n as int) =~= Seq::<char>::empty());
    assert(words_view(words@) + Seq::<Seq<char>>::empty() =~= words_view(words@));
    words
}

/// A character that occurs in neither part does not occur in the two
/// joined.
pub proof fn lemma_concat_absent(a: Seq<char>, b: Seq<char>, x: char)
    requires
        !a.contains(x),
        !b.contains(x),
    ensures
        !(a + b).contains(x),
{
    if (a + b).contains(x) {
        let i = choose|i: int| 0 <= i < (a + b).len() && (a + b)[i] == x;
        if i < a.len() {
            assert(a[i] == x);
        } else {
            assert(b[i - a.len()] == x);
        }
    }
}

/// A character absent from a text is absent from each of its slices.
pub proof fn lemma_subrange_absent(s: Seq<char>, lo: int, hi: int, x: char)
    requires
        0 <= lo <= hi <= s.len(),
        !s.contains(x),
    ensures
        !s.subrange(lo, hi).contains(x),
{
    if s.subrange(lo, hi).contains(x) {
        let i = choose|i: int| 0 <= i < hi - lo && s.subrange(lo, hi)[i] == x;
        assert(s[lo + i] == x);
    }
}

/// Replacing matches with a text that lacks `x`, in a text that lacks `x`,
/// gives a text that lacks `x`.
pub proof fn lemma_replace_keeps_absent(s: Seq<char>, pat: Seq<char>, rep: Seq<char>, x: char)
    requires
        !s.contains(x),
        !rep.contains(x),
    ensures
        !replace_all(s, pat, rep).contains(x),
    decreases s.len(),
{
    if s.len() == 0 {
        if pat.len() != 0 {
            assert(replace_all(s, pat, rep) =~= Seq::<char>::empty());
        }
    } else {
        assert(s[0] != x) by {
            assert(s.contains(s[0]) ==> true);
        }
        lemma_subrange_absent(s, 1, s.len() as int, x);
        assert(s.drop_first() =~= s.subrange(1, s.len() as int));
        lemma_replace_keeps_absent(s.drop_first(), pat, rep, x);
        let one = seq![s[0]];
        assert(!one.contains(x)) by {
            if one.contains(x) {
                let i = choose|i: int| 0 <= i < 1 && one[i] == x;
                assert(one[0] == s[0]);
            }
        }
        if pat.len() == 0 {
            lemma_concat_absent(rep, one, x);
            lemma_concat_absent(rep + one, replace_all(s.drop_first(), pat, rep), x);
        } else if occurs_at(s, pat, 0) {
            lemma_subrange_absent(s, pat.len() as int, s.len() as int, x);
            assert(s.skip(pat.len() as int) =~= s.subrange(pat.len() as int, s.len() as int));
            lemma_replace_keeps_absent(s.skip(pat.len() as int), pat, rep, x);
            lemma_concat_absent(rep, replace_all(s.skip(pat.len() as int), pat, rep), x);
        } else {
            lemma_concat_absent(one, replace_all(s.drop_first(), pat, rep), x);
        }
    }
}

/// Replacing every `x` by a text that lacks `x` leaves no `x`.
pub proof fn lemma_replace_char_removes(s: Seq<char>, x: char, rep: Seq<char>)
    requires
        !rep.contains(x),
    ensures
        !replace_all(s, seq![x], rep).contains(x),
    decreases s.len(),
{
    if s.len() > 0 {
        lemma_replace_char_removes(s.drop_first(), x, rep);
        if occurs_at(s, seq![x], 0) {
            assert(s.skip(1) =~= s.drop_first());
            lemma_concat_absent(rep, replace_all(s.drop_first(), seq![x], rep), x);
        } else {
            assert(s.subrange(0, 1) =~= seq![s[0]]);
            let one = seq![s[0]];
            assert(!one.contains(x)) by {
                if one.contains(x) {
                    let i = choose|i: int| 0 <= i < 1 && one[i] == x;
                    assert(one[0] == s[0]);
                }
            }
            lemma_concat_absent(one, replace_all(s.drop_first(), seq![x], rep), x);
        }
    }
}

/// Stripping characters from the ends keeps only characters of the text.
pub proof fn lemma_strip_absent(s: Seq<char>, p: spec_fn(char) -> bool, x: char)
    requires
        !s.contains(x),
    ensures
        !strip(s, p).contains(x),
{
    lemma_strip_start_absent(s, p, x);
    lemma_strip_end_absent(strip_start(s, p), p, x);
}

proof fn lemma_strip_start_absent(s: Seq<char>, p: spec_fn(char) -> bool, x: char)
    requires
        !s.contains(x),
    ensures
        !strip_start(s, p).contains(x),
    decreases s.len(),
{
    if s.len() > 0 && p(s[0]) {
        lemma_subrange_absent(s, 1, s.len() as int, x);
        assert(s.drop_first() =~= s.subrange(1, s.len() as int));
        lemma_strip_start_absent(s.drop_first(), p, x);
    }
}

proof fn lemma_strip_end_absent(s: Seq<char>, p: spec_fn(char) -> bool, x: char)
    requires
        !s.contains(x),
    ensures
        !strip_end(s, p).contains(x),
    decreases s.len(),
{
    if s.len() > 0 && p(s.last()) {
        lemma_subrange_absent(s, 0, s.len() - 1, x);
        assert(s.drop_last() =~= s.subrange(0, s.len() - 1));
        lemma_strip_end_absent(s.drop_last(), p, x);
    }
}

} // verus!
