//! The masks that the system prompt allows, read from its `OPERATORS` table.

use crate::json::{
    json_as_str, json_entries, json_get, parse_json, parsed_json, tree_get, tree_str, JsonTree,
};
use crate::pattern::{capture_group, regex_capture, regex_replaced, replace_matches, Capture, CaptureSpec};
use crate::text::{chars_of, eq_chars};
use vstd::prelude::*;
use vstd::string::*;

verus! {

/// The pattern of the `OPERATORS = { ... }` table, the table in group one.
pub open spec fn operators_pattern() -> Seq<char> {
    seq!['O', 'P', 'E', 'R', 'A', 'T', 'O', 'R', 'S', '\\', 's', '*', '=', '\\', 's', '*', '(', '\\', '{', '[', '\\', 's', '\\', 'S', ']', '*', '?', '\\', 'n', '}', ')']
}

/// The pattern of a comma before a closing brace or the end.
pub open spec fn trailing_comma_pattern() -> Seq<char> {
    seq![',', '\\', 's', '*', '(', '}', '|', '$', ')']
}

/// The replacement that keeps group one.
pub open spec fn group_one() -> Seq<char> {
    seq!['$', '1']
}

/// The key under which a masking operator names its mask.
pub open spec fn new_value_key() -> Seq<char> {
    seq!['n', 'e', 'w', '_', 'v', 'a', 'l', 'u', 'e']
}

/// The `OPERATORS` table of the text, as the pattern captures it.
pub open spec fn json_fragment(text: Seq<char>) -> Option<Seq<char>> {
    match regex_capture(operators_pattern(), text, 1) {
        CaptureSpec::Found(s) => Some(s),
        _ => None,
    }
}

/// The table with the commas before closing braces removed.
pub open spec fn without_trailing_commas(json: Seq<char>) -> Option<Seq<char>> {
    match regex_replaced(trailing_comma_pattern(), json, group_one()) {
        Ok(s) => Some(s),
        Err(_) => None,
    }
}

/// The string under `new_value` in an operator, if there is one.
pub open spec fn new_value_of(t: JsonTree) -> Option<Seq<char>> {
    match tree_get(t, new_value_key()) {
        Some(x) => tree_str(x),
        None => None,
    }
}

/// The `new_value` strings of the operators, in order.
pub open spec fn new_values(es: Seq<(Seq<char>, JsonTree)>) -> Seq<Seq<char>>
    decreases es.len(),
{
    if es.len() == 0 {
        seq![]
    } else {
        match new_value_of(es.last().1) {
            Some(s) => new_values(es.drop_last()).push(s),
            None => new_values(es.drop_last()),
        }
    }
}

/// The items of `s`, each where it first occurs.
pub open spec fn first_occurrences(s: Seq<Seq<char>>) -> Seq<Seq<char>>
    decreases s.len(),
{
    if s.len() == 0 {
        seq![]
    } else if s.drop_last().contains(s.last()) {
        first_occurrences(s.drop_last())
    } else {
        first_occurrences(s.drop_last()).push(s.last())
    }
}

/// The masks of an operators table: its distinct `new_value` strings, none
/// when the table is not an object or names no mask.
pub open spec fn masks_of_tree(t: JsonTree) -> Option<Seq<Seq<char>>> {
    match t {
        JsonTree::Object(es) => {
            let m = first_occurrences(new_values(es));
            if m.len() > 0 {
                Some(m)
            } else {
                None
            }
        },
        _ => None,
    }
}

/// The masks of the operators table written as JSON text.
pub open spec fn masks_of_json(json: Seq<char>) -> Option<Seq<Seq<char>>> {
    match parsed_json(json) {
        Ok(t) => masks_of_tree(t),
        Err(_) => None,
    }
}

/// The masks that the system prompt defines.
pub open spec fn valid_masks(text: Seq<char>) -> Option<Seq<Seq<char>>> {
    match json_fragment(text) {
        Some(f) => match without_trailing_commas(f) {
            Some(c) => masks_of_json(c),
            None => None,
        },
        None => None,
    }
}

/// The texts of a vector of strings.
pub open spec fn strings_view(v: Seq<String>) -> Seq<Seq<char>> {
    v.map_values(|s: String| s@)
}

/// The texts as an optional sequence.
pub open spec fn opt_strings_view(v: Option<Vec<String>>) -> Option<Seq<Seq<char>>> {
    match v {
        Some(x) => Some(strings_view(x@)),
        None => None,
    }
}

/// Whether the vector holds the text `s`.
pub fn contains_string(v: &Vec<String>, s: &str) -> (res: bool)
    ensures
        res == strings_view(v@).contains(s@),
{
    let target = chars_of(s);
    let mut i: usize = 0;
    while i < v.len()
        invariant
            i <= v.len(),
            target@ == s@,
            forall|t: int| 0 <= t < i ==> v@[t]@ != s@,
        decreases v.len() - i,
    {
        let c = chars_of(v[i].as_str());
        if eq_chars(c.as_slice(), target.as_slice()) {
            assert(strings_view(v@)[i as int] == s@);
            return true;
        }
        i += 1;
    }
    assert(!strings_view(v@).contains(s@)) by {
        if strings_view(v@).contains(s@) {
            let t = choose|t: int| 0 <= t < v@.len() && strings_view(v@)[t] == s@;
            assert(v@[t]@ == s@);
        }
    }
    false
}

/// The masks of an operators table given as a `serde_json` value.
pub fn redaction_masks(value: &serde_json::Value) -> (res: Option<Vec<String>>)
    ensures
        opt_strings_view(res) == masks_of_tree(crate::json::json_tree(*value)),
{
    let entries = match json_entries(value) {
        Some(e) => e,
        None => return None,
    };
    let ghost es = match crate::json::json_tree(*value) {
        JsonTree::Object(es) => es,
        _ => Seq::empty(),
    };
    let key = "new_value";
    proof {
        reveal_strlit("new_value");
        assert(key@ =~= new_value_key());
    }
    let mut masks: Vec<String> = Vec::new();
    let mut i: usize = 0;
    while i < entries.len()
        invariant
            i <= entries.len(),
            entries@.len() == es.len(),
            key@ == new_value_key(),
            forall|t: int|
                0 <= t < es.len() ==> (#[trigger] entries@[t]).0@ == es[t].0 && crate::json::json_tree(
                    *entries@[t].1,
                ) == es[t].1,
            strings_view(masks@) == first_occurrences(new_values(es.take(i as int))),
        decreases entries.len() - i,
    {
        let ghost prefix = es.take(i as int);
        let ghost next = es.take(i + 1);
        assert(next.drop_last() =~= prefix);
        assert(next.last() == es[i as int]);
        let v = entries[i].1;
        let found = match json_get(v, key) {
            Some(x) => json_as_str(x),
            None => None,
        };
        match found {
            Some(s) => {
                let ghost vals = new_values(prefix);
                assert(new_values(next) == vals.push(s@));
                assert(vals.push(s@).drop_last() =~= vals);
                proof {
                    lemma_first_occurrences_contains(vals);
                }
                if !contains_string(&masks, s) {
                    masks.push(String::from_str(s));
                    assert(strings_view(masks@) =~= first_occurrences(vals).push(s@));
                }
            },
            None => {
                assert(new_values(next) == new_values(prefix));
            },
        }
        i += 1;
    }
    assert(es.take(entries.len() as int) =~= es);
    if masks.len() > 0 {
        Some(masks)
    } else {
        None
    }
}

/// The items of `first_occurrences(s)` are those of `s`.
pub proof fn lemma_first_occurrences_contains(s: Seq<Seq<char>>)
    ensures
        forall|x: Seq<char>| #[trigger] first_occurrences(s).contains(x) == s.contains(x),
    decreases s.len(),
{
    broadcast use vstd::seq_lib::lemma_seq_contains_after_push;

    if s.len() > 0 {
        let d = s.drop_last();
        lemma_first_occurrences_contains(d);
        assert(s =~= d.push(s.last()));
        assert forall|x: Seq<char>| #[trigger] first_occurrences(s).contains(x) == s.contains(
            x,
        ) by {
            assert(s.contains(x) == (d.contains(x) || x == s.last()));
            assert(first_occurrences(d).contains(x) == d.contains(x));
            if !d.contains(s.last()) {
                assert(first_occurrences(s) == first_occurrences(d).push(s.last()));
                assert(first_occurrences(d).push(s.last()).contains(x) == (first_occurrences(
                    d,
                ).contains(x) || x == s.last()));
            } else {
                assert(first_occurrences(s) == first_occurrences(d));
            }
        }
    }
}

/// The masks of an operators table written as JSON text.
fn parse_and_extract_redactions(json: &str) -> (res: Option<Vec<String>>)
    ensures
        opt_strings_view(res) == masks_of_json(json@),
{
    match parse_json(json) {
        Ok(v) => redaction_masks(&v),
        Err(_) => None,
    }
}

/// The `OPERATORS` table of the text.
fn extract_json_fragment(text: &str) -> (res: Option<String>)
    ensures
        match res {
            Some(s) => json_fragment(text@) == Some(s@),
            None => json_fragment(text@) is None,
        },
{
    let pattern = "OPERATORS\\s*=\\s*(\\{[\\s\\S]*?\\n})";
    proof {
        reveal_strlit("OPERATORS\\s*=\\s*(\\{[\\s\\S]*?\\n})");
        assert(pattern@ =~= operators_pattern());
    }
    match capture_group(pattern, text, 1) {
        Capture::Found(s) => Some(s),
        _ => None,
    }
}

/// The table with the commas before closing braces removed.
fn remove_trailing_commas(json: &str) -> (res: Option<String>)
    ensures
        match res {
            Some(s) => without_trailing_commas(json@) == Some(s@),
            None => without_trailing_commas(json@) is None,
        },
{
    let pattern = ",\\s*(}|$)";
    let rep = "$1";
    proof {
        reveal_strlit(",\\s*(}|$)");
        reveal_strlit("$1");
        assert(pattern@ =~= trailing_comma_pattern());
        assert(rep@ =~= group_one());
    }
    match replace_matches(pattern, json, rep) {
        Ok(s) => Some(s),
        Err(_) => None,
    }
}

/// The masks that the system prompt defines in its `OPERATORS` table: the
/// distinct `new_value` strings of the operators, none when the table is
/// missing, unreadable or names no mask.
pub fn get_valid_redactions(text: &str) -> (res: Option<Vec<String>>)
    ensures
        opt_strings_view(res) == valid_masks(text@),
{
    let json_fragment = match extract_json_fragment(text) {
        Some(f) => f,
        None => return None,
    };
    let clean_json = match remove_trailing_commas(json_fragment.as_str()) {
        Some(c) => c,
        None => return None,
    };
    parse_and_extract_redactions(clean_json.as_str())
}

/// The masks are distinct and each is a `new_value` string of the table.
pub proof fn law_masks_distinct(t: JsonTree)
    ensures
        masks_of_tree(t) matches Some(m) ==> m.no_duplicates() && m.len() > 0 && (t matches JsonTree::Object(es) && forall|x: Seq<char>| m.contains(x) <==> new_values(es).contains(x)),
{
    if let JsonTree::Object(es) = t {
        lemma_first_occurrences_distinct(new_values(es));
        lemma_first_occurrences_contains(new_values(es));
    }
}

/// `first_occurrences` holds no item twice.
pub proof fn lemma_first_occurrences_distinct(s: Seq<Seq<char>>)
    ensures
        first_occurrences(s).no_duplicates(),
    decreases s.len(),
{
    if s.len() > 0 {
        let d = s.drop_last();
        lemma_first_occurrences_distinct(d);
        lemma_first_occurrences_contains(d);
        if !d.contains(s.last()) {
            let f = first_occurrences(d);
            let g = f.push(s.last());
            assert(!f.contains(s.last()));
            assert forall|i: int, j: int|
                0 <= i < g.len() && 0 <= j < g.len() && i != j implies g[i] != g[j] by {
                if i < f.len() && j < f.len() {
                    assert(g[i] == f[i] && g[j] == f[j]);
                } else if i < f.len() {
                    assert(g[i] == f[i]);
                    assert(f.contains(f[i]));
                } else if j < f.len() {
                    assert(g[j] == f[j]);
                    assert(f.contains(f[j]));
                }
            }
        }
    }
}

} // verus!
