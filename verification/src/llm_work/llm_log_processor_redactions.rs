//! The redactions that the language model answers with.

use crate::data::ai_tags::Ai;
use crate::data::session_log_models::SessionLogEntry;
use crate::json::{
    json_as_str, json_entries, json_get, json_index, json_tree, parse_json, parsed_json, tree_get,
    tree_index, tree_str, JsonTree,
};
use crate::llm_work::check_or_swap::{check_or_swap, is_bracketed, ordered_pair};
use crate::llm_work::llm_log_processor::{redaction_pairs, LlmLogProcessor};
use crate::llm_work::masks::{contains_string, get_valid_redactions, opt_strings_view, valid_masks};
use crate::llm_work::process_result::ProcessResult;
use crate::llm_work::update_redacted::log_updated;
use crate::text::{chars_of, eq_chars};
use vstd::prelude::*;
use vstd::string::*;

verus! {

/// The content of the first choice's message in an LLM response.
pub open spec fn choice_content(t: JsonTree) -> Option<Seq<char>> {
    match tree_get(t, seq!['c', 'h', 'o', 'i', 'c', 'e', 's']) {
        Some(c) => match tree_index(c, 0) {
            Some(x) => match tree_get(x, seq!['m', 'e', 's', 's', 'a', 'g', 'e']) {
                Some(m) => match tree_get(m, seq!['c', 'o', 'n', 't', 'e', 'n', 't']) {
                    Some(ct) => tree_str(ct),
                    None => None,
                },
                None => None,
            },
            None => None,
        },
        None => None,
    }
}

/// The key under which the model lists its redactions.
pub open spec fn redactions_key() -> Seq<char> {
    seq!['r', 'e', 'd', 'a', 'c', 't', 'i', 'o', 'n', 's']
}

/// The index of the first pair with key `k`.
pub open spec fn pair_index(m: Seq<(Seq<char>, Seq<char>)>, k: Seq<char>) -> Option<int>
    decreases m.len(),
{
    if m.len() == 0 {
        None
    } else if m.last().0 == k && pair_index(m.drop_last(), k) is None {
        Some(m.len() - 1)
    } else {
        pair_index(m.drop_last(), k)
    }
}

/// The pairs with `k` mapped to `v`: the pair with key `k` replaced in
/// place, or a new pair at the end.
pub open spec fn map_insert(m: Seq<(Seq<char>, Seq<char>)>, k: Seq<char>, v: Seq<char>) -> Seq<
    (Seq<char>, Seq<char>),
> {
    match pair_index(m, k) {
        Some(i) => m.update(i, (k, v)),
        None => m.push((k, v)),
    }
}

/// A replacement is kept when no masks are known, when it is a partial
/// mask, or when it is one of the known full masks.
pub open spec fn accepted(valid: Option<Seq<Seq<char>>>, replacement: Seq<char>) -> bool {
    match valid {
        Some(vr) => !is_bracketed(replacement) || vr.contains(replacement),
        None => true,
    }
}

/// The redactions that the entries of the model's table give, in order:
/// each string entry ordered as (original, mask), kept when accepted.
pub open spec fn collect_redactions(
    es: Seq<(Seq<char>, JsonTree)>,
    valid: Option<Seq<Seq<char>>>,
) -> Seq<(Seq<char>, Seq<char>)>
    decreases es.len(),
{
    if es.len() == 0 {
        seq![]
    } else {
        let prev = collect_redactions(es.drop_last(), valid);
        match tree_str(es.last().1) {
            Some(s) => {
                let p = ordered_pair(es.last().0, s);
                if accepted(valid, p.1) {
                    map_insert(prev, p.0, p.1)
                } else {
                    prev
                }
            },
            None => prev,
        }
    }
}

/// The redactions that a parsed answer lists, none when it has no
/// `redactions` object.
pub open spec fn redactions_of_tree(t: JsonTree, valid: Option<Seq<Seq<char>>>) -> Option<
    Seq<(Seq<char>, Seq<char>)>,
> {
    match tree_get(t, redactions_key()) {
        Some(JsonTree::Object(es)) => Some(collect_redactions(es, valid)),
        _ => None,
    }
}

/// The redactions in the model's answer text, none when it is not JSON
/// with a `redactions` object.
pub open spec fn redactions_in(content: Seq<char>, valid: Option<Seq<Seq<char>>>) -> Option<
    Seq<(Seq<char>, Seq<char>)>,
> {
    match parsed_json(content) {
        Ok(t) => redactions_of_tree(t, valid),
        Err(_) => None,
    }
}

/// The redactions of an LLM response; none found gives none.
pub open spec fn redactions_for(t: JsonTree, valid: Option<Seq<Seq<char>>>) -> Seq<
    (Seq<char>, Seq<char>),
> {
    match choice_content(t) {
        Some(c) => match redactions_in(c, valid) {
            Some(r) => r,
            None => seq![],
        },
        None => seq![],
    }
}

impl LlmLogProcessor {
    /// The known masks as texts.
    pub open spec fn valid_view(&self) -> Option<Seq<Seq<char>>> {
        opt_strings_view(self.valid_redactions)
    }

    /// The processor for a system prompt and model; the masks are read from
    /// the prompt's `OPERATORS` table.
    pub fn new(system_prompt: String, model: &str) -> (res: Self)
        ensures
            res.system_prompt == system_prompt,
            res.model@ == model@,
            res.valid_view() == valid_masks(system_prompt@),
    {
        let valid_redactions = get_valid_redactions(system_prompt.as_str());
        LlmLogProcessor { system_prompt, model: String::from_str(model), valid_redactions }
    }

    /// The content of the first choice's message in an LLM response.
    pub fn extract_content(value: &serde_json::Value) -> (res: Option<&str>)
        ensures
            match res {
                Some(s) => choice_content(json_tree(*value)) == Some(s@),
                None => choice_content(json_tree(*value)) is None,
            },
    {
        let k_choices = "choices";
        let k_message = "message";
        let k_content = "content";
        proof {
            reveal_strlit("choices");
            reveal_strlit("message");
            reveal_strlit("content");
            assert(k_choices@ =~= seq!['c', 'h', 'o', 'i', 'c', 'e', 's']);
            assert(k_message@ =~= seq!['m', 'e', 's', 's', 'a', 'g', 'e']);
            assert(k_content@ =~= seq!['c', 'o', 'n', 't', 'e', 'n', 't']);
        }
        let choices = json_get(value, k_choices)?;
        let first = json_index(choices, 0)?;
        let message = json_get(first, k_message)?;
        let content = json_get(message, k_content)?;
        json_as_str(content)
    }

    /// The content of the first choice's message, read field by field with
    /// the names of `Ai`; the same answer as `extract_content`.
    pub fn extract_content_old(value: &serde_json::Value) -> (res: Option<&str>)
        ensures
            match res {
                Some(s) => choice_content(json_tree(*value)) == Some(s@),
                None => choice_content(json_tree(*value)) is None,
            },
    {
        proof {
            reveal_strlit("choices");
            reveal_strlit("message");
            reveal_strlit("content");
            assert(Ai::CHOICES@ =~= seq!['c', 'h', 'o', 'i', 'c', 'e', 's']);
            assert(Ai::MESSAGE@ =~= seq!['m', 'e', 's', 's', 'a', 'g', 'e']);
            assert(Ai::CONTENT@ =~= seq!['c', 'o', 'n', 't', 'e', 'n', 't']);
        }
        match json_get(value, Ai::CHOICES) {
            Some(choices) => match json_index(choices, 0) {
                Some(first) => match json_get(first, Ai::MESSAGE) {
                    Some(message) => match json_get(message, Ai::CONTENT) {
                        Some(content) => json_as_str(content),
                        None => None,
                    },
                    None => None,
                },
                None => None,
            },
            None => None,
        }
    }

    /// Parses the model's answer text and returns its redactions as
    /// (original, replacement) pairs; a full mask that the system prompt does
    /// not define is left out.
    pub fn parse_redactions(&self, content: &str) -> (res: Option<Vec<(String, String)>>)
        ensures
            match res {
                Some(r) => redactions_in(content@, self.valid_view()) == Some(
                    redaction_pairs(r@),
                ),
                None => redactions_in(content@, self.valid_view()) is None,
            },
    {
        match parse_json(content) {
            Ok(parsed) => self.redactions_of_parsed(&parsed),
            Err(_) => None,
        }
    }

    /// The redactions that a parsed answer lists, as (original,
    /// replacement) pairs; a full mask that the system prompt does not
    /// define is left out; none when the answer has no `redactions` object.
    pub fn redactions_of_parsed(&self, parsed: &serde_json::Value) -> (res: Option<Vec<(String, String)>>)
        ensures
            match res {
                Some(r) => redactions_of_tree(json_tree(*parsed), self.valid_view()) == Some(
                    redaction_pairs(r@),
                ),
                None => redactions_of_tree(json_tree(*parsed), self.valid_view()) is None,
            },
    {
        let key = "redactions";
        proof {
            reveal_strlit("redactions");
            assert(key@ =~= redactions_key());
        }
        let table = json_get(parsed, key)?;
        let entries = json_entries(table)?;
        let ghost es = match json_tree(*table) {
            JsonTree::Object(es) => es,
            _ => Seq::empty(),
        };
        let ghost valid = self.valid_view();
        let mut result: Vec<(String, String)> = Vec::new();
        let mut i: usize = 0;
        while i < entries.len()
            invariant
                i <= entries.len(),
                entries@.len() == es.len(),
                valid == self.valid_view(),
                forall|t: int|
                    0 <= t < es.len() ==> (#[trigger] entries@[t]).0@ == es[t].0 && json_tree(
                        *entries@[t].1,
                    ) == es[t].1,
                redaction_pairs(result@) == collect_redactions(es.take(i as int), valid),
            decreases entries.len() - i,
        {
            let ghost next = es.take(i + 1);
            assert(next.drop_last() =~= es.take(i as int));
            assert(next.last() == es[i as int]);
            let maybe_key = &entries[i].0;
            if let Some(maybe_value) = json_as_str(entries[i].1) {
                let (key, replace_with) = check_or_swap(maybe_key.as_str(), maybe_value);
                let keep = match &self.valid_redactions {
                    Some(vr) => !bracketed(replace_with) || contains_string(vr, replace_with),
                    None => true,
                };
                if keep {
                    insert_pair(&mut result, key, replace_with);
                }
            }
            i += 1;
        }
        assert(es.take(entries.len() as int) =~= es);
        Some(result)
    }

    /// The redactions of an LLM response; none when the response has no
    /// readable answer.
    pub fn redactions(&self, value: &serde_json::Value) -> (res: Vec<(String, String)>)
        ensures
            redaction_pairs(res@) == redactions_for(json_tree(*value), self.valid_view()),
    {
        if let Some(content) = Self::extract_content(value) {
            if let Some(redactions) = self.parse_redactions(content) {
                return redactions;
            }
        }
        let empty: Vec<(String, String)> = Vec::new();
        assert(redaction_pairs(empty@) =~= Seq::<(Seq<char>, Seq<char>)>::empty());
        empty
    }

    /// What follows the call of the language model for one parsed log: with
    /// an answer, the log is rewritten with its redactions (if there are
    /// any) and the result is `Success`, after which the log is saved; without
    /// one the log stays as it is and the result is `Error`.
    pub fn process_response(
        &self,
        log: &mut Vec<SessionLogEntry>,
        response: Option<&serde_json::Value>,
    ) -> (res: ProcessResult)
        ensures
            match response {
                Some(r) => res == ProcessResult::Success && ({
                    let rs = redactions_for(json_tree(*r), self.valid_view());
                    if rs.len() == 0 {
                        final(log)@ == old(log)@
                    } else {
                        log_updated(old(log)@, final(log)@, rs)
                    }
                }),
                None => res == ProcessResult::Error && final(log)@ == old(log)@,
            },
    {
        match response {
            Some(r) => {
                let redacts = self.redactions(r);
                if redacts.len() > 0 {
                    self.update_log(log, &redacts);
                }
                ProcessResult::Success
            },
            None => ProcessResult::Error,
        }
    }
}

/// Whether the text is wrapped in square brackets.
fn bracketed(s: &str) -> (res: bool)
    ensures
        res == is_bracketed(s@),
{
    let c = chars_of(s);
    c.len() > 0 && c[0] == '[' && c[c.len() - 1] == ']'
}

/// Maps `key` to `value` in the pairs: replaces the value of the pair with
/// that key, or appends a new pair.
fn insert_pair(m: &mut Vec<(String, String)>, key: &str, value: &str)
    ensures
        redaction_pairs(final(m)@) == map_insert(redaction_pairs(old(m)@), key@, value@),
{
    let k = chars_of(key);
    let ghost pairs = redaction_pairs(m@);
    let mut i: usize = 0;
    while i < m.len()
        invariant
            i <= m.len(),
            k@ == key@,
            m@ == old(m)@,
            pairs == redaction_pairs(m@),
            forall|t: int| 0 <= t < i ==> m@[t].0@ != key@,
        decreases m.len() - i,
    {
        let c = chars_of(m[i].0.as_str());
        if eq_chars(c.as_slice(), k.as_slice()) {
            proof {
                assert forall|t: int| 0 <= t < i implies pairs[t].0 != key@ by {
                    assert(pairs[t] == (m@[t].0@, m@[t].1@));
                }
                assert(pairs[i as int] == (m@[i as int].0@, m@[i as int].1@));
                lemma_pair_index_first(pairs, key@, i as int);
            }
            m.set(i, (String::from_str(key), String::from_str(value)));
            assert(redaction_pairs(m@) =~= pairs.update(i as int, (key@, value@)));
            return;
        }
        i += 1;
    }
    proof {
        assert forall|t: int| 0 <= t < pairs.len() implies pairs[t].0 != key@ by {
            assert(pairs[t] == (m@[t].0@, m@[t].1@));
        }
        lemma_pair_index_none(pairs, key@);
    }
    m.push((String::from_str(key), String::from_str(value)));
    assert(redaction_pairs(m@) =~= pairs.push((key@, value@)));
}

/// When the first pair with key `k` is at `i`, `pair_index` finds it.
proof fn lemma_pair_index_first(m: Seq<(Seq<char>, Seq<char>)>, k: Seq<char>, i: int)
    requires
        0 <= i < m.len(),
        m[i].0 == k,
        forall|t: int| 0 <= t < i ==> m[t].0 != k,
    ensures
        pair_index(m, k) == Some(i),
    decreases m.len(),
{
    if i < m.len() - 1 {
        lemma_pair_index_first(m.drop_last(), k, i);
    } else {
        lemma_pair_index_none(m.drop_last(), k);
    }
}

/// Without a pair with key `k`, `pair_index` finds none.
proof fn lemma_pair_index_none(m: Seq<(Seq<char>, Seq<char>)>, k: Seq<char>)
    requires
        forall|t: int| 0 <= t < m.len() ==> m[t].0 != k,
    ensures
        pair_index(m, k) is None,
    decreases m.len(),
{
    if m.len() > 0 {
        lemma_pair_index_none(m.drop_last(), k);
    }
}

/// No two pairs have the same key.
pub open spec fn keys_distinct(m: Seq<(Seq<char>, Seq<char>)>) -> bool {
    forall|i: int, j: int| 0 <= i < j < m.len() ==> m[i].0 != m[j].0
}

/// What `pair_index` finds is a pair with that key; when it finds none,
/// no pair has it.
proof fn lemma_pair_index(m: Seq<(Seq<char>, Seq<char>)>, k: Seq<char>)
    ensures
        pair_index(m, k) matches Some(i) ==> 0 <= i < m.len() && m[i].0 == k,
        pair_index(m, k) is None ==> forall|t: int| 0 <= t < m.len() ==> m[t].0 != k,
    decreases m.len(),
{
    if m.len() > 0 {
        let d = m.drop_last();
        lemma_pair_index(d, k);
        if pair_index(m, k) is None {
            assert forall|t: int| 0 <= t < m.len() implies m[t].0 != k by {
                if t < d.len() {
                    assert(m[t] == d[t]);
                }
            }
        }
    }
}

/// The redactions taken from the model's table never carry a full mask that
/// the system prompt does not define, and no original text is redacted
/// twice.
pub proof fn law_redactions_accepted(es: Seq<(Seq<char>, JsonTree)>, valid: Option<Seq<Seq<char>>>)
    ensures
        forall|i: int|
            0 <= i < collect_redactions(es, valid).len() ==> accepted(
                valid,
                #[trigger] collect_redactions(es, valid)[i].1,
            ),
        keys_distinct(collect_redactions(es, valid)),
    decreases es.len(),
{
    if es.len() > 0 {
        let prev = collect_redactions(es.drop_last(), valid);
        law_redactions_accepted(es.drop_last(), valid);
        if let Some(s) = tree_str(es.last().1) {
            let p = ordered_pair(es.last().0, s);
            if accepted(valid, p.1) {
                lemma_pair_index(prev, p.0);
                let r = map_insert(prev, p.0, p.1);
                assert(r == collect_redactions(es, valid));
                assert forall|i: int| 0 <= i < r.len() implies accepted(valid, #[trigger] r[i].1) by {
                    if i < prev.len() && r[i] != (p.0, p.1) {
                        assert(r[i] == prev[i]);
                    }
                }
                assert forall|i: int, j: int| 0 <= i < j < r.len() implies r[i].0 != r[j].0 by {
                    if j < prev.len() {
                        if pair_index(prev, p.0) is None {
                            assert(r[i] == prev[i] && r[j] == prev[j]);
                        } else {
                            let t = pair_index(prev, p.0)->0;
                            if i != t && j != t {
                                assert(r[i] == prev[i] && r[j] == prev[j]);
                            } else if i == t {
                                assert(r[j] == prev[j]);
                            } else {
                                assert(r[i] == prev[i]);
                            }
                        }
                    } else {
                        assert(r[i] == prev[i]);
                    }
                }
            }
        }
    }
}

} // verus!
