//! Reading the `OPERATORS` table of a text as a JSON value.

use crate::json::{json_tree, parse_json, parsed_json, JsonTree};
use crate::pattern::{capture_group, regex_capture, regex_replaced, replace_matches, Capture, CaptureSpec};
use vstd::prelude::*;
use vstd::string::*;

verus! {

/// The pattern of the `OPERATORS = { ... }` table, the table in group one.
pub open spec fn table_pattern() -> Seq<char> {
    seq!['O', 'P', 'E', 'R', 'A', 'T', 'O', 'R', 'S', '\\', 's', '*', '=', '\\', 's', '*', '(', '\\', '{', '[', '\\', 's', '\\', 'S', ']', '*', '?', '\\', 'n', '\\', '}', ')']
}

/// The pattern of a comma before a closing brace or the end.
pub open spec fn comma_pattern() -> Seq<char> {
    seq![',', '\\', 's', '*', '(', '\\', '}', '|', '$', ')']
}

/// The start of the message for a pattern that does not compile.
pub open spec fn compile_failed() -> Seq<char> {
    seq!['F', 'a', 'i', 'l', 'e', 'd', ' ', 't', 'o', ' ', 'c', 'o', 'm', 'p', 'i', 'l', 'e', ' ', 'r', 'e', 'g', 'e', 'x', ':', ' ']
}

/// The message for a text without the table.
pub open spec fn not_found() -> Seq<char> {
    seq!['O', 'P', 'E', 'R', 'A', 'T', 'O', 'R', 'S', ' ', 'f', 'r', 'a', 'g', 'm', 'e', 'n', 't', ' ', 'n', 'o', 't', ' ', 'f', 'o', 'u', 'n', 'd', ' ', 'i', 'n', ' ', 't', 'h', 'e', ' ', 't', 'e', 'x', 't', '.']
}

/// The message for a match without the table.
pub open spec fn not_captured() -> Seq<char> {
    seq!['F', 'a', 'i', 'l', 'e', 'd', ' ', 't', 'o', ' ', 'c', 'a', 'p', 't', 'u', 'r', 'e', ' ', 't', 'h', 'e', ' ', 'O', 'P', 'E', 'R', 'A', 'T', 'O', 'R', 'S', ' ', 'c', 'o', 'n', 't', 'e', 'n', 't', '.']
}

/// The start of the message for a comma pattern that does not compile.
pub open spec fn comma_compile_failed() -> Seq<char> {
    seq!['F', 'a', 'i', 'l', 'e', 'd', ' ', 't', 'o', ' ', 'c', 'o', 'm', 'p', 'i', 'l', 'e', ' ', 't', 'r', 'a', 'i', 'l', 'i', 'n', 'g', ' ', 'c', 'o', 'm', 'm', 'a', ' ', 'r', 'e', 'g', 'e', 'x', ':', ' ']
}

/// The start of the message for a table that is not JSON.
pub open spec fn parse_failed() -> Seq<char> {
    seq!['F', 'a', 'i', 'l', 'e', 'd', ' ', 't', 'o', ' ', 'p', 'a', 'r', 's', 'e', ' ', 'J', 'S', 'O', 'N', ' ', 'f', 'r', 'a', 'g', 'm', 'e', 'n', 't', ':', ' ']
}

/// What reading the table gives: its JSON tree, or the error message.
pub open spec fn operators_fragment(text: Seq<char>) -> Result<JsonTree, Seq<char>> {
    match regex_capture(table_pattern(), text, 1) {
        CaptureSpec::Invalid(e) => Err(compile_failed() + e),
        CaptureSpec::NoMatch => Err(not_found()),
        CaptureSpec::Unset => Err(not_captured()),
        CaptureSpec::Found(raw) => match regex_replaced(comma_pattern(), raw, seq!['$', '1']) {
            Err(e) => Err(comma_compile_failed() + e),
            Ok(clean) => match parsed_json(clean) {
                Ok(t) => Ok(t),
                Err(e) => Err(parse_failed() + e),
            },
        },
    }
}

/// A message made of a fixed start and a detail.
fn message(start: &str, detail: &str) -> (res: String)
    ensures
        res@ == start@ + detail@,
{
    let mut m = String::from_str(start);
    m.append(detail);
    m
}

/// Extracts the `OPERATORS = { ... }` table from the text, removes the
/// commas before closing braces and parses it as JSON; the error says which
/// step failed.
pub fn extract_and_parse_operators_fragment(text: &str) -> (res: Result<serde_json::Value, String>)
    ensures
        match res {
            Ok(v) => operators_fragment(text@) == Ok::<JsonTree, Seq<char>>(json_tree(v)),
            Err(e) => operators_fragment(text@) == Err::<JsonTree, Seq<char>>(e@),
        },
{
    let pattern = "OPERATORS\\s*=\\s*(\\{[\\s\\S]*?\\n\\})";
    let comma = ",\\s*(\\}|$)";
    let rep = "$1";
    let m1 = "Failed to compile regex: ";
    let m2 = "OPERATORS fragment not found in the text.";
    let m3 = "Failed to capture the OPERATORS content.";
    let m4 = "Failed to compile trailing comma regex: ";
    let m5 = "Failed to parse JSON fragment: ";
    proof {
        reveal_strlit("OPERATORS\\s*=\\s*(\\{[\\s\\S]*?\\n\\})");
        reveal_strlit(",\\s*(\\}|$)");
        reveal_strlit("$1");
        reveal_strlit("Failed to compile regex: ");
        reveal_strlit("OPERATORS fragment not found in the text.");
        reveal_strlit("Failed to capture the OPERATORS content.");
        reveal_strlit("Failed to compile trailing comma regex: ");
        reveal_strlit("Failed to parse JSON fragment: ");
        assert(pattern@ =~= table_pattern());
        assert(comma@ =~= comma_pattern());
        assert(rep@ =~= seq!['$', '1']);
        assert(m1@ =~= compile_failed());
        assert(m2@ =~= not_found());
        assert(m3@ =~= not_captured());
        assert(m4@ =~= comma_compile_failed());
        assert(m5@ =~= parse_failed());
    }
    let raw = match capture_group(pattern, text, 1) {
        Capture::Invalid(e) => return Err(message(m1, e.as_str())),
        Capture::NoMatch => return Err(String::from_str(m2)),
        Capture::Unset => return Err(String::from_str(m3)),
        Capture::Found(s) => s,
    };
    let clean = match replace_matches(comma, raw.as_str(), rep) {
        Err(e) => return Err(message(m4, e.as_str())),
        Ok(c) => c,
    };
    match parse_json(clean.as_str()) {
        Ok(v) => Ok(v),
        Err(e) => Err(message(m5, e.as_str())),
    }
}

} // verus!
