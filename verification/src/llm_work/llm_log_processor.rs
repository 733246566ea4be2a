//! The state of the redaction of session logs.

use vstd::prelude::*;

verus! {

/// What the redactor needs to turn a session log into a redacted one: the
/// system prompt and model sent to the language model, and the masks that
/// the prompt allows (when it lists any).
pub struct LlmLogProcessor {
    /// The system prompt
    pub system_prompt: String,
    /// The model name
    pub model: String,
    /// The full masks, such as `[PERSON]`, that the system prompt defines;
    /// no mask occurs twice
    pub valid_redactions: Option<Vec<String>>,
}

/// Redactions in the order in which they are applied: pairs of the original
/// text and its replacement.
pub type Redactions = Vec<(String, String)>;

/// The redactions as pairs of character sequences.
pub open spec fn redaction_pairs(rs: Seq<(String, String)>) -> Seq<(Seq<char>, Seq<char>)> {
    rs.map_values(|p: (String, String)| (p.0@, p.1@))
}

} // verus!
