//! Sending a request to the language model: reading its response and
//! deciding when to send it again.

use crate::json::{json_tree, parse_json_slice, parsed_json_bytes, JsonTree};
use vstd::prelude::*;
use vstd::string::*;

verus! {

/// How many times a request is sent before the call gives up.
pub const SEND_ATTEMPTS: u32 = 3;

/// What follows one attempt to send a request.
#[derive(Debug, PartialEq, Eq, Structural)]
pub enum SendStep {
    /// The model answered: the answer is returned
    Done,
    /// No answer: the request is built and sent again, as this attempt
    Retry(u32),
    /// No answer after the last attempt: the call returns none
    GiveUp,
}

/// The step after attempt `attempt` (counted from zero): an answer ends the
/// call; without one the request is sent again until three attempts were
/// made.
pub open spec fn next_step(attempt: u32, answered: bool) -> SendStep {
    if answered {
        SendStep::Done
    } else if attempt + 1 < SEND_ATTEMPTS {
        SendStep::Retry((attempt + 1) as u32)
    } else {
        SendStep::GiveUp
    }
}

/// Decides what follows attempt `attempt` of sending a request.
pub fn after_attempt(attempt: u32, answered: bool) -> (res: SendStep)
    requires
        attempt < SEND_ATTEMPTS,
    ensures
        res == next_step(attempt, answered),
{
    if answered {
        SendStep::Done
    } else if attempt + 1 < SEND_ATTEMPTS {
        SendStep::Retry(attempt + 1)
    } else {
        SendStep::GiveUp
    }
}

/// The attempts made from attempt `attempt` on when the model never
/// answers, following `next_step`.
pub open spec fn attempts_without_answer(attempt: u32) -> nat
    decreases SEND_ATTEMPTS - attempt,
{
    match next_step(attempt, false) {
        SendStep::Retry(n) => if attempt < n {
            1 + attempts_without_answer(n)
        } else {
            1
        },
        _ => 1,
    }
}

/// A request is sent at most `SEND_ATTEMPTS` times: from attempt `attempt`
/// on, when the model never answers, the steps that `after_attempt` decides
/// make `SEND_ATTEMPTS - attempt` attempts and then give up.
pub proof fn law_attempts_bounded(attempt: u32)
    requires
        attempt < SEND_ATTEMPTS,
    ensures
        attempts_without_answer(attempt) == SEND_ATTEMPTS - attempt,
    decreases SEND_ATTEMPTS - attempt,
{
    if attempt + 1 < SEND_ATTEMPTS {
        law_attempts_bounded((attempt + 1) as u32);
    }
}

/// The header with the model gateway's response duration.
pub open spec fn duration_header() -> Seq<char> {
    seq!['x', '-', 'l', 'i', 't', 'e', 'l', 'l', 'm', '-', 'r', 'e', 's', 'p', 'o', 'n', 's', 'e', '-', 'd', 'u', 'r', 'a', 't', 'i', 'o', 'n', '-', 'm', 's']
}

/// The header with the model gateway's overhead.
pub open spec fn overhead_header() -> Seq<char> {
    seq!['x', '-', 'l', 'i', 't', 'e', 'l', 'l', 'm', '-', 'o', 'v', 'e', 'r', 'h', 'e', 'a', 'd', '-', 'd', 'u', 'r', 'a', 't', 'i', 'o', 'n', '-', 'm', 's']
}

/// A header's text, or `0` when it is missing or not text.
pub open spec fn text_or_zero(h: Option<&str>) -> Seq<char> {
    match h {
        Some(s) => s@,
        None => seq!['0'],
    }
}

/// The header's text, or `0`.
fn header_text(h: Option<&str>) -> (res: String)
    ensures
        res@ == text_or_zero(h),
{
    match h {
        Some(s) => String::from_str(s),
        None => {
            proof {
                reveal_strlit("0");
            }
            String::from_str("0")
        },
    }
}

/// What a response of the model gives, from whether its status is a
/// success, the texts of its two duration headers and its body: for a
/// success, the body parsed as JSON (none when it is not JSON) and the two
/// headers recorded as (name, text) pairs, each `0` when missing; for any
/// other status, nothing.
pub fn response_outcome(
    success: bool,
    duration: Option<&str>,
    overhead: Option<&str>,
    body: &[u8],
) -> (res: (Option<serde_json::Value>, Vec<(String, String)>))
    ensures
        !success ==> res.0 is None && res.1@.len() == 0,
        success ==> res.1@.len() == 2 && res.1@[0].0@ == duration_header() && res.1@[0].1@
            == text_or_zero(duration) && res.1@[1].0@ == overhead_header() && res.1@[1].1@
            == text_or_zero(overhead),
        success ==> match res.0 {
            Some(v) => parsed_json_bytes(body@) == Ok::<JsonTree, Seq<char>>(json_tree(v)),
            None => parsed_json_bytes(body@) is Err,
        },
{
    let mut recorded: Vec<(String, String)> = Vec::new();
    if !success {
        return (None, recorded);
    }
    let dur_name = "x-litellm-response-duration-ms";
    let over_name = "x-litellm-overhead-duration-ms";
    proof {
        reveal_strlit("x-litellm-response-duration-ms");
        reveal_strlit("x-litellm-overhead-duration-ms");
        assert(dur_name@ =~= duration_header());
        assert(over_name@ =~= overhead_header());
    }
    recorded.push((String::from_str(dur_name), header_text(duration)));
    recorded.push((String::from_str(over_name), header_text(overhead)));
    let value = match parse_json_slice(body) {
        Ok(v) => Some(v),
        Err(_) => None,
    };
    (value, recorded)
}

} // verus!
