//! The decisions around the cache of the model's answers.

use vstd::prelude::*;

verus! {

/// How one call of the model is answered.
#[derive(Debug, PartialEq, Eq, Structural)]
pub enum CallStep {
    /// The cache holds an answer for the message: it is returned
    Cached,
    /// Caching is on and the cache holds no answer: the request is sent and
    /// an answer that comes back is stored under the message
    SendAndStore,
    /// Caching is off: the request is sent and nothing is stored
    Send,
}

/// The step for a call: with caching on, a cached answer is used and a
/// missing one is fetched and stored; with caching off the request is
/// always sent.
pub open spec fn call_step(cache_enabled: bool, cached: bool) -> CallStep {
    if !cache_enabled {
        CallStep::Send
    } else if cached {
        CallStep::Cached
    } else {
        CallStep::SendAndStore
    }
}

/// Decides how a call is answered, from whether caching is on and whether
/// the cache holds an answer for the message.
pub fn plan_call(cache_enabled: bool, cached: bool) -> (res: CallStep)
    ensures
        res == call_step(cache_enabled, cached),
{
    if !cache_enabled {
        CallStep::Send
    } else if cached {
        CallStep::Cached
    } else {
        CallStep::SendAndStore
    }
}

/// Whether the answer of a sent request is stored in the cache: only when
/// the step stores and an answer came back.
pub fn store_answer(step: &CallStep, answered: bool) -> (res: bool)
    ensures
        res == (*step == CallStep::SendAndStore && answered),
{
    match step {
        CallStep::SendAndStore => answered,
        _ => false,
    }
}

/// An answer goes into the cache only when caching is on, the cache held
/// none for the message, and the model answered; a cached answer is used
/// only when caching is on.
pub proof fn law_cache_only_when_enabled(cache_enabled: bool, cached: bool, answered: bool)
    ensures
        (call_step(cache_enabled, cached) == CallStep::SendAndStore && answered) ==> (cache_enabled
            && !cached),
        call_step(cache_enabled, cached) == CallStep::Cached ==> cache_enabled && cached,
        !cache_enabled ==> call_step(cache_enabled, cached) == CallStep::Send,
{
}

} // verus!
