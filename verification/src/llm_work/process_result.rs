//! The outcome of processing one message.

use vstd::prelude::*;

verus! {

/// process result return value
#[derive(Debug, PartialEq, Eq, Structural)]
pub enum ProcessResult {
    /// ok: the log was redacted and is to be saved
    Success,
    /// parsing error
    ParseError,
    /// other erros
    Error,
}

} // verus!
