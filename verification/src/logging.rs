//! The level at which the log is installed.

use vstd::prelude::*;

verus! {

/// The levels of `tracing`, from the most to the least verbose.
#[derive(Debug, Clone, Copy, PartialEq, Eq, Structural)]
pub enum LogLevel {
    /// `TRACE`
    Trace,
    /// `DEBUG`
    Debug,
    /// `INFO`
    Info,
    /// `WARN`
    Warn,
    /// `ERROR`
    Error,
}

/// Whether `c` is an ASCII digit.
pub open spec fn is_digit(c: char) -> bool {
    '0' <= c && c <= '9'
}

/// The number that a run of decimal digits writes.
pub open spec fn digits_value(s: Seq<char>) -> nat
    decreases s.len(),
{
    if s.len() == 0 {
        0
    } else {
        digits_value(s.drop_last()) * 10 + ((s.last() as nat) - ('0' as nat)) as nat
    }
}

/// What `str::parse::<usize>` reads: an optional `+` followed by one or
/// more digits whose number fits in a `usize`.
pub open spec fn usize_text(s: Seq<char>) -> Option<nat> {
    let d = if s.len() > 0 && s[0] == '+' {
        s.drop_first()
    } else {
        s
    };
    if d.len() > 0 && (forall|i: int| 0 <= i < d.len() ==> is_digit(#[trigger] d[i]))
        && digits_value(d) <= usize::MAX {
        Some(digits_value(d))
    } else {
        None
    }
}

/// `str::eq_ignore_ascii_case` against a lower-case ASCII word: the same
/// length, and each character equal to the word's or its upper-case form.
pub open spec fn ascii_ci_eq(s: Seq<char>, word: Seq<char>) -> bool {
    &&& s.len() == word.len()
    &&& forall|i: int|
        0 <= i < s.len() ==> (#[trigger] s[i] == word[i] || ('a' <= word[i] && word[i] <= 'z'
            && (s[i] as int) == (word[i] as int) - 32))
}

/// The level that `tracing::Level::from_str` gives for a text: the number
/// 1 to 5 (ERROR to TRACE), or one of the names `error`, `warn`, `info`,
/// `debug`, `trace` in any ASCII case; none otherwise.
pub open spec fn level_from_text(s: Seq<char>) -> Option<LogLevel> {
    match usize_text(s) {
        Some(n) if n == 1 => Some(LogLevel::Error),
        Some(n) if n == 2 => Some(LogLevel::Warn),
        Some(n) if n == 3 => Some(LogLevel::Info),
        Some(n) if n == 4 => Some(LogLevel::Debug),
        Some(n) if n == 5 => Some(LogLevel::Trace),
        _ => if ascii_ci_eq(s, seq!['e', 'r', 'r', 'o', 'r']) {
            Some(LogLevel::Error)
        } else if ascii_ci_eq(s, seq!['w', 'a', 'r', 'n']) {
            Some(LogLevel::Warn)
        } else if ascii_ci_eq(s, seq!['i', 'n', 'f', 'o']) {
            Some(LogLevel::Info)
        } else if ascii_ci_eq(s, seq!['d', 'e', 'b', 'u', 'g']) {
            Some(LogLevel::Debug)
        } else if ascii_ci_eq(s, seq!['t', 'r', 'a', 'c', 'e']) {
            Some(LogLevel::Trace)
        } else {
            None
        },
    }
}

/// Calls `str::parse::<tracing::Level>`, which reads a level as
/// `level_from_text` states (from `Level`'s `FromStr`: a number 1 to 5 as
/// `usize` parses it, else a level name compared ignoring ASCII case).
#[verifier::external_body]
fn parse_level(s: &str) -> (res: Option<LogLevel>)
    ensures
        res == level_from_text(s@),
{
    match s.parse::<tracing::Level>() {
        Ok(tracing::Level::TRACE) => Some(LogLevel::Trace),
        Ok(tracing::Level::DEBUG) => Some(LogLevel::Debug),
        Ok(tracing::Level::INFO) => Some(LogLevel::Info),
        Ok(tracing::Level::WARN) => Some(LogLevel::Warn),
        Ok(_) => Some(LogLevel::Error),
        Err(_) => None,
    }
}

/// The level the log is installed at: INFO when none is given, the given
/// one when `tracing` reads it as a level, none when it does not (the
/// caller then reports it and keeps INFO).
pub fn init_level(level_str: Option<&str>) -> (res: Option<LogLevel>)
    ensures
        match level_str {
            Some(s) => res == level_from_text(s@),
            None => res == Some(LogLevel::Info),
        },
{
    match level_str {
        Some(s) => parse_level(s),
        None => Some(LogLevel::Info),
    }
}

} // verus!
