//! Logging support: log levels, correlation and trace ids, and redaction
//! of what must not reach a log.

pub mod advanced;

use crate::codec::{is_uuid_v4_text, uuid_v4_text};
use crate::text::{append, decimal, owned, u64_to_string};
use vstd::prelude::*;

verus! {

/// The levels of log records.
#[derive(Debug, Clone, Copy, PartialEq, Eq, Structural)]
pub enum LogLevel {
    Trace,
    Debug,
    Info,
    Warn,
    Error,
}

/// The name of a level, as filters write it.
pub open spec fn level_name(l: LogLevel) -> Seq<char> {
    match l {
        LogLevel::Trace => "trace"@,
        LogLevel::Debug => "debug"@,
        LogLevel::Info => "info"@,
        LogLevel::Warn => "warn"@,
        LogLevel::Error => "error"@,
    }
}

impl LogLevel {
    /// The level's name.
    pub fn as_str(&self) -> (s: &'static str)
        ensures
            s@ == level_name(*self),
    {
        match self {
            LogLevel::Trace => "trace",
            LogLevel::Debug => "debug",
            LogLevel::Info => "info",
            LogLevel::Warn => "warn",
            LogLevel::Error => "error",
        }
    }
}

/// The correlation id numbered `n`: `corr_<n>`.
pub fn correlation_id_for(n: u64) -> (s: String)
    ensures
        s@ == "corr_"@ + decimal(n as nat),
{
    let mut s = owned("corr_");
    let digits = u64_to_string(n);
    append(&mut s, digits.as_str());
    s
}

/// The next correlation id from `counter`, which moves on by one (wrapping
/// around as an atomic counter does).
pub fn generate_correlation_id(counter: &mut u64) -> (s: String)
    ensures
        s@ == "corr_"@ + decimal(*old(counter) as nat),
        *final(counter) == (if *old(counter) == u64::MAX { 0 } else { (*old(counter) + 1) as u64 }),
{
    let n = *counter;
    *counter = n.wrapping_add(1);
    correlation_id_for(n)
}

/// A fresh trace id: a random version 4 UUID in hyphenated form.
pub fn generate_trace_id() -> (s: String)
    ensures
        is_uuid_v4_text(s@),
{
    uuid_v4_text()
}

/// The trace id of the current span: none is tracked.
pub fn get_current_trace_id() -> (r: Option<String>)
    ensures
        r is None,
{
    None
}

/// Stands in for a value that must not be logged.
pub fn redact<T>(value: T) -> (s: String)
    ensures
        s@ == "[REDACTED]"@,
{
    owned("[REDACTED]")
}

} // verus!
