//! The log emitter: one-way messages with a severity level.
//!
//! The boundary call is fire and forget — no return value, no failure
//! signalled — and carries the severity as a small integer beside a
//! packed reference to the message bytes.

use vstd::prelude::*;
use crate::host::Host;

verus! {

/// The severity of a log line.
#[derive(Clone, Copy, Debug, PartialEq, Eq, Structural)]
pub enum LogLevel {
    Error,
    Warn,
    Info,
    Debug,
    Trace,
}

/// The integer code under which a severity crosses the boundary.
pub open spec fn spec_level_code(level: LogLevel) -> u32 {
    match level {
        LogLevel::Error => 0,
        LogLevel::Warn => 1,
        LogLevel::Info => 2,
        LogLevel::Debug => 3,
        LogLevel::Trace => 4,
    }
}

/// Encodes a severity as its boundary code.
pub fn level_code(level: LogLevel) -> (code: u32)
    ensures
        code == spec_level_code(level),
{
    match level {
        LogLevel::Error => 0,
        LogLevel::Warn => 1,
        LogLevel::Info => 2,
        LogLevel::Debug => 3,
        LogLevel::Trace => 4,
    }
}

/// Emits one log line: the severity code and the message, appended to
/// the host's log in program order.
pub fn log_message(host: &mut Host, level: LogLevel, message: &str)
    ensures
        final(host).log_model() == old(host).log_model().push((
            spec_level_code(level),
            message@,
        )),
        final(host).same_records(*old(host)),
        final(host).same_resources(*old(host)),
        final(host).same_tables(*old(host)),
{
    host.host_log(level_code(level), message);
}

} // verus!
