//! Logging decisions and line layout.
//!
//! Whether to log is a flag set once from configuration; what a line
//! looks like — timestamp, level tag, message — is fixed here. Writing
//! the line out, with colors and the current local time, is the
//! caller's business.

use vstd::prelude::*;

verus! {

/// The level of a log line.
#[derive(Clone, Copy, Debug, PartialEq, Eq, Structural)]
pub enum LogKind {
    Info,
    Success,
    Warn,
    Error,
}

/// The logging configuration: silent means nothing is written.
pub struct LogConfig {
    pub silent: bool,
}

impl LogConfig {
    /// A configuration that logs.
    pub fn new() -> (r: LogConfig)
        ensures
            !r.silent,
    {
        LogConfig { silent: false }
    }

    /// Switch logging off or on.
    pub fn set_silent(&mut self, silent: bool)
        ensures
            final(self).silent == silent,
    {
        self.silent = silent;
    }

    /// Whether a log line should be written at all.
    pub fn should_log(&self) -> (r: bool)
        ensures
            r == !self.silent,
    {
        !self.silent
    }
}

/// The four-letter tag of each level.
pub open spec fn spec_kind_label(kind: LogKind) -> Seq<char> {
    match kind {
        LogKind::Info => "INFO"@,
        LogKind::Success => "DONE"@,
        LogKind::Warn => "WARN"@,
        LogKind::Error => "FAIL"@,
    }
}

/// The tag written for a level.
pub fn kind_label(kind: LogKind) -> (r: &'static str)
    ensures
        r@ == spec_kind_label(kind),
{
    match kind {
        LogKind::Info => "INFO",
        LogKind::Success => "DONE",
        LogKind::Warn => "WARN",
        LogKind::Error => "FAIL",
    }
}

/// A full log line: the timestamp and the level tag in brackets, then
/// the message.
pub open spec fn spec_log_line(timestamp: Seq<char>, kind: LogKind, msg: Seq<char>) -> Seq<char> {
    "["@ + timestamp + "] ["@ + spec_kind_label(kind) + "] "@ + msg
}

/// Lay out one log line.
pub fn format_log_line(timestamp: &str, kind: LogKind, msg: &str) -> (r: String)
    ensures
        r@ == spec_log_line(timestamp@, kind, msg@),
{
    let mut s = "[".to_owned();
    s.append(timestamp);
    s.append("] [");
    s.append(kind_label(kind));
    s.append("] ");
    s.append(msg);
    proof {
        assert(s@ =~= spec_log_line(timestamp@, kind, msg@));
    }
    s
}

} // verus!
