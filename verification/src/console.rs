//! The log of user-facing events.
//!
//! The data sent to the user log need not be machine-readable.  The log
//! renders each event into a timestamped, level-tagged line; the shell tees
//! the rendered lines to standard output (with a color per level) and to
//! the console log file.  A ghost transcript keeps everything ever logged,
//! so the file's content is the transcript, line for line.

use crate::text::ascii_bytes;
use crate::text::dec_bytes;
use crate::text::push_ascii;
use crate::text::push_dec_u64;
use crate::text::push_str_utf8;
use vstd::prelude::*;

verus! {

/// The levels for logging.
#[derive(Debug, Clone, Copy, PartialEq, Eq, Structural)]
pub enum LogLevel {
    /// The lowest log level: random garbage to help the developer debug
    /// their problems.
    Debug,
    /// Information which might be useful to have after an event occurs.
    Info,
    /// Potential problems which are nonfatal.
    Warn,
    /// Absolutely critical information which is fatal to the system.
    Critical,
}

/// The tag of a log level as it appears inside a log line.
pub open spec fn level_bytes(level: LogLevel) -> Seq<u8> {
    match level {
        LogLevel::Debug => ascii_bytes("DEBUG"@),
        LogLevel::Info => ascii_bytes("INFO"@),
        LogLevel::Warn => ascii_bytes("WARN"@),
        LogLevel::Critical => ascii_bytes("CRITICAL"@),
    }
}

/// One rendered log line: `[timestamp] [LEVEL] message`, newline-terminated.
pub open spec fn log_line(timestamp_ns: u64, level: LogLevel, message: Seq<char>) -> Seq<u8> {
    ascii_bytes("["@) + dec_bytes(timestamp_ns as nat) + ascii_bytes("] ["@) + level_bytes(level)
        + ascii_bytes("] "@) + vstd::utf8::encode_utf8(message) + ascii_bytes("\n"@)
}

/// A log for data displayed to the user.
///
/// Each call renders one line and returns it for the shell to print and
/// persist; the ghost transcript accumulates every line in order.
pub struct UserLog {
    /// Everything ever logged, in order.
    transcript: Ghost<Seq<u8>>,
}

impl UserLog {
    /// Everything ever logged through this log, in order.
    pub closed spec fn transcript(&self) -> Seq<u8> {
        self.transcript@
    }

    /// Construct a new `UserLog` with an empty transcript.
    #[must_use]
    pub fn new() -> (log: UserLog)
        ensures
            log.transcript() == Seq::<u8>::empty(),
    {
        let ghost transcript = Seq::<u8>::empty();
        UserLog { transcript: Ghost(transcript) }
    }

    /// Render one log line and append it to the transcript.
    fn write(&mut self, timestamp_ns: u64, level: LogLevel, message: &str) -> (line: Vec<u8>)
        ensures
            line@ == log_line(timestamp_ns, level, message@),
            final(self).transcript() == old(self).transcript() + line@,
    {
        let mut line: Vec<u8> = Vec::new();
        proof {
            reveal_strlit("[");
            reveal_strlit("] [");
            reveal_strlit("] ");
            reveal_strlit("\n");
            reveal_strlit("DEBUG");
            reveal_strlit("INFO");
            reveal_strlit("WARN");
            reveal_strlit("CRITICAL");
        }
        push_ascii(&mut line, "[");
        push_dec_u64(&mut line, timestamp_ns);
        push_ascii(&mut line, "] [");
        match level {
            LogLevel::Debug => push_ascii(&mut line, "DEBUG"),
            LogLevel::Info => push_ascii(&mut line, "INFO"),
            LogLevel::Warn => push_ascii(&mut line, "WARN"),
            LogLevel::Critical => push_ascii(&mut line, "CRITICAL"),
        }
        push_ascii(&mut line, "] ");
        push_str_utf8(&mut line, message);
        push_ascii(&mut line, "\n");
        proof {
            assert(line@ =~= log_line(timestamp_ns, level, message@));
            self.transcript@ = self.transcript@ + line@;
        }
        line
    }

    /// Log some debug information for the user.
    ///
    /// This information should be unimportant for most users.
    pub fn debug(&mut self, timestamp_ns: u64, message: &str) -> (line: Vec<u8>)
        ensures
            line@ == log_line(timestamp_ns, LogLevel::Debug, message@),
            final(self).transcript() == old(self).transcript() + line@,
    {
        self.write(timestamp_ns, LogLevel::Debug, message)
    }

    /// Log some information for the user.
    pub fn info(&mut self, timestamp_ns: u64, message: &str) -> (line: Vec<u8>)
        ensures
            line@ == log_line(timestamp_ns, LogLevel::Info, message@),
            final(self).transcript() == old(self).transcript() + line@,
    {
        self.write(timestamp_ns, LogLevel::Info, message)
    }

    /// Write a warning for the user.
    ///
    /// Warnings ought to be non-fatal, but could cause an error in the
    /// future.
    pub fn warn(&mut self, timestamp_ns: u64, message: &str) -> (line: Vec<u8>)
        ensures
            line@ == log_line(timestamp_ns, LogLevel::Warn, message@),
            final(self).transcript() == old(self).transcript() + line@,
    {
        self.write(timestamp_ns, LogLevel::Warn, message)
    }

    /// Log critical information to the user.
    pub fn critical(&mut self, timestamp_ns: u64, message: &str) -> (line: Vec<u8>)
        ensures
            line@ == log_line(timestamp_ns, LogLevel::Critical, message@),
            final(self).transcript() == old(self).transcript() + line@,
    {
        self.write(timestamp_ns, LogLevel::Critical, message)
    }
}

} // verus!
