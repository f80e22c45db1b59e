//! Control messages between an agent and its client.

use vstd::prelude::*;
use vstd::string::*;

verus! {

/// How much an agent reports.
#[derive(Debug, Clone, Copy, PartialEq, Eq, Structural)]
pub enum LogLevel {
    Error,
    Warn,
    Info,
    Debug,
    Trace,
}

impl LogLevel {
    /// The name of the level.
    pub open spec fn name_spec(self) -> Seq<char> {
        match self {
            LogLevel::Error => "error"@,
            LogLevel::Warn => "warn"@,
            LogLevel::Info => "info"@,
            LogLevel::Debug => "debug"@,
            LogLevel::Trace => "trace"@,
        }
    }

    /// The name of the level, which is also a log filter.
    pub fn name(&self) -> (n: &'static str)
        ensures
            n@ == self.name_spec(),
    {
        match self {
            LogLevel::Error => "error",
            LogLevel::Warn => "warn",
            LogLevel::Info => "info",
            LogLevel::Debug => "debug",
            LogLevel::Trace => "trace",
        }
    }
}

/// The clock that timestamps are taken from.
#[derive(Debug, Clone, Copy, PartialEq, Eq, Structural)]
pub enum TimestampType {
    Monotonic,
    Boottime,
    Realtime,
}

/// A control message.
pub enum ControlMessage {
    Start { buffer_size: u64, log_level: LogLevel, timestamp_type: TimestampType },
    Stop,
    Continue,
    Ack,
    Nack { error: String },
}

} // verus!
