//! What agents and tracers tell each other: events, control messages, and how they are framed.

pub mod control;
pub mod events;
pub mod labels;
pub mod laws;
pub mod writers;

pub use control::{ControlMessage, LogLevel, TimestampType};
pub use events::{Event, ProcessName, SpanEvent, ThreadName};
pub use labels::Labels;
pub use writers::{CountingWriter, OutOfSpaceError, SliceWriter};
