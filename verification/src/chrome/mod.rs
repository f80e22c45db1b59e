//! Traces in the Chrome trace event format.

pub mod args;
pub mod converter;
pub mod laws;
pub mod types;

pub use args::{ArgValue, Args};
pub use converter::TraceConverter;
pub use types::{
    ChromeTrace, CompleteEvent, CounterEvent, Id, Id2, InstantEvent, InstantScope, LocalId,
    MetadataEvent, MetadataName, Phase, Sample, StackFrame, StackFrames, TraceEvent,
};
