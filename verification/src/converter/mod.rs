//! Turning events into the packets of a trace.

pub mod interned_data_iter;
pub mod laws;
pub mod perfetto;
pub mod placement;
pub mod profiler;
pub mod steps;
pub mod tracks;

pub use interned_data_iter::{
    CallstackIterable, FrameIterable, InternedDataIterable, InternedStringIterable,
};
pub use perfetto::PerfettoConverter;
pub use profiler::ProfilerConverter;
