//! Writing traces as a stream of Perfetto packets.

pub mod interned;
pub mod laws;
pub mod model;
pub mod packets;
pub mod sink;
pub mod writer;

pub use interned::{create_callstack_interned_data, create_callstack_interned_next};
pub use model::{create_debug_annotation, DebugAnnotation, DebugValue, InternedData, TracePacket};
pub use sink::{PacketBuffer, PacketSink};
pub use writer::PerfettoStreamWriter;
