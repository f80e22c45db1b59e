//! A ring buffer for many producers and one consumer.
//!
//! Records lie one after the other in a power-of-two sized data region that is mapped twice in a
//! row, so that a record which reaches past the end of the region is still contiguous.

pub mod consumer;
pub mod delivery;
pub mod error;
pub mod header;
pub mod laws;
pub mod memory;
pub mod plan;
pub mod producer;
pub mod ringbuf;

pub use consumer::{Consumer, ConsumerIter, Record};
pub use error::MpscBufError;
pub use header::{round_up_to_8, RecordHeader, BUSY_FLAG, DISCARD_FLAG, HEADER_SIZE};
pub use memory::Memory;
pub use plan::WakeupStrategy;
pub use producer::{Producer, ReservedBuffer};
pub use ringbuf::RingBuf;
