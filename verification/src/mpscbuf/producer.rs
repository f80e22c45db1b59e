//! Producers: they reserve room for a record, fill it in and hand it over.

use crate::mpscbuf::error::MpscBufError;
use crate::mpscbuf::header::HEADER_SIZE;
use crate::mpscbuf::plan;
use crate::mpscbuf::plan::{plan_reserve, wakes_consumer, WakeupStrategy};
use crate::mpscbuf::ringbuf;
use crate::mpscbuf::ringbuf::{EntryState, RingBuf, RingState};
use vstd::prelude::*;

verus! {

/// A producer of records.
pub struct Producer {
    wakeup_strategy: WakeupStrategy,
}

impl Producer {
    /// When this producer wakes the consumer up.
    pub closed spec fn strategy(self) -> WakeupStrategy {
        self.wakeup_strategy
    }

    /// A producer that wakes the consumer up only where it stands at the finished record.
    pub fn new() -> (p: Producer)
        ensures
            p.strategy() == WakeupStrategy::SelfPacing,
    {
        Self::with_wakeup_strategy(WakeupStrategy::SelfPacing)
    }

    /// A producer that wakes the consumer up as `wakeup_strategy` says.
    pub fn with_wakeup_strategy(wakeup_strategy: WakeupStrategy) -> (p: Producer)
        ensures
            p.strategy() == wakeup_strategy,
    {
        Producer { wakeup_strategy }
    }

    /// Reserves room for a record of `size` bytes behind the last one. All records that are in
    /// the ring stay as they are; where there is no room, so does the ring.
    pub fn reserve(&self, ring: &mut RingBuf, size: usize) -> (r: Result<
        ReservedBuffer,
        MpscBufError,
    >)
        requires
            old(ring).wf(),
            size + HEADER_SIZE + 7 <= usize::MAX,
            old(ring)@.producer + plan::span(size as int) <= u64::MAX,
            old(ring)@.producer + plan::span(size as int) - old(ring)@.consumer < old(
                ring,
            )@.capacity ==> size <= u32::MAX,
        ensures
            final(ring).wf(),
            r is Ok <==> old(ring)@.producer + plan::span(size as int) - old(ring)@.consumer < old(
                ring,
            )@.capacity,
            r matches Err(e) ==> *final(ring) == *old(ring) && e
                == MpscBufError::InsufficientSpace(
                (old(ring)@.producer + plan::span(size as int)) as u64,
                old(ring)@.consumer as u64,
                old(ring)@.capacity as u64,
            ),
            r matches Ok(b) ==> {
                let e = final(ring)@.entries.last();
                &&& b.pos() == old(ring)@.producer
                &&& b.len() == size
                &&& b.place() == old(ring)@.producer as u64 & ((old(ring)@.capacity - 1) as u64)
                &&& b.strategy() == self.strategy()
                &&& e.pos == old(ring)@.producer
                &&& e.state is Busy
                &&& e.data.len() == size
                &&& final(ring)@ == (RingState {
                    producer: old(ring)@.producer + plan::span(size as int),
                    entries: old(ring)@.entries.push(e),
                    ..old(ring)@
                })
            },
    {
        proof {
            ring.lemma_wf();
        }
        let pos: u64 = ring.producer_pos();
        match plan_reserve(pos, ring.consumer_pos(), ring.size_mask(), size) {
            Err(e) => Err(e),
            Ok(place) => {
                let offset: u64 = place.offset;
                ring.push_busy(place, size);
                Ok(ReservedBuffer { pos, offset, size, wakeup_strategy: self.wakeup_strategy })
            },
        }
    }
}

/// Room for one record, which its owner fills in and finishes.
pub struct ReservedBuffer {
    pos: u64,
    offset: u64,
    size: usize,
    wakeup_strategy: WakeupStrategy,
}

impl ReservedBuffer {
    /// The record's position in the stream.
    pub closed spec fn pos(self) -> int {
        self.pos as int
    }

    /// Bytes of the record.
    pub closed spec fn len(self) -> int {
        self.size as int
    }

    /// The record's place in the data region.
    pub closed spec fn place(self) -> u64 {
        self.offset
    }

    /// When finishing the record wakes the consumer up.
    pub closed spec fn strategy(self) -> WakeupStrategy {
        self.wakeup_strategy
    }

    /// Whether finishing the record in `ring` wakes the consumer up.
    pub open spec fn wakes(self, ring: RingBuf) -> bool {
        match self.strategy() {
            WakeupStrategy::Forced => true,
            WakeupStrategy::SelfPacing => ring@.consumer as u64 & ((ring@.capacity - 1) as u64)
                == self.place(),
            WakeupStrategy::NoWakeup => false,
        }
    }

    /// Bytes of the record.
    pub fn size(&self) -> (size: usize)
        ensures
            size == self.len(),
    {
        self.size
    }

    /// Fills the whole record in.
    pub fn copy_from_slice(&self, ring: &mut RingBuf, data: &[u8])
        requires
            old(ring).wf(),
            ringbuf::has_busy(old(ring)@.entries, self.pos(), self.len()),
            data@.len() == self.len(),
        ensures
            final(ring).wf(),
            ({
                let at = ringbuf::index_at(old(ring)@.entries, self.pos());
                final(ring)@ == (RingState {
                    entries: old(ring)@.entries.update(
                        at,
                        old(ring)@.entries[at].with_data(data@),
                    ),
                    ..old(ring)@
                })
            }),
    {
        ring.fill(self.pos, data);
    }

    /// Gives the record up. Tells whether to wake the consumer up.
    pub fn discard(self, ring: &mut RingBuf) -> (wake: bool)
        requires
            old(ring).wf(),
            ringbuf::has_busy(old(ring)@.entries, self.pos(), self.len()),
        ensures
            final(ring).wf(),
            wake == self.wakes(*old(ring)),
            ({
                let at = ringbuf::index_at(old(ring)@.entries, self.pos());
                final(ring)@ == (RingState {
                    entries: old(ring)@.entries.update(
                        at,
                        old(ring)@.entries[at].with_state(EntryState::Discarded),
                    ),
                    ..old(ring)@
                })
            }),
    {
        ring.finish(self.pos, Ghost(self.size as int), true);
        wakes_consumer(self.wakeup_strategy, ring.consumer_pos(), ring.size_mask(), self.offset)
    }

    /// Hands the record over. Tells whether to wake the consumer up.
    pub fn commit(self, ring: &mut RingBuf) -> (wake: bool)
        requires
            old(ring).wf(),
            ringbuf::has_busy(old(ring)@.entries, self.pos(), self.len()),
        ensures
            final(ring).wf(),
            wake == self.wakes(*old(ring)),
            ({
                let at = ringbuf::index_at(old(ring)@.entries, self.pos());
                final(ring)@ == (RingState {
                    entries: old(ring)@.entries.update(
                        at,
                        old(ring)@.entries[at].with_state(EntryState::Committed),
                    ),
                    ..old(ring)@
                })
            }),
    {
        ring.finish(self.pos, Ghost(self.size as int), false);
        wakes_consumer(self.wakeup_strategy, ring.consumer_pos(), ring.size_mask(), self.offset)
    }
}

} // verus!
