//! The channel of serialized events between a process and its client.

use crate::agent::error::AgentError;
use crate::mpscbuf;
use crate::mpscbuf::consumer::Record;
use crate::mpscbuf::header::HEADER_SIZE;
use crate::mpscbuf::plan;
use crate::mpscbuf::ringbuf;
use crate::mpscbuf::ringbuf::{Entry, EntryState, RingBuf, RingState};
use crate::mpscbuf::{MpscBufError, WakeupStrategy};
use vstd::prelude::*;

verus! {

/// Whether there is room for the serialized event `event`.
pub open spec fn has_room(ring: RingState, event: Seq<u8>) -> bool {
    ring.producer + plan::span(event.len() as int) - ring.consumer < ring.capacity
}

/// Whether positions and lengths stay in the range of their numbers where the serialized event
/// `event` is submitted.
pub open spec fn can_submit(ring: RingState, event: Seq<u8>) -> bool {
    &&& event.len() + HEADER_SIZE + 7 <= usize::MAX
    &&& ring.producer + plan::span(event.len() as int) <= u64::MAX
    &&& has_room(ring, event) ==> event.len() <= u32::MAX
}

/// That there is no room for the serialized event `event`.
pub open spec fn no_room(ring: RingState, event: Seq<u8>) -> AgentError {
    AgentError::Mpscbuf(
        MpscBufError::InsufficientSpace(
            (ring.producer + plan::span(event.len() as int)) as u64,
            ring.consumer as u64,
            ring.capacity as u64,
        ),
    )
}

/// Whether to wake the consumer up once an event was submitted.
pub open spec fn wakes(ring: RingState, strategy: WakeupStrategy) -> bool {
    match strategy {
        WakeupStrategy::Forced => true,
        WakeupStrategy::SelfPacing => ring.consumer as u64 & ((ring.capacity - 1) as u64)
            == ring.producer as u64 & ((ring.capacity - 1) as u64),
        WakeupStrategy::NoWakeup => false,
    }
}

/// The ring once the serialized event `event` was submitted: with it as the last record, or with
/// one more event dropped where there is no room for it.
pub open spec fn after_submit(ring: RingState, event: Seq<u8>) -> RingState {
    if has_room(ring, event) {
        RingState {
            producer: ring.producer + plan::span(event.len() as int),
            entries: ring.entries.push(
                Entry { pos: ring.producer, data: event, state: EntryState::Committed },
            ),
            ..ring
        }
    } else {
        RingState { dropped: ring.dropped.wrapping_add(1), ..ring }
    }
}

/// The end that events are submitted to.
pub struct Producer {
    inner: mpscbuf::Producer,
}

impl Producer {
    /// When the consumer is woken up.
    pub closed spec fn strategy(self) -> WakeupStrategy {
        self.inner.strategy()
    }

    /// The end of a channel that `inner` writes to.
    pub fn from_inner(inner: mpscbuf::Producer) -> (p: Producer)
        ensures
            p.strategy() == inner.strategy(),
    {
        Producer { inner }
    }

    /// Submits the serialized event `event`: it becomes the last record in the ring. Where there
    /// is no room for it, it is counted as dropped, and the ring stays as it is else. Tells whether
    /// to wake the consumer up.
    pub fn submit(&self, ring: &mut RingBuf, event: &[u8]) -> (r: Result<bool, AgentError>)
        requires
            old(ring).wf(),
            can_submit(old(ring)@, event@),
        ensures
            final(ring).wf(),
            r is Ok <==> has_room(old(ring)@, event@),
            final(ring)@ == after_submit(old(ring)@, event@),
            r matches Err(e) ==> e == no_room(old(ring)@, event@),
            r matches Ok(wake) ==> wake == wakes(old(ring)@, self.strategy()),
    {
        let ghost n = ring@.entries.len() as int;
        match self.inner.reserve(ring, event.len()) {
            Err(e) => {
                ring.increment_dropped();
                Err(AgentError::Mpscbuf(e))
            },
            Ok(reserved) => {
                proof {
                    assert(ring@.entries[n].pos == reserved.pos());
                    ringbuf::lemma_index_unique(*ring, n);
                }
                reserved.copy_from_slice(ring, event);
                proof {
                    assert(ring@.entries[n].pos == reserved.pos());
                    ringbuf::lemma_index_unique(*ring, n);
                }
                let wake = reserved.commit(ring);
                assert(ring@.entries =~= old(ring)@.entries.push(
                    Entry {
                        pos: old(ring)@.producer,
                        data: event@,
                        state: EntryState::Committed,
                    },
                ));
                Ok(wake)
            },
        }
    }
}

/// The end that events are read from.
pub struct Consumer {
    inner: mpscbuf::Consumer,
}

impl Consumer {
    /// A reading end.
    pub fn new() -> (c: Consumer) {
        Consumer { inner: mpscbuf::Consumer::new() }
    }

    /// The next event, where one is ready. It stays in the ring until it is released.
    pub fn consume(&mut self, ring: &mut RingBuf) -> (r: Option<Record>)
        requires
            old(ring).wf(),
        ensures
            final(ring).wf(),
            ({
                let rest = ringbuf::skip_discarded(old(ring)@.entries);
                &&& final(ring)@ == (RingState {
                    consumer: if rest.len() == 0 {
                        old(ring)@.producer
                    } else {
                        rest[0].pos
                    },
                    entries: rest,
                    ..old(ring)@
                })
                &&& r is Some <==> rest.len() > 0 && rest[0].state is Committed
                &&& r matches Some(record) ==> record.bytes() == rest[0].data && record.end()
                    == rest[0].end()
            }),
    {
        let mut it = self.inner.iter();
        it.next(ring)
    }

    /// How many events are ready to be read.
    pub fn available_records(&self, ring: &RingBuf) -> (n: u64)
        requires
            ring.wf(),
        ensures
            n == ringbuf::deliverable(ring@.entries).len(),
    {
        self.inner.available_records(ring)
    }

    /// Events that were dropped for want of space.
    pub fn dropped(&self, ring: &RingBuf) -> (n: u64)
        ensures
            n == ring@.dropped,
    {
        ring.dropped()
    }
}

} // verus!
