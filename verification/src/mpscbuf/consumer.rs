//! The consumer: it reads the records in the order in which they were reserved.

use crate::mpscbuf::header;
use crate::mpscbuf::header::{BUSY_FLAG, DISCARD_FLAG};
use crate::mpscbuf::plan;
use crate::mpscbuf::plan::{consume_step, next_header, ConsumeStep};
use crate::mpscbuf::ringbuf;
use crate::mpscbuf::ringbuf::{Entry, EntryState, RingBuf, RingState};
use vstd::prelude::*;

verus! {

/// A record that the consumer received. It stays in the ring until it is released.
pub struct Record {
    data: Vec<u8>,
    next: u64,
}

impl Record {
    /// The record's bytes.
    pub closed spec fn bytes(self) -> Seq<u8> {
        self.data@
    }

    /// The position behind the record.
    pub closed spec fn end(self) -> int {
        self.next as int
    }

    /// The record's bytes.
    pub fn as_slice(&self) -> (s: &[u8])
        ensures
            s@ == self.bytes(),
    {
        self.data.as_slice()
    }

    /// Lets go of the record: the consumer moves behind it.
    pub fn release(self, ring: &mut RingBuf) -> (data: Vec<u8>)
        requires
            old(ring).wf(),
            old(ring)@.entries.len() > 0,
            old(ring)@.entries[0].end() == self.end(),
        ensures
            data@ == self.bytes(),
            final(ring).wf(),
            final(ring)@ == (RingState {
                consumer: self.end(),
                entries: old(ring)@.entries.drop_first(),
                ..old(ring)@
            }),
    {
        ring.advance_consumer(self.next);
        self.data
    }
}

/// What the header word of a record tells its reader.
proof fn read_word(e: Entry)
    requires
        e.data.len() <= u32::MAX,
    ensures
        header::word_len(e.word()) == e.data.len(),
        header::word_flags(e.word()) & BUSY_FLAG != 0 <==> e.state is Busy,
        header::word_flags(e.word()) & DISCARD_FLAG != 0 <==> e.state is Discarded,
{
    header::header_word_round_trip(e.data.len() as u32, e.flags());
    assert(0x8000_0000u32 & 0x8000_0000u32 != 0) by (bit_vector);
    assert(0x8000_0000u32 & 0x4000_0000u32 == 0) by (bit_vector);
    assert(0x4000_0000u32 & 0x8000_0000u32 == 0) by (bit_vector);
    assert(0x4000_0000u32 & 0x4000_0000u32 != 0) by (bit_vector);
    assert(0u32 & 0x8000_0000u32 == 0) by (bit_vector);
    assert(0u32 & 0x4000_0000u32 == 0) by (bit_vector);
}

/// Reads the records of a ring buffer one by one.
pub struct ConsumerIter {}

impl ConsumerIter {
    /// The next record, where one is ready: records that were given up are passed over, and one
    /// that is still being filled in holds back all that follow it. The record stays in the ring
    /// until it is released; asked again before that, the same record comes again.
    pub fn next(&mut self, ring: &mut RingBuf) -> (r: Option<Record>)
        requires
            old(ring).wf(),
        ensures
            final(ring).wf(),
            ({
                let rest = ringbuf::skip_discarded(old(ring)@.entries);
                &&& final(ring)@ == (RingState {
                    consumer: if rest.len() == 0 {
                        old(ring)@.producer
                    } else {
                        rest[0].pos
                    },
                    entries: rest,
                    ..old(ring)@
                })
                &&& r is Some <==> rest.len() > 0 && rest[0].state is Committed
                &&& r matches Some(record) ==> record.bytes() == rest[0].data && record.end()
                    == rest[0].end()
            }),
    {
        let ghost rest = ringbuf::skip_discarded(ring@.entries);
        loop
            invariant
                ring.wf(),
                ringbuf::skip_discarded(ring@.entries) == rest,
                rest == ringbuf::skip_discarded(old(ring)@.entries),
                ring@ == (RingState {
                    consumer: ring@.consumer,
                    entries: ring@.entries,
                    ..old(ring)@
                }),
            decreases ring@.entries.len(),
        {
            proof {
                ring.lemma_wf();
            }
            let consumer_pos: u64 = ring.consumer_pos();
            if next_header(consumer_pos, ring.producer_pos(), ring.size_mask()).is_none() {
                proof {
                    if ring@.entries.len() > 0 {
                        assert(ring@.entries[0].end() <= ring@.producer);
                    }
                }
                return None;
            }
            assert(ring@.entries.len() > 0);
            let word: u64 = ring.front_word();
            proof {
                read_word(ring@.entries[0]);
                assert(ring@.entries[0].end() <= ring@.producer);
            }
            match consume_step(consumer_pos, word) {
                ConsumeStep::Wait => {
                    return None;
                },
                ConsumeStep::Deliver(len, next) => {
                    let data: Vec<u8> = ring.front_data(len);
                    return Some(Record { data, next });
                },
                ConsumeStep::Skip(next) => {
                    ring.advance_consumer(next);
                },
            }
        }
    }
}

/// The consumer of a ring buffer.
pub struct Consumer {}

impl Consumer {
    /// A reading end.
    pub fn new() -> (c: Consumer) {
        Consumer {  }
    }

    /// A reader of the records.
    pub fn iter(&self) -> (it: ConsumerIter) {
        ConsumerIter {  }
    }

    /// Bytes of the backing memory of `ring`, the bookkeeping page with it.
    pub fn memory_size(&self, ring: &RingBuf, page_size: usize) -> (size: usize)
        requires
            ring@.capacity + page_size <= usize::MAX,
        ensures
            size == ring@.capacity + page_size,
    {
        ring.data_size() + page_size
    }

    /// How many records are ready to be read.
    pub fn available_records(&self, ring: &RingBuf) -> (n: u64)
        requires
            ring.wf(),
        ensures
            n == ringbuf::deliverable(ring@.entries).len(),
    {
        let ghost all = ring@.entries;
        let ghost mut i: int = 0;
        let mut pos: u64 = ring.consumer_pos();
        let mut n: u64 = 0;
        proof {
            ring.lemma_wf();
        }
        assert(all.skip(0) =~= all);
        while pos < ring.producer_pos()
            invariant
                ring.wf(),
                all == ring@.entries,
                0 <= i <= all.len(),
                pos == (if i < all.len() {
                    all[i].pos
                } else {
                    ring@.producer
                }),
                ring@.consumer + n <= pos,
                n + ringbuf::deliverable(all.skip(i)).len() == ringbuf::deliverable(all).len(),
            decreases ring@.producer - pos,
        {
            proof {
                ring.lemma_wf();
            }
            let word: u64 = ring.record_word(Ghost(i), pos);
            proof {
                read_word(all[i]);
                assert(all.skip(i)[0] == all[i]);
                assert(all.skip(i).drop_first() =~= all.skip(i + 1));
                assert(all[i].end() <= ring@.producer);
                if i + 1 < all.len() {
                    assert(all[i].end() == all[i + 1].pos);
                }
            }
            match consume_step(pos, word) {
                ConsumeStep::Wait => {
                    return n;
                },
                ConsumeStep::Deliver(_, next) => {
                    n += 1;
                    pos = next;
                },
                ConsumeStep::Skip(next) => {
                    pos = next;
                },
            }
            proof {
                i = i + 1;
            }
        }
        proof {
            if i < all.len() {
                assert(all[i].end() <= ring@.producer);
            }
            assert(all.skip(i) =~= seq![]);
        }
        n
    }

    /// Reads and releases all records that are ready, oldest first.
    pub fn drain(&self, ring: &mut RingBuf) -> (out: Vec<Vec<u8>>)
        requires
            old(ring).wf(),
        ensures
            final(ring).wf(),
            out@.len() == ringbuf::deliverable(old(ring)@.entries).len(),
            forall|i: int|
                0 <= i < out@.len() ==> (#[trigger] out@[i])@ == ringbuf::deliverable(
                    old(ring)@.entries,
                )[i],
            final(ring)@.entries == ringbuf::undeliverable(old(ring)@.entries),
            final(ring)@.producer == old(ring)@.producer,
            final(ring)@.capacity == old(ring)@.capacity,
            final(ring)@.dropped == old(ring)@.dropped,
    {
        let ghost all = ringbuf::deliverable(ring@.entries);
        let ghost left = ringbuf::undeliverable(ring@.entries);
        let mut out: Vec<Vec<u8>> = Vec::new();
        let mut it = self.iter();
        loop
            invariant
                ring.wf(),
                ring@.producer == old(ring)@.producer,
                ring@.capacity == old(ring)@.capacity,
                ring@.dropped == old(ring)@.dropped,
                all == ringbuf::deliverable(old(ring)@.entries),
                left == ringbuf::undeliverable(old(ring)@.entries),
                ringbuf::undeliverable(ring@.entries) == left,
                out@.len() + ringbuf::deliverable(ring@.entries).len() == all.len(),
                forall|i: int| 0 <= i < out@.len() ==> (#[trigger] out@[i])@ == all[i],
                forall|i: int|
                    0 <= i < ringbuf::deliverable(ring@.entries).len()
                        ==> #[trigger] ringbuf::deliverable(ring@.entries)[i] == all[out@.len() + i],
            decreases ring@.entries.len(),
        {
            let ghost before = ring@.entries;
            let ghost rest = ringbuf::skip_discarded(before);
            proof {
                ringbuf::lemma_skip_discarded(before);
            }
            match it.next(ring) {
                None => {
                    assert(ringbuf::deliverable(rest).len() == 0);
                    assert(ringbuf::undeliverable(rest) == rest);
                    return out;
                },
                Some(record) => {
                    assert(ringbuf::deliverable(rest) == seq![rest[0].data]
                        + ringbuf::deliverable(rest.drop_first()));
                    let ghost k = out@.len();
                    proof {
                        assert(ringbuf::deliverable(rest)[0] == all[k as int]);
                        assert forall|i: int|
                            0 <= i < ringbuf::deliverable(
                                rest.drop_first(),
                            ).len() implies #[trigger] ringbuf::deliverable(rest.drop_first())[i]
                            == all[k + 1 + i] by {
                            assert(ringbuf::deliverable(rest)[i + 1] == all[k + (i + 1)]);
                        }
                    }
                    let data: Vec<u8> = record.release(ring);
                    out.push(data);
                },
            }
        }
    }
}

} // verus!
