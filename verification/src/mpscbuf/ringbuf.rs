//! The state of a ring buffer: its memory and the two positions in the stream of records.

use crate::mpscbuf::error::{MpscBufError, EINVAL};
use crate::mpscbuf::header;
use crate::mpscbuf::header::{RecordHeader, BUSY_FLAG, DISCARD_FLAG, HEADER_SIZE};
use crate::mpscbuf::memory;
use crate::mpscbuf::memory::Memory;
use crate::mpscbuf::plan;
use vstd::bytes::*;
use vstd::prelude::*;

verus! {

/// How far a record has come.
pub enum EntryState {
    /// Its producer still fills it in.
    Busy,
    /// Its producer handed it over.
    Committed,
    /// Its producer gave it up.
    Discarded,
}

/// A record that the consumer has not moved past yet.
pub struct Entry {
    /// Its position in the stream.
    pub pos: int,
    /// Its bytes.
    pub data: Seq<u8>,
    /// How far it has come.
    pub state: EntryState,
}

impl Entry {
    /// The position behind the record.
    pub open spec fn end(self) -> int {
        self.pos + plan::span(self.data.len() as int)
    }

    pub open spec fn flags(self) -> u32 {
        match self.state {
            EntryState::Busy => BUSY_FLAG,
            EntryState::Committed => 0,
            EntryState::Discarded => DISCARD_FLAG,
        }
    }

    /// The header word of the record.
    pub open spec fn word(self) -> u64 {
        header::header_word(self.data.len() as u32, self.flags())
    }

    pub open spec fn with_state(self, state: EntryState) -> Entry {
        Entry { pos: self.pos, data: self.data, state }
    }

    pub open spec fn with_data(self, data: Seq<u8>) -> Entry {
        Entry { pos: self.pos, data, state: self.state }
    }
}

/// What a ring buffer holds.
pub struct RingState {
    /// Bytes of the data region.
    pub capacity: int,
    /// Where the next record will start.
    pub producer: int,
    /// Where the first record starts that the consumer has not moved past.
    pub consumer: int,
    /// Records that were counted as lost for want of space.
    pub dropped: u64,
    /// The records between the two positions, oldest first.
    pub entries: Seq<Entry>,
}

/// The records fill the stream from `consumer` to `producer` without a gap.
pub open spec fn chained(entries: Seq<Entry>, consumer: int, producer: int) -> bool {
    &&& entries.len() == 0 ==> consumer == producer
    &&& entries.len() > 0 ==> entries[0].pos == consumer && entries.last().end() == producer
    &&& forall|i: int, j: int|
        #![trigger entries[i], entries[j]]
        0 <= i < j < entries.len() ==> entries[i].end() <= entries[j].pos
    &&& forall|i: int, j: int|
        #![trigger entries[i], entries[j]]
        0 <= i < entries.len() && j == i + 1 && j < entries.len() ==> entries[i].end()
            == entries[j].pos
    &&& forall|i: int|
        0 <= i < entries.len() ==> consumer <= (#[trigger] entries[i]).pos && entries[i].end()
            <= producer && entries[i].data.len() <= u32::MAX
}

/// The bytes of the record are in the memory, behind its header.
pub open spec fn stored(memory: Memory, e: Entry) -> bool {
    &&& memory.range(e.pos, 8) == spec_u64_to_le_bytes(e.word())
    &&& memory.range(e.pos + 8, e.data.len() as int) == e.data
}

/// The index of the record at position `pos`.
pub open spec fn index_at(entries: Seq<Entry>, pos: int) -> int {
    choose|i: int| 0 <= i < entries.len() && (#[trigger] entries[i]).pos == pos
}

/// Whether a record of `size` bytes at position `pos` is being filled in.
pub open spec fn has_busy(entries: Seq<Entry>, pos: int, size: int) -> bool {
    exists|i: int|
        0 <= i < entries.len() && (#[trigger] entries[i]).pos == pos && entries[i].state is Busy
            && entries[i].data.len() == size
}

/// The records that are left once the given up ones at the front are gone.
pub open spec fn skip_discarded(entries: Seq<Entry>) -> Seq<Entry>
    decreases entries.len(),
{
    if entries.len() > 0 && entries[0].state is Discarded {
        skip_discarded(entries.drop_first())
    } else {
        entries
    }
}

/// What a consumer receives that reads until nothing comes any more: the bytes of the records
/// that were handed over, up to the first one that is still being filled in.
pub open spec fn deliverable(entries: Seq<Entry>) -> Seq<Seq<u8>>
    decreases entries.len(),
{
    if entries.len() == 0 {
        seq![]
    } else {
        match entries[0].state {
            EntryState::Busy => seq![],
            EntryState::Discarded => deliverable(entries.drop_first()),
            EntryState::Committed => seq![entries[0].data] + deliverable(entries.drop_first()),
        }
    }
}

/// The records that are left after such a read.
pub open spec fn undeliverable(entries: Seq<Entry>) -> Seq<Entry>
    decreases entries.len(),
{
    if entries.len() == 0 || entries[0].state is Busy {
        entries
    } else {
        undeliverable(entries.drop_first())
    }
}

/// Passing over the given up records at the front changes neither what is delivered nor what is
/// left behind.
pub proof fn lemma_skip_discarded(entries: Seq<Entry>)
    ensures
        deliverable(skip_discarded(entries)) == deliverable(entries),
        undeliverable(skip_discarded(entries)) == undeliverable(entries),
        skip_discarded(entries).len() <= entries.len(),
        skip_discarded(entries).len() > 0 ==> skip_discarded(entries)[0].state !is Discarded,
    decreases entries.len(),
{
    if entries.len() > 0 && entries[0].state is Discarded {
        lemma_skip_discarded(entries.drop_first());
    }
}

/// A ring buffer.
pub struct RingBuf {
    memory: Memory,
    producer: u64,
    consumer: u64,
    dropped: u64,
    entries: Ghost<Seq<Entry>>,
}

impl View for RingBuf {
    type V = RingState;

    closed spec fn view(&self) -> RingState {
        RingState {
            capacity: self.memory.capacity(),
            producer: self.producer as int,
            consumer: self.consumer as int,
            dropped: self.dropped,
            entries: self.entries@,
        }
    }
}

impl RingBuf {
    pub closed spec fn wf(self) -> bool {
        &&& self.memory.wf()
        &&& memory::is_pow2(self.memory.capacity())
        &&& self.memory.capacity() > 0
        &&& 0 <= self.memory.page()
        &&& self.memory.page() + 2 * self.memory.capacity() <= usize::MAX
        &&& self.consumer <= self.producer
        &&& self.producer - self.consumer < self.memory.capacity()
        &&& chained(self.entries@, self.consumer as int, self.producer as int)
        &&& forall|i: int| 0 <= i < self.entries@.len() ==> stored(self.memory, #[trigger] self.entries@[i])
    }

    /// What every well-formed ring buffer obeys.
    pub proof fn lemma_wf(self)
        requires
            self.wf(),
        ensures
            memory::is_pow2(self@.capacity),
            0 <= self@.consumer <= self@.producer <= u64::MAX,
            self@.producer - self@.consumer < self@.capacity <= usize::MAX,
            chained(self@.entries, self@.consumer, self@.producer),
    {
    }

    /// An empty ring buffer with a data region of `data_size` bytes. The data region must be a
    /// power of two and no smaller than a page.
    pub fn new(data_size: usize, page_size: usize) -> (r: Result<RingBuf, MpscBufError>)
        requires
            memory::is_pow2(data_size as int) && data_size >= page_size ==> page_size + 2 * data_size
                <= usize::MAX,
        ensures
            r is Ok <==> memory::is_pow2(data_size as int) && data_size >= page_size,
            r matches Err(e) ==> e == MpscBufError::MmapFailed(EINVAL),
            r matches Ok(ring) ==> ring.wf() && ring@ == (RingState {
                capacity: data_size as int,
                producer: 0,
                consumer: 0,
                dropped: 0,
                entries: seq![],
            }),
    {
        match Memory::new(data_size, page_size) {
            Ok(memory) => {
                proof {
                    memory::mask_is_remainder(0, data_size as u64);
                }
                Ok(RingBuf { memory, producer: 0, consumer: 0, dropped: 0, entries: Ghost(Seq::empty()) })
            },
            Err(_) => Err(MpscBufError::MmapFailed(EINVAL)),
        }
    }

    /// Bytes of the data region.
    pub fn data_size(&self) -> (size: usize)
        ensures
            size == self@.capacity,
    {
        self.memory.data_size()
    }

    /// The mask that takes a position to its place in the data region.
    pub fn size_mask(&self) -> (mask: u64)
        requires
            self.wf(),
        ensures
            mask == self@.capacity - 1,
    {
        (self.memory.data_size() - 1) as u64
    }

    /// Where the first record starts that the consumer has not moved past.
    pub fn consumer_pos(&self) -> (pos: u64)
        ensures
            pos == self@.consumer,
    {
        self.consumer
    }

    /// Where the next record will start.
    pub fn producer_pos(&self) -> (pos: u64)
        ensures
            pos == self@.producer,
    {
        self.producer
    }

    /// Counts a record that was lost for want of space.
    pub fn increment_dropped(&mut self)
        requires
            old(self).wf(),
        ensures
            final(self).wf(),
            final(self)@ == (RingState {
                dropped: old(self)@.dropped.wrapping_add(1),
                ..old(self)@
            }),
    {
        self.dropped = self.dropped.wrapping_add(1);
    }

    /// Records that were counted as lost for want of space.
    pub fn dropped(&self) -> (n: u64)
        ensures
            n == self@.dropped,
    {
        self.dropped
    }

    /// The header word at the consumer position.
    pub(crate) fn front_word(&self) -> (word: u64)
        requires
            self.wf(),
            self@.entries.len() > 0,
        ensures
            word == self@.entries[0].word(),
    {
        self.record_word(Ghost(0), self.consumer)
    }

    /// The header word of the record at the position `pos`, the one at `i` among the records.
    pub(crate) fn record_word(&self, Ghost(i): Ghost<int>, pos: u64) -> (word: u64)
        requires
            self.wf(),
            0 <= i < self@.entries.len(),
            pos == self@.entries[i].pos,
        ensures
            word == self@.entries[i].word(),
    {
        let mask: u64 = self.size_mask();
        let offset: u64 = pos & mask;
        proof {
            memory::mask_is_remainder(pos, self.memory.capacity() as u64);
            lemma_capacity_holds_header(*self, i);
            assert(stored(self.memory, self.entries@[i]));
        }
        self.word_at(Ghost(pos as int), offset as usize)
    }

    /// The header word of the record at `pos`, whose place in the data region is `offset`.
    fn word_at(&self, Ghost(pos): Ghost<int>, offset: usize) -> (word: u64)
        requires
            self.wf(),
            0 <= pos,
            offset == pos % self.memory.capacity(),
            self.memory.capacity() >= 8,
        ensures
            word == spec_u64_from_le_bytes(self.memory.range(pos, 8)),
            forall|w: u64| self.memory.range(pos, 8) == #[trigger] spec_u64_to_le_bytes(w) ==> word == w,
    {
        let bytes: Vec<u8> = self.memory.read_range(Ghost(pos), offset, 8);
        proof {
            lemma_auto_spec_u64_to_from_le_bytes();
        }
        u64_from_le_bytes(bytes.as_slice())
    }

    /// The bytes of the record at the consumer position.
    pub(crate) fn front_data(&self, len: u32) -> (data: Vec<u8>)
        requires
            self.wf(),
            self@.entries.len() > 0,
            len == self@.entries[0].data.len(),
        ensures
            data@ == self@.entries[0].data,
    {
        let ghost pos = self.consumer as int + 8;
        let mask: u64 = self.size_mask();
        let at: u64 = self.consumer & mask;
        proof {
            memory::mask_is_remainder(self.consumer, self.memory.capacity() as u64);
            lemma_capacity_holds_header(*self, 0);
            assert(stored(self.memory, self.entries@[0]));
        }
        let mut offset: usize = at as usize + HEADER_SIZE;
        let cap: usize = self.memory.data_size();
        proof {
            vstd::arithmetic::div_mod::lemma_add_mod_noop(self.consumer as int, 8, cap as int);
            vstd::arithmetic::div_mod::lemma_small_mod(8, cap as nat);
            if offset < cap {
                vstd::arithmetic::div_mod::lemma_small_mod(offset as nat, cap as nat);
            } else {
                vstd::arithmetic::div_mod::lemma_mod_add_multiples_vanish(
                    offset - cap,
                    cap as int,
                );
                vstd::arithmetic::div_mod::lemma_small_mod((offset - cap) as nat, cap as nat);
            }
        }
        if offset >= cap {
            offset = offset - cap;
        }
        self.memory.read_range(Ghost(pos), offset, len as usize)
    }
}

impl RingBuf {
    /// Starts a record of `size` bytes behind the last one, as `place` says.
    pub(crate) fn push_busy(&mut self, place: plan::ReservePlan, size: usize)
        requires
            old(self).wf(),
            size <= u32::MAX,
            place.new_producer == old(self)@.producer + plan::span(size as int),
            place.new_producer - old(self)@.consumer < old(self)@.capacity,
            place.offset == old(self)@.producer as u64 & ((old(self)@.capacity - 1) as u64),
            place.header == header::header_word(size as u32, BUSY_FLAG),
        ensures
            final(self).wf(),
            ({
                let e = final(self)@.entries.last();
                &&& e.pos == old(self)@.producer
                &&& e.state is Busy
                &&& e.data.len() == size
                &&& final(self)@ == (RingState {
                    producer: place.new_producer as int,
                    entries: old(self)@.entries.push(e),
                    ..old(self)@
                })
            }),
    {
        let ghost pos = self.producer as int;
        let ghost before = *self;
        proof {
            memory::mask_is_remainder(self.producer, self.memory.capacity() as u64);
        }
        let bytes: Vec<u8> = u64_to_le_bytes(place.header);
        proof {
            lemma_auto_spec_u64_to_from_le_bytes();
        }
        self.memory.write_range(Ghost(pos), place.offset as usize, bytes.as_slice());
        self.producer = place.new_producer;
        proof {
            let e = Entry {
                pos,
                data: self.memory.range(pos + 8, size as int),
                state: EntryState::Busy,
            };
            self.entries@ = before.entries@.push(e);
            memory::write_range_frame(before.memory, self.memory, pos, bytes@);
            assert forall|i: int| 0 <= i < self.entries@.len() implies stored(
                self.memory,
                #[trigger] self.entries@[i],
            ) by {
                if i < before.entries@.len() {
                    let o = before.entries@[i];
                    assert(stored(before.memory, o));
                    assert(self.memory.range(o.pos, 8) == before.memory.range(o.pos, 8));
                    assert(self.memory.range(o.pos + 8, o.data.len() as int)
                        == before.memory.range(o.pos + 8, o.data.len() as int));
                }
            }
            assert(chained(self.entries@, self.consumer as int, self.producer as int));
        }
    }

    /// Overwrites part of the record at `pos`: `bytes` at `skip` bytes behind its start. The
    /// record becomes `e`.
    fn rewrite(&mut self, pos: u64, skip: usize, bytes: &[u8], Ghost(e): Ghost<Entry>)
        requires
            old(self).wf(),
            exists|i: int| 0 <= i < old(self)@.entries.len() && (#[trigger] old(self)@.entries[i]).pos == pos,
            ({
                let o = old(self)@.entries[index_at(old(self)@.entries, pos as int)];
                &&& e.pos == o.pos
                &&& e.data.len() == o.data.len()
                &&& ({
                    ||| skip == 0 && bytes@ == spec_u64_to_le_bytes(e.word()) && bytes@.len() == 8
                        && e.data == o.data
                    ||| skip == 8 && bytes@ == e.data && e.word() == o.word()
                })
            }),
        ensures
            final(self).wf(),
            final(self)@ == (RingState {
                entries: old(self)@.entries.update(
                    index_at(old(self)@.entries, pos as int),
                    e,
                ),
                ..old(self)@
            }),
    {
        let ghost before = *self;
        let ghost at = index_at(self.entries@, pos as int);
        let ghost old_entry = self.entries@[at];
        let ghost start = pos as int + skip as int;
        let mask: u64 = self.size_mask();
        let cap: usize = self.memory.data_size();
        proof {
            memory::mask_is_remainder(pos, self.memory.capacity() as u64);
            lemma_capacity_holds_header(*self, at);
        }
        let mut offset: usize = (pos & mask) as usize + skip;
        proof {
            vstd::arithmetic::div_mod::lemma_add_mod_noop(pos as int, skip as int, cap as int);
            vstd::arithmetic::div_mod::lemma_small_mod(skip as nat, cap as nat);
            if offset < cap {
                vstd::arithmetic::div_mod::lemma_small_mod(offset as nat, cap as nat);
            } else {
                vstd::arithmetic::div_mod::lemma_mod_add_multiples_vanish(
                    offset - cap,
                    cap as int,
                );
                vstd::arithmetic::div_mod::lemma_small_mod((offset - cap) as nat, cap as nat);
            }
        }
        if offset >= cap {
            offset = offset - cap;
        }
        self.memory.write_range(Ghost(start), offset, bytes);
        proof {
            self.entries@ = before.entries@.update(at, e);
            memory::write_range_frame(before.memory, self.memory, start, bytes@);
            assert forall|i: int| 0 <= i < self.entries@.len() implies stored(
                self.memory,
                #[trigger] self.entries@[i],
            ) by {
                let o = before.entries@[i];
                assert(stored(before.memory, o));
                lemma_capacity_holds_header(before, i);
                if i != at {
                    assert(self.memory.range(o.pos, 8) == before.memory.range(o.pos, 8));
                    assert(self.memory.range(o.pos + 8, o.data.len() as int)
                        == before.memory.range(o.pos + 8, o.data.len() as int));
                } else {
                    if skip == 0 {
                        assert(self.memory.range(pos + 8, e.data.len() as int)
                            == before.memory.range(pos + 8, e.data.len() as int));
                    } else {
                        assert(self.memory.range(pos as int, 8) == before.memory.range(
                            pos as int,
                            8,
                        ));
                    }
                }
            }
            assert(chained(self.entries@, self.consumer as int, self.producer as int));
        }
    }

    /// Fills in the record at `pos`, which is still being filled in.
    pub(crate) fn fill(&mut self, pos: u64, data: &[u8])
        requires
            old(self).wf(),
            has_busy(old(self)@.entries, pos as int, data@.len() as int),
        ensures
            final(self).wf(),
            ({
                let at = index_at(old(self)@.entries, pos as int);
                final(self)@ == (RingState {
                    entries: old(self)@.entries.update(
                        at,
                        old(self)@.entries[at].with_data(data@),
                    ),
                    ..old(self)@
                })
            }),
    {
        let ghost at = index_at(self.entries@, pos as int);
        proof {
            lemma_index_at(*self, pos as int, data@.len() as int);
        }
        let ghost e = self.entries@[at].with_data(data@);
        self.rewrite(pos, HEADER_SIZE, data, Ghost(e));
    }

    /// Finishes the record at `pos`: gives it up where `give_up` holds, else hands it over.
    pub(crate) fn finish(&mut self, pos: u64, Ghost(size): Ghost<int>, give_up: bool)
        requires
            old(self).wf(),
            has_busy(old(self)@.entries, pos as int, size),
        ensures
            final(self).wf(),
            ({
                let at = index_at(old(self)@.entries, pos as int);
                final(self)@ == (RingState {
                    entries: old(self)@.entries.update(
                        at,
                        old(self)@.entries[at].with_state(
                            if give_up {
                                EntryState::Discarded
                            } else {
                                EntryState::Committed
                            },
                        ),
                    ),
                    ..old(self)@
                })
            }),
    {
        let ghost at = index_at(self.entries@, pos as int);
        let ghost o = self.entries@[at];
        proof {
            lemma_index_at(*self, pos as int, size);
            lemma_capacity_holds_header(*self, at);
            memory::mask_is_remainder(pos, self.memory.capacity() as u64);
            assert(stored(self.memory, o));
            header::header_word_round_trip(o.data.len() as u32, BUSY_FLAG);
            header::header_word_round_trip(o.data.len() as u32, DISCARD_FLAG);
            assert(0x8000_0000u32 & 0x4000_0000u32 == 0) by (bit_vector);
            assert(0x4000_0000u32 & 0x4000_0000u32 != 0) by (bit_vector);
        }
        let mask: u64 = self.size_mask();
        let offset: u64 = pos & mask;
        let word: u64 = self.word_at(Ghost(pos as int), offset as usize);
        let mut record = RecordHeader::from_word(word);
        if give_up {
            record.discard();
        }
        if !record.is_discarded() {
            record.commit();
        }
        let bytes: Vec<u8> = u64_to_le_bytes(record.word());
        proof {
            lemma_auto_spec_u64_to_from_le_bytes();
        }
        let ghost e = o.with_state(
            if give_up {
                EntryState::Discarded
            } else {
                EntryState::Committed
            },
        );
        self.rewrite(pos, 0, bytes.as_slice(), Ghost(e));
    }

    /// Moves the consumer behind the first record.
    pub(crate) fn advance_consumer(&mut self, pos: u64)
        requires
            old(self).wf(),
            old(self)@.entries.len() > 0,
            pos == old(self)@.entries[0].end(),
        ensures
            final(self).wf(),
            final(self)@ == (RingState {
                consumer: pos as int,
                entries: old(self)@.entries.drop_first(),
                ..old(self)@
            }),
    {
        let ghost before = *self;
        self.consumer = pos;
        proof {
            self.entries@ = before.entries@.drop_first();
            assert(before.consumer <= before.entries@[0].pos);
            assert(before.entries@[0].end() <= before.producer);
            if before.entries@.len() > 1 {
                assert(before.entries@[0].end() == before.entries@[1].pos);
                assert(self.entries@[0] == before.entries@[1]);
                assert(self.entries@.last() == before.entries@.last());
            }
            assert forall|i: int| 0 <= i < self.entries@.len() implies stored(
                self.memory,
                #[trigger] self.entries@[i],
            ) by {
                assert(stored(before.memory, before.entries@[i + 1]));
            }
            assert(chained(self.entries@, self.consumer as int, self.producer as int));
        }
    }
}

/// The record that is being filled in at `pos` is the one that `index_at` names.
pub proof fn lemma_index_at(ring: RingBuf, pos: int, size: int)
    requires
        ring.wf(),
        has_busy(ring@.entries, pos, size),
    ensures
        ({
            let at = index_at(ring@.entries, pos);
            &&& 0 <= at < ring@.entries.len()
            &&& ring@.entries[at].pos == pos
            &&& ring@.entries[at].state is Busy
            &&& ring@.entries[at].data.len() == size
        }),
{
    let i = choose|i: int|
        0 <= i < ring@.entries.len() && (#[trigger] ring@.entries[i]).pos == pos
            && ring@.entries[i].state is Busy && ring@.entries[i].data.len() == size;
    let at = index_at(ring@.entries, pos);
    if i < at {
        assert(ring@.entries[i].end() <= ring@.entries[at].pos);
    } else if at < i {
        assert(ring@.entries[at].end() <= ring@.entries[i].pos);
    }
}

/// No two records start at the same position.
pub proof fn lemma_index_unique(ring: RingBuf, i: int)
    requires
        ring.wf(),
        0 <= i < ring@.entries.len(),
    ensures
        index_at(ring@.entries, ring@.entries[i].pos) == i,
{
    let at = index_at(ring@.entries, ring@.entries[i].pos);
    if i < at {
        assert(ring@.entries[i].end() <= ring@.entries[at].pos);
    } else if at < i {
        assert(ring@.entries[at].end() <= ring@.entries[i].pos);
    }
}

/// A ring buffer with a record in it has room for a header.
proof fn lemma_capacity_holds_header(ring: RingBuf, i: int)
    requires
        ring.wf(),
        0 <= i < ring@.entries.len(),
    ensures
        ring@.capacity > 8,
        ring@.entries[i].data.len() + 8 <= plan::span(ring@.entries[i].data.len() as int)
            < ring@.capacity,
        0 <= ring@.entries[i].pos,
{
    let e = ring@.entries[i];
    assert(ring@.consumer <= e.pos && e.end() <= ring@.producer);
}

} // verus!
