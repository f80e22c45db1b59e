//! What becomes of the records of a ring buffer, operation by operation.

use crate::mpscbuf::consumer::{Consumer, ConsumerIter, Record};
use crate::mpscbuf::error::MpscBufError;
use crate::mpscbuf::header;
use crate::mpscbuf::header::{round_up_to_8, RecordHeader};
use crate::mpscbuf::memory::{plan_layout, Memory, MemoryLayout};
use crate::mpscbuf::plan;
use crate::mpscbuf::plan::{
    consume_step, next_header, plan_reserve, wakes_consumer, ConsumeStep, ReservePlan,
    WakeupStrategy,
};
use crate::mpscbuf::producer::{Producer, ReservedBuffer};
use crate::mpscbuf::ringbuf;
use crate::mpscbuf::ringbuf::{Entry, RingBuf};
use crate::text;
use vstd::prelude::*;

verus! {

/// How many of the first `n` records were handed over.
pub open spec fn handed_over(entries: Seq<Entry>, n: int) -> nat
    decreases n,
{
    if n <= 0 {
        0
    } else if entries[n - 1].state is Committed {
        handed_over(entries, n - 1) + 1
    } else {
        handed_over(entries, n - 1)
    }
}

/// The first `n` records are finished, and no more in a row are.
pub open spec fn finished_up_to(entries: Seq<Entry>, n: int) -> bool {
    &&& 0 <= n <= entries.len()
    &&& forall|i: int| 0 <= i < n ==> (#[trigger] entries[i]).state !is Busy
    &&& n < entries.len() ==> entries[n].state is Busy
}

proof fn handed_over_behind_first(entries: Seq<Entry>, n: int)
    requires
        0 < n <= entries.len(),
    ensures
        handed_over(entries, n) == handed_over(entries.drop_first(), n - 1) + if entries[0].state is Committed {
            1nat
        } else {
            0
        },
    decreases n,
{
    let rest = entries.drop_first();
    if n > 1 {
        handed_over_behind_first(entries, n - 1);
        assert(rest[n - 2] == entries[n - 1]);
    } else {
        assert(handed_over(entries, 0) == 0);
        assert(handed_over(rest, 0) == 0);
    }
}

proof fn handed_over_grows(entries: Seq<Entry>, i: int, n: int)
    requires
        0 <= i < n,
        entries[i].state is Committed,
    ensures
        handed_over(entries, i) < handed_over(entries, n),
    decreases n,
{
    if i < n - 1 {
        handed_over_grows(entries, i, n - 1);
    }
}

proof fn delivered_up_to(entries: Seq<Entry>, n: int, i: int)
    requires
        finished_up_to(entries, n),
    ensures
        ringbuf::deliverable(entries).len() == handed_over(entries, n),
        ringbuf::undeliverable(entries) == entries.skip(n),
        0 <= i < n && entries[i].state is Committed ==> handed_over(entries, i) < handed_over(
            entries,
            n,
        ) && ringbuf::deliverable(entries)[handed_over(entries, i) as int] == entries[i].data,
    decreases entries.len(),
{
    if entries.len() == 0 || n == 0 {
        assert(entries.skip(n) =~= entries);
    } else {
        let rest = entries.drop_first();
        assert(entries[0].state !is Busy);
        assert forall|k: int| 0 <= k < n - 1 implies (#[trigger] rest[k]).state !is Busy by {
            assert(entries[k + 1].state !is Busy);
        }
        delivered_up_to(rest, n - 1, i - 1);
        handed_over_behind_first(entries, n);
        assert(rest.skip(n - 1) =~= entries.skip(n));
        if 0 <= i < n && entries[i].state is Committed {
            handed_over_grows(entries, i, n);
            if i > 0 {
                handed_over_behind_first(entries, i);
                assert(rest[i - 1] == entries[i]);
                let first = if entries[0].state is Committed {
                    1nat
                } else {
                    0
                };
                if entries[0].state is Committed {
                    assert(ringbuf::deliverable(entries) == seq![entries[0].data]
                        + ringbuf::deliverable(rest));
                }
            }
        }
    }
}

/// Draining gives the bytes of each record that was handed over, in the order in which they were
/// reserved, up to the first record that is still being filled in. All that follows it stays.
pub proof fn drained_records_are_those_handed_over(
    c: &Consumer,
    ring: &mut RingBuf,
    out: Vec<Vec<u8>>,
    n: int,
    i: int,
)
    requires
        call_ensures(Consumer::drain, (c, ring), out),
        finished_up_to(old(ring)@.entries, n),
    ensures
        out@.len() == handed_over(old(ring)@.entries, n),
        final(ring)@.entries == old(ring)@.entries.skip(n),
        0 <= i < n && old(ring)@.entries[i].state is Committed ==> {
            let place = handed_over(old(ring)@.entries, i) as int;
            place < out@.len() && out@[place]@ == old(ring)@.entries[i].data
        },
        final(ring)@.dropped == old(ring)@.dropped,
        final(ring)@.capacity == old(ring)@.capacity,
        final(ring)@.producer == old(ring)@.producer,
{
    delivered_up_to(old(ring)@.entries, n, i);
}

/// As many records can be read as were handed over before the first that is still being filled
/// in.
pub proof fn readable_records_are_counted(c: &Consumer, ring: &RingBuf, count: u64, n: int)
    requires
        call_ensures(Consumer::available_records, (c, ring), count),
        finished_up_to(ring@.entries, n),
    ensures
        count == handed_over(ring@.entries, n),
{
    delivered_up_to(ring@.entries, n, 0);
}

proof fn given_up_are_skipped(entries: Seq<Entry>, n: int)
    requires
        0 <= n <= entries.len(),
        forall|k: int| 0 <= k < n ==> (#[trigger] entries[k]).state is Discarded,
        n < entries.len() ==> entries[n].state !is Discarded,
    ensures
        ringbuf::skip_discarded(entries) == entries.skip(n),
    decreases n,
{
    if n == 0 {
        assert(entries.skip(0) =~= entries);
    } else {
        let rest = entries.drop_first();
        assert(entries[0].state is Discarded);
        assert forall|k: int| 0 <= k < n - 1 implies (#[trigger] rest[k]).state is Discarded by {
            assert(entries[k + 1].state is Discarded);
        }
        given_up_are_skipped(rest, n - 1);
        assert(rest.skip(n - 1) =~= entries.skip(n));
    }
}

/// The next record is the first that was not given up, where it was handed over; one that is
/// still being filled in is waited for.
pub proof fn next_record_is_first_handed_over(
    it: &mut ConsumerIter,
    ring: &mut RingBuf,
    r: Option<Record>,
    n: int,
)
    requires
        call_ensures(ConsumerIter::next, (it, ring), r),
        0 <= n <= old(ring)@.entries.len(),
        forall|k: int| 0 <= k < n ==> (#[trigger] old(ring)@.entries[k]).state is Discarded,
        n < old(ring)@.entries.len() ==> old(ring)@.entries[n].state !is Discarded,
    ensures
        r is Some <==> n < old(ring)@.entries.len() && old(ring)@.entries[n].state is Committed,
        r matches Some(record) ==> record.bytes() == old(ring)@.entries[n].data,
        final(ring)@.entries == old(ring)@.entries.skip(n),
        final(ring)@.producer == old(ring)@.producer,
        final(ring)@.dropped == old(ring)@.dropped,
{
    given_up_are_skipped(old(ring)@.entries, n);
}

/// Releasing a record takes it, and nothing else, out of the ring, and hands out its bytes.
pub proof fn released_record_is_gone(record: Record, ring: &mut RingBuf, data: Vec<u8>)
    requires
        call_ensures(Record::release, (record, ring), data),
        old(ring)@.entries.len() > 0,
    ensures
        data@ == record.bytes(),
        final(ring)@.entries == old(ring)@.entries.drop_first(),
        final(ring)@.consumer == record.end(),
        final(ring)@.producer == old(ring)@.producer,
        final(ring)@.dropped == old(ring)@.dropped,
        final(ring)@.capacity == old(ring)@.capacity,
{
}

/// The room that a record of `size` bytes takes: its bytes and eight more for its header, rounded
/// up to a multiple of eight.
pub open spec fn is_room_for(room: int, size: int) -> bool {
    size + 8 <= room < size + 16 && room % 8 == 0
}

proof fn span_is_room(size: int)
    requires
        0 <= size,
    ensures
        is_room_for(plan::span(size), size),
{
}

/// A reservation is made exactly where there is room between what was not read yet and the end of
/// the ring, at least one byte staying free; it is a record of the wanted size behind all others.
/// Where there is no room, nothing changes.
pub proof fn reservation_is_last(
    p: &Producer,
    ring: &mut RingBuf,
    size: usize,
    r: Result<ReservedBuffer, MpscBufError>,
    room: int,
)
    requires
        call_ensures(Producer::reserve, (p, ring, size), r),
        is_room_for(room, size as int),
        old(ring).wf(),
    ensures
        r is Ok <==> old(ring)@.producer + room - old(ring)@.consumer < old(ring)@.capacity,
        r matches Ok(b) ==> {
            &&& b.pos() == old(ring)@.producer
            &&& b.len() == size
            &&& b.strategy() == p.strategy()
            &&& final(ring)@.entries.len() == old(ring)@.entries.len() + 1
            &&& final(ring)@.entries.drop_last() == old(ring)@.entries
            &&& final(ring)@.entries.last().pos == b.pos()
            &&& final(ring)@.entries.last().data.len() == size
            &&& final(ring)@.entries.last().state is Busy
            &&& final(ring)@.producer == old(ring)@.producer + room
            &&& final(ring)@.consumer == old(ring)@.consumer
            &&& final(ring)@.dropped == old(ring)@.dropped
        },
        r is Err ==> *final(ring) == *old(ring),
{
    span_is_room(size as int);
    assert(room == plan::span(size as int));
}

/// Filling in, handing over and giving up concern the own record only: its bytes become those
/// given, or it counts as handed over or as given up.
pub proof fn own_record_is_finished(
    b: ReservedBuffer,
    filled: &mut RingBuf,
    data: &[u8],
    committed: &mut RingBuf,
    wake: bool,
    discarded: &mut RingBuf,
    discard_wake: bool,
    i: int,
    j: int,
)
    requires
        call_ensures(ReservedBuffer::copy_from_slice, (&b, filled, data), ()),
        call_ensures(ReservedBuffer::commit, (b, committed), wake),
        call_ensures(ReservedBuffer::discard, (b, discarded), discard_wake),
        *old(committed) == *old(filled),
        *old(discarded) == *old(filled),
        old(filled).wf(),
        0 <= i < old(filled)@.entries.len(),
        old(filled)@.entries[i].pos == b.pos(),
        old(filled)@.entries[i].data.len() == b.len(),
        old(filled)@.entries[i].state is Busy,
        data@.len() == b.len(),
        0 <= j < old(filled)@.entries.len(),
        j != i,
    ensures
        final(filled)@.entries.len() == old(filled)@.entries.len(),
        final(filled)@.entries[i].data == data@,
        final(filled)@.entries[i].state is Busy,
        final(filled)@.entries[j] == old(filled)@.entries[j],
        final(committed)@.entries.len() == old(filled)@.entries.len(),
        final(committed)@.entries[i].data == old(filled)@.entries[i].data,
        final(committed)@.entries[i].state is Committed,
        final(committed)@.entries[j] == old(filled)@.entries[j],
        final(discarded)@.entries.len() == old(filled)@.entries.len(),
        final(discarded)@.entries[i].state is Discarded,
        final(discarded)@.entries[j] == old(filled)@.entries[j],
        wake == discard_wake,
        b.strategy() is Forced ==> wake,
        b.strategy() is NoWakeup ==> !wake,
{
    ringbuf::lemma_index_unique(*old(filled), i);
}

/// A consumer is woken up always, never, or where it stands at the very record, as the strategy
/// says.
pub proof fn consumer_is_woken_up(
    strategy: WakeupStrategy,
    consumer_pos: u64,
    mask: u64,
    offset: u64,
    wake: bool,
)
    requires
        call_ensures(wakes_consumer, (strategy, consumer_pos, mask, offset), wake),
    ensures
        strategy is Forced ==> wake,
        strategy is NoWakeup ==> !wake,
        strategy is SelfPacing ==> (wake <==> consumer_pos & mask == offset),
{
}

/// A new header tells its length and that the record is being filled in; the header of a finished
/// record tells the same length, and whether the record was given up.
pub proof fn header_tells_length_and_state(
    len: u32,
    h: RecordHeader,
    new_parts: (u32, u32),
    committed: &mut RecordHeader,
    committed_parts: (u32, u32),
    discarded: &mut RecordHeader,
    discarded_parts: (u32, u32),
    gone: bool,
    kept_gone: bool,
)
    requires
        call_ensures(RecordHeader::new, (len,), h),
        call_ensures(RecordHeader::len_and_flags, (&h,), new_parts),
        *old(committed) == h,
        call_ensures(RecordHeader::commit, (committed,), ()),
        call_ensures(RecordHeader::len_and_flags, (final(committed),), committed_parts),
        *old(discarded) == h,
        call_ensures(RecordHeader::discard, (discarded,), ()),
        call_ensures(RecordHeader::len_and_flags, (final(discarded),), discarded_parts),
        call_ensures(RecordHeader::is_discarded, (final(discarded),), gone),
        call_ensures(RecordHeader::is_discarded, (final(committed),), kept_gone),
    ensures
        new_parts == (len, 0x8000_0000u32),
        committed_parts == (len, 0u32),
        discarded_parts == (len, 0x4000_0000u32),
        gone,
        !kept_gone,
{
    header::header_word_round_trip(len, 0x8000_0000);
    header::header_word_round_trip(len, 0);
    header::header_word_round_trip(len, 0x4000_0000);
    assert(0x4000_0000u32 & 0x4000_0000u32 != 0) by (bit_vector);
    assert(0u32 & 0x4000_0000u32 == 0) by (bit_vector);
}

/// Lengths are rounded up to the next multiple of eight.
pub proof fn lengths_are_rounded_up(len: usize, r: usize)
    requires
        call_ensures(round_up_to_8, (len,), r),
    ensures
        r % 8 == 0,
        len <= r < len + 8,
{
}

/// A plan is made exactly where the record fits: at the position of the producer in the ring, with
/// a header that tells its length and that it is being filled in, and with room for both.
pub proof fn reservation_is_planned(
    producer_pos: u64,
    consumer_pos: u64,
    mask: u64,
    size: usize,
    r: Result<ReservePlan, MpscBufError>,
    room: int,
)
    requires
        call_ensures(plan_reserve, (producer_pos, consumer_pos, mask, size), r),
        is_room_for(room, size as int),
        size <= u32::MAX,
    ensures
        r is Ok <==> producer_pos + room - consumer_pos <= mask,
        r matches Ok(p) ==> {
            &&& p.offset == producer_pos & mask
            &&& p.new_producer == producer_pos + room
            &&& header::word_len(p.header) == size
            &&& header::word_flags(p.header) == 0x8000_0000u32
        },
{
    span_is_room(size as int);
    assert(room == plan::span(size as int));
    header::header_word_round_trip(size as u32, 0x8000_0000);
}

/// There is a next record where the consumer is behind the producer, at its position in the ring.
pub proof fn next_record_is_at_consumer(
    consumer_pos: u64,
    producer_pos: u64,
    mask: u64,
    r: Option<u64>,
)
    requires
        call_ensures(next_header, (consumer_pos, producer_pos, mask), r),
    ensures
        r is Some <==> consumer_pos < producer_pos,
        r matches Some(at) ==> at == consumer_pos & mask,
{
}

/// A record that is being filled in is waited for, one that was given up is passed over, and one
/// that was handed over is delivered, each with the room that its length takes.
pub proof fn record_is_consumed(consumer_pos: u64, len: u32, word: u64, step: ConsumeStep, room: int)
    requires
        call_ensures(consume_step, (consumer_pos, word), step),
        is_room_for(room, len as int),
        consumer_pos + room <= u64::MAX,
    ensures
        word == header::header_word(len, 0x8000_0000) ==> step is Wait,
        word == header::header_word(len, 0x4000_0000) ==> (step matches ConsumeStep::Skip(to) && to
            == consumer_pos + room),
        word == header::header_word(len, 0) ==> (step matches ConsumeStep::Deliver(n, to) && n
            == len && to == consumer_pos + room),
{
    span_is_room(len as int);
    assert(room == plan::span(len as int));
    header::header_word_round_trip(len, 0x8000_0000);
    header::header_word_round_trip(len, 0);
    header::header_word_round_trip(len, 0x4000_0000);
    assert(0x4000_0000u32 & 0x4000_0000u32 != 0) by (bit_vector);
    assert(0x8000_0000u32 & 0x8000_0000u32 != 0) by (bit_vector);
    assert(0x4000_0000u32 & 0x8000_0000u32 == 0) by (bit_vector);
    assert(0u32 & 0x4000_0000u32 == 0) by (bit_vector);
    assert(0u32 & 0x8000_0000u32 == 0) by (bit_vector);
}

/// The data region is mapped twice, one after the other: an address and that one region further on
/// show the same byte, and no other two do.
pub proof fn region_is_shown_twice(
    l: &MemoryLayout,
    a: usize,
    at_a: usize,
    b: usize,
    at_b: usize,
)
    requires
        call_ensures(MemoryLayout::file_offset, (l, a), at_a),
        call_ensures(MemoryLayout::file_offset, (l, b), at_b),
        l.wf(),
        a < b < l.page_size + 2 * l.data_size,
    ensures
        at_a == at_b <==> a >= l.page_size && b == a + l.data_size,
        at_b < l.page_size + l.data_size,
{
}

/// The layout has the page in front of the data region, and room for the region once in the file
/// and twice in memory.
pub proof fn layout_has_room(
    data_size: usize,
    page_size: usize,
    r: Result<MemoryLayout, MpscBufError>,
)
    requires
        call_ensures(plan_layout, (data_size, page_size), r),
        r is Ok,
    ensures
        r matches Ok(l) && l.data_size == data_size && l.page_size == page_size && l.total_size
            == page_size + data_size && l.virtual_size == page_size + 2 * data_size,
        data_size >= page_size,
{
}

/// What is written at an address is read there, and nowhere else but one region further on or
/// back.
pub proof fn written_byte_is_read(
    m: &mut Memory,
    addr: usize,
    b: u8,
    again: usize,
    read: u8,
    other: usize,
    other_before: u8,
    other_after: u8,
)
    requires
        call_ensures(Memory::write, (m, addr, b), ()),
        call_ensures(Memory::read, (final(m), again), read),
        call_ensures(Memory::read, (old(m), other), other_before),
        call_ensures(Memory::read, (final(m), other), other_after),
        old(m).wf(),
        0 <= old(m).page(),
        old(m).capacity() > 0,
        addr < old(m).page() + 2 * old(m).capacity(),
        again < old(m).page() + 2 * old(m).capacity(),
        other < old(m).page() + 2 * old(m).capacity(),
    ensures
        again == addr ==> read == b,
        addr >= old(m).page() && again == addr + old(m).capacity() ==> read == b,
        other != addr && other != addr + old(m).capacity() && addr != other + old(m).capacity()
            ==> other_after == other_before,
{
}

/// A failure in words tells what failed, with its numbers or the words of the system.
pub proof fn failures_are_told(e: &MpscBufError, errno_text: &str, s: String)
    requires
        call_ensures(MpscBufError::message, (e, errno_text), s),
    ensures
        e matches MpscBufError::SizeTooSmall(n) ==> s@
            == "size must be at least twice the page size ("@ + text::decimal(n as nat)
            + " bytes)"@,
        e matches MpscBufError::SizeNotAligned(n) ==> s@
            == "size must be a multiple of page size ("@ + text::decimal(n as nat) + " bytes)"@,
        e is MmapFailed ==> s@ == "memory mapping failed: "@ + errno_text@,
        e is MprotectFailed ==> s@ == "memory protection failed: "@ + errno_text@,
        e matches MpscBufError::InsufficientSpace(p, c, m) ==> s@
            == "insufficient space in ring buffer. producer position: "@ + text::decimal(p as nat)
            + ", consumer position: "@ + text::decimal(c as nat) + ", data size: "@
            + text::decimal(m as nat),
        e matches MpscBufError::InvalidRecordSize(n) ==> s@ == "invalid record size: "@
            + text::decimal(n as nat),
        e matches MpscBufError::EventfdCreation(t) ==> s@ == "eventfd creation failed: "@ + t@,
        e matches MpscBufError::EventfdWrite(t) ==> s@ == "eventfd write failed: "@ + t@,
        e matches MpscBufError::EventfdRead(t) ==> s@ == "eventfd read failed: "@ + t@,
        e matches MpscBufError::IoError(t) ==> s@ == "I/O error: "@ + t@,
{
}

} // verus!
