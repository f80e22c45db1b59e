//! What holds of a ring buffer over several operations.

use crate::mpscbuf::ringbuf;
use crate::mpscbuf::ringbuf::{Entry, EntryState};
use vstd::prelude::*;

verus! {

/// No record is still being filled in.
pub open spec fn all_finished(entries: Seq<Entry>) -> bool {
    forall|i: int| 0 <= i < entries.len() ==> (#[trigger] entries[i]).state !is Busy
}

/// The bytes of the records that were handed over, in the order in which they were reserved.
pub open spec fn committed(entries: Seq<Entry>) -> Seq<Seq<u8>>
    decreases entries.len(),
{
    if entries.len() == 0 {
        seq![]
    } else if entries.last().state is Committed {
        committed(entries.drop_last()).push(entries.last().data)
    } else {
        committed(entries.drop_last())
    }
}

/// What two parts of a ring that are free of unfinished records deliver, one after the other.
pub proof fn deliverable_concat(a: Seq<Entry>, b: Seq<Entry>)
    requires
        all_finished(a),
    ensures
        ringbuf::deliverable(a + b) == ringbuf::deliverable(a) + ringbuf::deliverable(b),
        ringbuf::undeliverable(a + b) == ringbuf::undeliverable(b),
    decreases a.len(),
{
    if a.len() == 0 {
        assert(a + b =~= b);
        assert(ringbuf::deliverable(a) + ringbuf::deliverable(b) =~= ringbuf::deliverable(b));
    } else {
        let rest = a.drop_first();
        assert((a + b).drop_first() =~= rest + b);
        assert(a[0].state !is Busy);
        assert forall|i: int| 0 <= i < rest.len() implies (#[trigger] rest[i]).state !is Busy by {
            assert(a[i + 1].state !is Busy);
        }
        deliverable_concat(rest, b);
        if a[0].state is Committed {
            assert(ringbuf::deliverable(a + b) =~= seq![a[0].data] + (ringbuf::deliverable(rest)
                + ringbuf::deliverable(b)));
            assert(ringbuf::deliverable(a) + ringbuf::deliverable(b) =~= seq![a[0].data] + (
            ringbuf::deliverable(rest) + ringbuf::deliverable(b)));
        }
    }
}

/// First in, first out: once every record is finished, reading delivers the bytes of exactly the
/// records that were handed over, in the order in which they were reserved, and empties the ring.
pub proof fn fifo(entries: Seq<Entry>)
    requires
        all_finished(entries),
    ensures
        ringbuf::deliverable(entries) == committed(entries),
        ringbuf::undeliverable(entries).len() == 0,
    decreases entries.len(),
{
    if entries.len() > 0 {
        let init = entries.drop_last();
        let last = seq![entries.last()];
        assert(entries =~= init + last);
        assert forall|i: int| 0 <= i < init.len() implies (#[trigger] init[i]).state !is Busy by {
            assert(entries[i].state !is Busy);
        }
        assert(entries[entries.len() - 1].state !is Busy);
        fifo(init);
        deliverable_concat(init, last);
        reveal_with_fuel(ringbuf::deliverable, 2);
        reveal_with_fuel(ringbuf::undeliverable, 2);
        assert(ringbuf::undeliverable(last) =~= seq![]);
        if entries.last().state is Committed {
            assert(ringbuf::deliverable(last) =~= seq![entries.last().data]);
            assert(committed(entries) =~= committed(init) + seq![entries.last().data]);
        } else {
            assert(ringbuf::deliverable(last) =~= seq![]);
            assert(committed(entries) =~= committed(init) + seq![]);
        }
    }
}

/// A record that is handed over behind finished ones is read back last, with the bytes that were
/// written into it.
pub proof fn written_is_read_back(entries: Seq<Entry>, pos: int, data: Seq<u8>)
    requires
        all_finished(entries),
    ensures
        ringbuf::deliverable(
            entries.push(Entry { pos, data, state: EntryState::Committed }),
        ) == ringbuf::deliverable(entries).push(data),
{
    let e = Entry { pos, data, state: EntryState::Committed };
    let last = seq![e];
    assert(entries.push(e) =~= entries + last);
    deliverable_concat(entries, last);
    reveal_with_fuel(ringbuf::deliverable, 2);
    assert(ringbuf::deliverable(last) =~= seq![data]);
    assert(ringbuf::deliverable(entries.push(e)) =~= ringbuf::deliverable(entries).push(data));
}

/// A record that was given up leaves no trace in what is read.
pub proof fn discarded_is_not_read(before: Seq<Entry>, e: Entry, after: Seq<Entry>)
    requires
        all_finished(before),
        e.state is Discarded,
    ensures
        ringbuf::deliverable(before.push(e) + after) == ringbuf::deliverable(before + after),
        ringbuf::undeliverable(before.push(e) + after) == ringbuf::undeliverable(before + after),
{
    let tail = seq![e] + after;
    assert(before.push(e) + after =~= before + tail);
    deliverable_concat(before, tail);
    deliverable_concat(before, after);
    assert(tail.drop_first() =~= after);
}

/// A record that is still being filled in holds back itself and all that were reserved after it,
/// finished or not, and nothing that was reserved before it.
pub proof fn busy_holds_back(before: Seq<Entry>, e: Entry, after: Seq<Entry>)
    requires
        all_finished(before),
        e.state is Busy,
    ensures
        ringbuf::deliverable(before.push(e) + after) == ringbuf::deliverable(before),
        ringbuf::undeliverable(before.push(e) + after) == seq![e] + after,
{
    let tail = seq![e] + after;
    assert(before.push(e) + after =~= before + tail);
    deliverable_concat(before, tail);
    assert(ringbuf::deliverable(tail) =~= seq![]);
    assert(ringbuf::deliverable(before) + ringbuf::deliverable(tail) =~= ringbuf::deliverable(
        before,
    ));
}

/// A reservation stays good while others reserve behind it and finish their own records.
pub proof fn reservations_are_independent(
    entries: Seq<Entry>,
    pos: int,
    size: int,
    other: int,
    changed: Entry,
)
    requires
        ringbuf::has_busy(entries, pos, size),
    ensures
        ringbuf::has_busy(entries.push(changed), pos, size),
        0 <= other < entries.len() && entries[other].pos != pos ==> ringbuf::has_busy(
            entries.update(other, changed),
            pos,
            size,
        ),
        entries.len() > 0 && entries[0].state !is Busy ==> ringbuf::has_busy(
            entries.drop_first(),
            pos,
            size,
        ),
{
    let i = choose|i: int|
        0 <= i < entries.len() && (#[trigger] entries[i]).pos == pos && entries[i].state is Busy
            && entries[i].data.len() == size;
    assert(entries.push(changed)[i] == entries[i]);
    if 0 <= other < entries.len() && entries[other].pos != pos {
        assert(entries.update(other, changed)[i] == entries[i]);
    }
    if entries.len() > 0 && entries[0].state !is Busy {
        assert(entries.drop_first()[i - 1] == entries[i]);
    }
}

} // verus!
