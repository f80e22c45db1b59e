//! What holds of the writers together, and of labels.

use crate::protocol::labels;
use crate::protocol::labels::LabelMap;
use crate::protocol::writers::{CountingWriter, OutOfSpaceError, SliceWriter};
use vstd::prelude::*;

verus! {

/// How many bytes a counting writer has counted once all `chunks` were written to it.
pub open spec fn counted(chunks: Seq<Seq<u8>>) -> nat
    decreases chunks.len(),
{
    if chunks.len() == 0 {
        0
    } else {
        counted(chunks.drop_last()) + chunks.last().len()
    }
}

/// What is left of the buffer `room` once all `chunks` were written into it; nothing where one of
/// them did not fit.
pub open spec fn room_left(room: Seq<u8>, chunks: Seq<Seq<u8>>) -> Option<Seq<u8>>
    decreases chunks.len(),
{
    if chunks.len() == 0 {
        Some(room)
    } else {
        match room_left(room, chunks.drop_last()) {
            Some(rest) => if chunks.last().len() <= rest.len() {
                Some(rest.skip(chunks.last().len() as int))
            } else {
                None
            },
            None => None,
        }
    }
}

/// The length that was counted is the length that is needed: what was counted fits into a buffer
/// exactly where the buffer is at least that long, and then leaves the rest of the buffer alone.
pub proof fn counted_length_suffices(room: Seq<u8>, chunks: Seq<Seq<u8>>)
    ensures
        room_left(room, chunks) is Some <==> counted(chunks) <= room.len(),
        room_left(room, chunks) matches Some(rest) ==> rest == room.skip(counted(chunks) as int),
    decreases chunks.len(),
{
    if chunks.len() == 0 {
        assert(room.skip(0) =~= room);
    } else {
        counted_length_suffices(room, chunks.drop_last());
        if counted(chunks) <= room.len() {
            let first = counted(chunks.drop_last()) as int;
            assert(room.skip(first).skip(chunks.last().len() as int) =~= room.skip(
                counted(chunks) as int,
            ));
        }
    }
}

/// A label that is stored is found, and no other label changes.
pub proof fn stored_label_is_found<V>(
    entries: Seq<(Seq<char>, V)>,
    name: Seq<char>,
    value: V,
    other: Seq<char>,
)
    requires
        labels::distinct_names(entries),
    ensures
        ({
            let after = labels::stored(entries, name, value);
            &&& labels::distinct_names(after)
            &&& labels::has_name(after, name)
            &&& after[labels::name_index(after, name)].1 == value
            &&& other != name ==> (labels::has_name(after, other) <==> labels::has_name(
                entries,
                other,
            ))
            &&& other != name && labels::has_name(entries, other) ==> after[labels::name_index(
                after,
                other,
            )].1 == entries[labels::name_index(entries, other)].1
        }),
{
    let after = labels::stored(entries, name, value);
    let at = if labels::has_name(entries, name) {
        labels::name_index(entries, name)
    } else {
        entries.len() as int
    };
    assert(after[at] == (name, value));
    let found = labels::name_index(after, name);
    assert(found == at);
    if other != name {
        if labels::has_name(entries, other) {
            let i = labels::name_index(entries, other);
            assert(after[i].0 == other);
            let k = labels::name_index(after, other);
            assert(entries[k].0 == other);
            assert(i == k);
        }
        if labels::has_name(after, other) {
            let k = labels::name_index(after, other);
            assert(entries[k].0 == other);
        }
    }
}

/// What is stored under a name is found there, and no other value changes.
pub proof fn stored_value_is_found<V>(
    m: &mut LabelMap<V>,
    name: String,
    value: V,
    other: Seq<char>,
)
    requires
        call_ensures(LabelMap::<V>::insert, (m, name, value), ()),
        labels::distinct_names(old(m)@),
    ensures
        labels::has_name(final(m)@, name@),
        final(m)@[labels::name_index(final(m)@, name@)].1 == value,
        other != name@ ==> (labels::has_name(final(m)@, other) <==> labels::has_name(
            old(m)@,
            other,
        )),
        other != name@ && labels::has_name(old(m)@, other) ==> final(m)@[labels::name_index(
            final(m)@,
            other,
        )].1 == old(m)@[labels::name_index(old(m)@, other)].1,
        labels::has_name(old(m)@, name@) ==> final(m)@.len() == old(m)@.len(),
        !labels::has_name(old(m)@, name@) ==> final(m)@.len() == old(m)@.len() + 1,
{
    stored_label_is_found(old(m)@, name@, value, other);
}

/// Counting and writing agree: both move on by the bytes that are written.
pub proof fn counting_agrees_with_writing<'a>(
    c: &mut CountingWriter,
    w: &mut SliceWriter<'a>,
    bytes: &[u8],
    r: Result<(), OutOfSpaceError>,
)
    requires
        call_ensures(CountingWriter::write, (c, bytes), ()),
        call_ensures(SliceWriter::<'a>::write, (w, bytes), r),
        old(w).wf(),
    ensures
        final(c).bytes() == old(c).bytes() + bytes@.len(),
        final(c).writes() == old(c).writes() + 1,
        r is Ok <==> bytes@.len() <= old(w).rest().len(),
        r is Ok ==> {
            &&& final(w).written_bytes().len() == old(w).written_bytes().len() + bytes@.len()
            &&& final(w).written_bytes().take(old(w).written_bytes().len() as int)
                == old(w).written_bytes()
            &&& final(w).written_bytes().skip(old(w).written_bytes().len() as int) == bytes@
            &&& final(w).rest().len() == old(w).rest().len() - bytes@.len()
        },
        r is Err ==> final(w).written_bytes() == old(w).written_bytes() && final(w).rest()
            == old(w).rest(),
{
}

} // verus!
