//! What the packets of a trace tell.

use crate::perfetto::interned::{create_callstack_interned_data, create_callstack_interned_next};
use crate::perfetto::laws;
use crate::perfetto::model::{
    create_debug_annotation, CounterValue, CpuMode, DebugAnnotation, DebugValue, InternedData,
    PacketDataView, TracePacketView, TrackEventType, TrackEventView,
};
use crate::perfetto::sink::PacketSink;
use crate::perfetto::writer::PerfettoStreamWriter;
use vstd::prelude::*;

verus! {

/// The packet was written behind all others; where that failed, no packet was.
pub open spec fn wrote_one(
    before: Seq<TracePacketView>,
    after: Seq<TracePacketView>,
    written: bool,
) -> bool {
    if written {
        after.len() == before.len() + 1 && after.drop_last() =~= before
            && after.last().trusted_packet_sequence_id == Some(1u32)
    } else {
        after == before
    }
}

/// The packet describes a thread: its numbers, its name, and the track of its process.
pub proof fn thread_is_described<W: PacketSink>(
    w: &mut PerfettoStreamWriter<W>,
    pid: u32,
    tid: u32,
    name: Option<String>,
    parent: u64,
    r: Result<u64, W::Error>,
)
    requires
        call_ensures(
            PerfettoStreamWriter::<W>::write_thread_descriptor,
            (w, pid, tid, name, parent),
            r,
        ),
        old(w).counters().track_uuid < u64::MAX,
    ensures
        wrote_one(old(w).log(), final(w).log(), r is Ok),
        final(w).counters().track_uuid == old(w).counters().track_uuid + 1,
        r matches Ok(uuid) ==> {
            &&& uuid == old(w).counters().track_uuid
            &&& final(w).log().last().data matches Some(PacketDataView::TrackDescriptor(d))
            &&& d.uuid == Some(uuid)
            &&& d.parent_uuid == Some(parent)
            &&& d.process is None && d.counter is None
            &&& d.thread matches Some(t) && t.pid == Some(pid as i32) && t.tid == Some(tid as i32)
                && t.thread_name == name.deep_view()
        },
{
}

/// A thread that has a track already is described with that track.
pub proof fn thread_is_described_again<W: PacketSink>(
    w: &mut PerfettoStreamWriter<W>,
    uuid: u64,
    pid: u32,
    tid: u32,
    name: Option<String>,
    parent: u64,
    r: Result<(), W::Error>,
)
    requires
        call_ensures(
            PerfettoStreamWriter::<W>::write_thread_descriptor_with_uuid,
            (w, uuid, pid, tid, name, parent),
            r,
        ),
    ensures
        wrote_one(old(w).log(), final(w).log(), r is Ok),
        final(w).counters() == old(w).counters(),
        r is Ok ==> {
            &&& final(w).log().last().data matches Some(PacketDataView::TrackDescriptor(d))
            &&& d.uuid == Some(uuid)
            &&& d.parent_uuid == Some(parent)
            &&& d.process is None && d.counter is None
            &&& d.thread matches Some(t) && t.pid == Some(pid as i32) && t.tid == Some(tid as i32)
                && t.thread_name == name.deep_view()
        },
{
}

/// The packet describes a process: its number and its name.
pub proof fn process_is_described<W: PacketSink>(
    w: &mut PerfettoStreamWriter<W>,
    pid: u32,
    name: Option<String>,
    r: Result<u64, W::Error>,
)
    requires
        call_ensures(PerfettoStreamWriter::<W>::write_process_descriptor, (w, pid, name), r),
        old(w).counters().track_uuid < u64::MAX,
    ensures
        wrote_one(old(w).log(), final(w).log(), r is Ok),
        final(w).counters().track_uuid == old(w).counters().track_uuid + 1,
        r matches Ok(uuid) ==> {
            &&& uuid == old(w).counters().track_uuid
            &&& final(w).log().last().data matches Some(PacketDataView::TrackDescriptor(d))
            &&& d.uuid == Some(uuid)
            &&& d.parent_uuid is None
            &&& d.thread is None && d.counter is None
            &&& d.process matches Some(p) && p.pid == Some(pid as i32) && p.process_name
                == name.deep_view()
        },
{
}

/// The packet describes a counter: its name, its unit, and the track that it belongs to.
pub proof fn counter_is_described<W: PacketSink>(
    w: &mut PerfettoStreamWriter<W>,
    name: String,
    unit: Option<String>,
    parent: u64,
    r: Result<u64, W::Error>,
)
    requires
        call_ensures(PerfettoStreamWriter::<W>::write_counter_track, (w, name, unit, parent), r),
        old(w).counters().track_uuid < u64::MAX,
    ensures
        wrote_one(old(w).log(), final(w).log(), r is Ok),
        final(w).counters().track_uuid == old(w).counters().track_uuid + 1,
        r matches Ok(uuid) ==> {
            &&& uuid == old(w).counters().track_uuid
            &&& final(w).log().last().data matches Some(PacketDataView::TrackDescriptor(d))
            &&& d.uuid == Some(uuid)
            &&& d.parent_uuid == Some(parent)
            &&& d.name == Some(name@)
            &&& d.thread is None && d.process is None
            &&& d.counter matches Some(c) && c.unit_name == unit.deep_view()
        },
{
}

/// The last packet has an event at the given time on the given track.
pub open spec fn has_event(
    log: Seq<TracePacketView>,
    track: u64,
    timestamp: u64,
    e: TrackEventView,
) -> bool {
    &&& log.last().timestamp == Some(timestamp)
    &&& log.last().data == Some(PacketDataView::TrackEvent(e))
    &&& e.track_uuid == Some(track)
}

/// The begin of a slice has its name and annotations; its end is on the same track, and a point in
/// time is neither.
pub proof fn slices_and_instants_are_told<W: PacketSink>(
    w: &mut PerfettoStreamWriter<W>,
    v: &mut PerfettoStreamWriter<W>,
    x: &mut PerfettoStreamWriter<W>,
    track: u64,
    name: String,
    timestamp: u64,
    annotations: Vec<DebugAnnotation>,
    r: Result<(), W::Error>,
    s: Result<(), W::Error>,
    t: Result<(), W::Error>,
)
    requires
        call_ensures(
            PerfettoStreamWriter::<W>::write_slice_begin,
            (w, track, name, timestamp, annotations),
            r,
        ),
        call_ensures(PerfettoStreamWriter::<W>::write_slice_end, (v, track, timestamp), s),
        call_ensures(
            PerfettoStreamWriter::<W>::write_instant_event,
            (x, track, name, timestamp, annotations),
            t,
        ),
    ensures
        wrote_one(old(w).log(), final(w).log(), r is Ok),
        wrote_one(old(v).log(), final(v).log(), s is Ok),
        wrote_one(old(x).log(), final(x).log(), t is Ok),
        r is Ok ==> (final(w).log().last().data matches Some(PacketDataView::TrackEvent(e))
            && has_event(final(w).log(), track, timestamp, e) && (e.event_type == Some(TrackEventType::SliceBegin)) && e.name == Some(name@) && e.debug_annotations
            == annotations.deep_view()),
        s is Ok ==> (final(v).log().last().data matches Some(PacketDataView::TrackEvent(e))
            && has_event(final(v).log(), track, timestamp, e) && (e.event_type == Some(TrackEventType::SliceEnd))),
        t is Ok ==> (final(x).log().last().data matches Some(PacketDataView::TrackEvent(e))
            && has_event(final(x).log(), track, timestamp, e) && (e.event_type == Some(TrackEventType::Instant)) && e.name == Some(name@) && e.debug_annotations
            == annotations.deep_view()),
{
}

/// The value of a counter is on its track, as an integer or as a floating-point value.
pub proof fn counter_values_are_told<W: PacketSink>(
    w: &mut PerfettoStreamWriter<W>,
    v: &mut PerfettoStreamWriter<W>,
    track: u64,
    value: i64,
    bits: u64,
    timestamp: u64,
    r: Result<(), W::Error>,
    s: Result<(), W::Error>,
)
    requires
        call_ensures(
            PerfettoStreamWriter::<W>::write_counter_value,
            (w, track, value, timestamp),
            r,
        ),
        call_ensures(
            PerfettoStreamWriter::<W>::write_double_counter_value,
            (v, track, bits, timestamp),
            s,
        ),
    ensures
        wrote_one(old(w).log(), final(w).log(), r is Ok),
        wrote_one(old(v).log(), final(v).log(), s is Ok),
        r is Ok ==> (final(w).log().last().data matches Some(PacketDataView::TrackEvent(e))
            && has_event(final(w).log(), track, timestamp, e) && (e.event_type == Some(TrackEventType::Counter)) && e.counter_value == Some(CounterValue::Int(value))),
        s is Ok ==> (final(v).log().last().data matches Some(PacketDataView::TrackEvent(e))
            && has_event(final(v).log(), track, timestamp, e) && (e.event_type == Some(TrackEventType::Counter)) && e.counter_value == Some(CounterValue::Double(bits))),
{
}

/// A sample is told with its processor, process, thread, time and call stack.
pub proof fn sample_is_told<W: PacketSink>(
    w: &mut PerfettoStreamWriter<W>,
    cpu: u32,
    pid: u32,
    tid: u32,
    timestamp: u64,
    callstack: u64,
    mode: CpuMode,
    r: Result<(), W::Error>,
)
    requires
        call_ensures(
            PerfettoStreamWriter::<W>::write_perf_sample,
            (w, cpu, pid, tid, timestamp, callstack, mode),
            r,
        ),
    ensures
        wrote_one(old(w).log(), final(w).log(), r is Ok),
        r is Ok ==> {
            &&& final(w).log().last().timestamp == Some(timestamp)
            &&& final(w).log().last().data matches Some(PacketDataView::PerfSample(s))
            &&& s.cpu == Some(cpu)
            &&& s.pid == Some(pid)
            &&& s.tid == Some(tid)
            &&& s.callstack_iid == Some(callstack)
            &&& s.cpu_mode == Some(mode)
        },
{
}

/// Interned data is written as it is: by itself it starts over, and as a continuation it needs
/// what came before. The frames and functions in it are counted.
pub proof fn interned_data_is_told<W: PacketSink>(
    w: &mut PerfettoStreamWriter<W>,
    v: &mut PerfettoStreamWriter<W>,
    data: InternedData,
    r: Result<(), W::Error>,
    s: Result<(), W::Error>,
)
    requires
        call_ensures(PerfettoStreamWriter::<W>::write_interned_data, (w, data), r),
        call_ensures(PerfettoStreamWriter::<W>::write_interned_data_next, (v, data), s),
        old(w).counters().frames + data.frames@.len() <= u64::MAX,
        old(w).counters().functions + data.function_names@.len() <= u64::MAX,
    ensures
        wrote_one(old(w).log(), final(w).log(), r is Ok),
        wrote_one(old(v).log(), final(v).log(), s is Ok),
        r is Ok ==> final(w).log().last().interned_data == Some(data.deep_view()) && (
        final(w).log().last().sequence_flags matches Some(f) && f is IncrementalStateCleared),
        s is Ok ==> final(v).log().last().interned_data == Some(data.deep_view()) && (
        final(v).log().last().sequence_flags matches Some(f) && f is NeedsIncrementalState),
        final(w).counters().frames == old(w).counters().frames + data.frames@.len(),
        final(w).counters().functions == old(w).counters().functions + data.function_names@.len(),
        final(w).counters().track_uuid == old(w).counters().track_uuid,
{
}

/// A call stack is written with its number and its frames in order, each with its own address and
/// function; the first one starts over, and later ones need what came before.
pub proof fn call_stack_is_told<W: PacketSink>(
    w: &mut PerfettoStreamWriter<W>,
    iid: u64,
    frames: Vec<(&str, &str, u64)>,
    r: Result<(), W::Error>,
    i: int,
)
    requires
        call_ensures(
            PerfettoStreamWriter::<W>::write_callstack_interned_data,
            (w, iid, frames),
            r,
        ),
        old(w).counters().frames + 1 + frames@.len() <= u64::MAX,
        r is Ok,
    ensures
        wrote_one(old(w).log(), final(w).log(), true),
        ({
            let first = old(w).counters().frames == 0 && old(w).counters().functions == 0;
            let p = final(w).log().last();
            &&& p.sequence_flags matches Some(f) && (f is IncrementalStateCleared <==> first)
            &&& p.interned_data matches Some(d)
            &&& d.callstacks.len() == 1
            &&& d.callstacks[0].iid == Some(iid)
            &&& d.callstacks[0].frame_ids.len() == frames@.len()
            &&& d.frames.len() == frames@.len()
            &&& 0 <= i < frames@.len() ==> {
                &&& laws::is_frame_number(d, d.callstacks[0].frame_ids[i], i)
                &&& d.frames[i].rel_pc == Some(frames@[i].2)
                &&& laws::has_function(d, d.frames[i], frames@[i].0@)
            }
        }),
{
    let told = frames.deep_view();
    laws::callstack_is_described(iid, old(w).counters().frames, told);
    let d = final(w).log().last().interned_data->Some_0;
    if 0 <= i < frames@.len() {
        assert(told[i] == frames@[i].deep_view());
        assert(laws::is_frame_number(d, d.callstacks[0].frame_ids[i], i));
    }
}

/// An annotation has the name and the value that it was made of.
pub proof fn annotation_is_told(name: String, value: DebugValue, a: DebugAnnotation)
    requires
        call_ensures(create_debug_annotation, (name, value), a),
    ensures
        a.deep_view().name == Some(name@),
        a.deep_view().value == Some(value.deep_view()),
{
}

/// A packet that is handed over as it is, is written as it is.
pub proof fn packet_is_written<W: PacketSink>(
    w: &mut PerfettoStreamWriter<W>,
    packet: crate::perfetto::model::TracePacket,
    r: Result<(), W::Error>,
)
    requires
        call_ensures(PerfettoStreamWriter::<W>::write_packet, (w, packet), r),
    ensures
        r is Ok ==> final(w).log() == old(w).log().push(packet.deep_view()),
        r is Err ==> final(w).log() == old(w).log(),
        final(w).counters() == old(w).counters(),
{
    let h = (old(w).history(), final(w).history());
}

/// The data of a call stack has its number and its frames in order, each with its own address and
/// function; that of the first one also names what is unknown.
pub proof fn call_stacks_are_interned(
    iid: u64,
    first: u64,
    frames: Vec<(&str, &str, u64)>,
    data: InternedData,
    next: InternedData,
    i: int,
)
    requires
        call_ensures(create_callstack_interned_data, (iid, frames), data),
        call_ensures(create_callstack_interned_next, (iid, first, frames), next),
        first + 1 + frames@.len() <= u64::MAX,
        0 <= i < frames@.len(),
    ensures
        ({
            let d = data.deep_view();
            &&& d.callstacks.len() == 1
            &&& d.callstacks[0].iid == Some(iid)
            &&& d.callstacks[0].frame_ids.len() == frames@.len()
            &&& laws::is_frame_number(d, d.callstacks[0].frame_ids[i], i)
            &&& d.frames[i].rel_pc == Some(frames@[i].2)
            &&& laws::has_function(d, d.frames[i], frames@[i].0@)
            &&& d.mappings.len() == 1
        }),
        ({
            let d = next.deep_view();
            &&& d.callstacks.len() == 1
            &&& d.callstacks[0].iid == Some(iid)
            &&& d.callstacks[0].frame_ids.len() == frames@.len()
            &&& d.callstacks[0].frame_ids[i] >= first
            &&& laws::is_frame_number(d, d.callstacks[0].frame_ids[i], i)
            &&& d.frames[i].rel_pc == Some(frames@[i].2)
            &&& laws::has_function(d, d.frames[i], frames@[i].0@)
            &&& d.mappings.len() == 0
        }),
{
    let told = frames.deep_view();
    laws::callstack_is_described(iid, first, told);
    assert(told[i] == frames@[i].deep_view());
    let d = data.deep_view();
    let e = next.deep_view();
    assert(laws::is_frame_number(d, d.callstacks[0].frame_ids[i], i));
    assert(laws::is_frame_number(e, e.callstacks[0].frame_ids[i], i));
}

} // verus!
