//! Where in a trace an event ends up.

use crate::converter::interned_data_iter;
use crate::converter::interned_data_iter::{
    find_frame, find_text, resolve_frames, FrameIterable, InternedDataIterable,
    InternedStringIterable,
};
use crate::converter::laws;
use crate::converter::perfetto;
use crate::converter::perfetto::PerfettoConverter;
use crate::converter::profiler;
use crate::converter::profiler::ProfilerConverter;
use crate::converter::steps;
use crate::converter::steps::{Step, Tracks};
use crate::converter::tracks;
use crate::perfetto::model::{
    CounterValue, CpuMode, DebugAnnotationView, DebugValueView, PacketDataView, TracePacketView,
    TrackEventType, TrackEventView,
};
use crate::perfetto::sink;
use crate::perfetto::sink::{History, PacketSink};
use crate::protocol::events;
use crate::protocol::events::TraceInput;
use crate::protocol::labels::Labels;
use vstd::prelude::*;

verus! {

/// The packet describes the track `uuid` of the process `pid`.
pub open spec fn is_process(p: TracePacketView, uuid: u64, pid: i32) -> bool {
    &&& p.data matches Some(PacketDataView::TrackDescriptor(d))
    &&& d.uuid == Some(uuid)
    &&& d.process matches Some(of)
    &&& of.pid == Some(pid)
    &&& d.thread is None
    &&& d.counter is None
}

/// The packet describes the track `uuid` of the thread `tid` of the process `pid`, below the
/// track `parent`.
pub open spec fn is_thread(p: TracePacketView, uuid: u64, pid: i32, tid: i32, parent: u64) -> bool {
    &&& p.data matches Some(PacketDataView::TrackDescriptor(d))
    &&& d.uuid == Some(uuid)
    &&& d.parent_uuid == Some(parent)
    &&& d.thread matches Some(of)
    &&& of.pid == Some(pid)
    &&& of.tid == Some(tid)
    &&& d.process is None
    &&& d.counter is None
}

/// The packet describes the track `uuid` of a counter with the name `name`, below the track
/// `parent`.
pub open spec fn is_counter(
    p: TracePacketView,
    uuid: u64,
    name: Seq<char>,
    parent: u64,
) -> bool {
    &&& p.data matches Some(PacketDataView::TrackDescriptor(d))
    &&& d.uuid == Some(uuid)
    &&& d.parent_uuid == Some(parent)
    &&& d.name == Some(name)
    &&& d.counter is Some
    &&& d.process is None
    &&& d.thread is None
}

/// A packet describes the track `uuid` of the process `pid`.
pub open spec fn has_process(log: Seq<TracePacketView>, uuid: u64, pid: i32) -> bool {
    exists|i: int| 0 <= i < log.len() && #[trigger] is_process(log[i], uuid, pid)
}

/// A packet describes the track `uuid` of the thread `tid` of the process `pid`.
pub open spec fn has_thread(
    log: Seq<TracePacketView>,
    uuid: u64,
    pid: i32,
    tid: i32,
    parent: u64,
) -> bool {
    exists|i: int| 0 <= i < log.len() && #[trigger] is_thread(log[i], uuid, pid, tid, parent)
}

/// A packet describes the track `uuid` of the counter `name` below `parent`.
pub open spec fn has_counter(
    log: Seq<TracePacketView>,
    uuid: u64,
    name: Seq<char>,
    parent: u64,
) -> bool {
    exists|i: int| 0 <= i < log.len() && #[trigger] is_counter(log[i], uuid, name, parent)
}

/// The track of a process is described with the number of the process.
pub open spec fn process_is_placed(log: Seq<TracePacketView>, t: Tracks, pid: i32) -> bool {
    t.processes.contains_key(pid) ==> has_process(log, t.processes[pid], pid)
}

/// The track of a thread is described with the numbers of the thread and of its process, below the
/// track of that process.
pub open spec fn thread_is_placed(log: Seq<TracePacketView>, t: Tracks, k: (i32, i32)) -> bool {
    t.threads.contains_key(k) ==> {
        &&& t.processes.contains_key(k.0)
        &&& has_thread(log, t.threads[k], k.0, k.1, t.processes[k.0])
    }
}

/// The track `uuid` of the counter `name` is described with this name, below the track of the
/// thread `tid` of the process `pid`.
pub open spec fn counter_below(
    log: Seq<TracePacketView>,
    t: Tracks,
    uuid: u64,
    pid: i32,
    tid: i32,
    name: Seq<char>,
) -> bool {
    t.threads.contains_key((pid, tid)) && has_counter(log, uuid, name, t.threads[(pid, tid)])
}

/// The track of a counter of the thread `tid` is described with the name of the counter, below the
/// track of a thread with this number.
pub open spec fn counter_is_placed(
    log: Seq<TracePacketView>,
    t: Tracks,
    tid: i32,
    name: Seq<char>,
) -> bool {
    let key = tracks::counter_key(tid, name);
    t.counters.contains_key(key) ==> exists|pid: i32| #[trigger]
        counter_below(log, t, t.counters[key], pid, tid, name)
}

/// Each track is described as what it is taken for.
pub open spec fn placed(log: Seq<TracePacketView>, t: Tracks) -> bool {
    &&& forall|pid: i32| #[trigger] process_is_placed(log, t, pid)
    &&& forall|k: (i32, i32)| #[trigger] thread_is_placed(log, t, k)
    &&& forall|tid: i32, name: Seq<char>| #[trigger] counter_is_placed(log, t, tid, name)
}

proof fn descriptions_stay(log: Seq<TracePacketView>, p: TracePacketView)
    ensures
        forall|u: u64, pid: i32| has_process(log, u, pid) ==> #[trigger] has_process(
            log.push(p),
            u,
            pid,
        ),
        forall|u: u64, pid: i32, tid: i32, parent: u64|
            has_thread(log, u, pid, tid, parent) ==> #[trigger] has_thread(
                log.push(p),
                u,
                pid,
                tid,
                parent,
            ),
        forall|u: u64, name: Seq<char>, parent: u64|
            has_counter(log, u, name, parent) ==> #[trigger] has_counter(
                log.push(p),
                u,
                name,
                parent,
            ),
{
    let more = log.push(p);
    assert forall|u: u64, pid: i32| has_process(log, u, pid) implies #[trigger] has_process(
        more,
        u,
        pid,
    ) by {
        let i = choose|i: int| 0 <= i < log.len() && #[trigger] is_process(log[i], u, pid);
        assert(is_process(more[i], u, pid));
    }
    assert forall|u: u64, pid: i32, tid: i32, parent: u64|
        has_thread(log, u, pid, tid, parent) implies #[trigger] has_thread(
        more,
        u,
        pid,
        tid,
        parent,
    ) by {
        let i = choose|i: int|
            0 <= i < log.len() && #[trigger] is_thread(log[i], u, pid, tid, parent);
        assert(is_thread(more[i], u, pid, tid, parent));
    }
    assert forall|u: u64, name: Seq<char>, parent: u64|
        has_counter(log, u, name, parent) implies #[trigger] has_counter(more, u, name, parent) by {
        let i = choose|i: int| 0 <= i < log.len() && #[trigger] is_counter(log[i], u, name, parent);
        assert(is_counter(more[i], u, name, parent));
    }
}

/// The tables of `t2` are those of `t`.
spec fn same_tables(t: Tracks, t2: Tracks) -> bool {
    &&& t2.processes == t.processes
    &&& t2.threads == t.threads
    &&& t2.counters == t.counters
}

/// Where tables and packets only grow, what was placed stays so.
proof fn placed_grows(log: Seq<TracePacketView>, t: Tracks, t2: Tracks, p: TracePacketView)
    requires
        placed(log, t),
        same_tables(t, t2),
    ensures
        placed(log, t2),
        placed(log.push(p), t2),
{
    descriptions_stay(log, p);
    let more = log.push(p);
    assert forall|pid: i32| #[trigger]
        process_is_placed(log, t2, pid) && process_is_placed(more, t2, pid) by {
        assert(process_is_placed(log, t, pid));
    }
    assert forall|pid: i32| #[trigger] process_is_placed(more, t2, pid) by {
        assert(process_is_placed(log, t2, pid));
    }
    assert forall|k: (i32, i32)| #[trigger] thread_is_placed(log, t2, k) by {
        assert(thread_is_placed(log, t, k));
    }
    assert forall|k: (i32, i32)| #[trigger] thread_is_placed(more, t2, k) by {
        assert(thread_is_placed(log, t2, k));
    }
    assert forall|tid: i32, name: Seq<char>| #[trigger] counter_is_placed(log, t2, tid, name) by {
        counter_stays_placed(log, t, log, t2, tid, name);
    }
    assert forall|tid: i32, name: Seq<char>| #[trigger] counter_is_placed(more, t2, tid, name) by {
        counter_stays_placed(log, t, more, t2, tid, name);
    }
}

/// A counter stays placed where packets and threads are added and it has the same track.
proof fn counter_stays_placed(
    log: Seq<TracePacketView>,
    t: Tracks,
    more: Seq<TracePacketView>,
    t2: Tracks,
    tid: i32,
    name: Seq<char>,
)
    requires
        placed(log, t),
        t2.counters.contains_key(tracks::counter_key(tid, name)) ==> t.counters.contains_key(
            tracks::counter_key(tid, name),
        ) && t2.counters[tracks::counter_key(tid, name)] == t.counters[tracks::counter_key(
            tid,
            name,
        )],
        forall|k: (i32, i32)| #[trigger]
            t.threads.contains_key(k) ==> t2.threads.contains_key(k) && t2.threads[k] == t.threads[k],
        forall|u: u64, n: Seq<char>, parent: u64|
            has_counter(log, u, n, parent) ==> #[trigger] has_counter(more, u, n, parent),
    ensures
        counter_is_placed(more, t2, tid, name),
{
    let key = tracks::counter_key(tid, name);
    assert(counter_is_placed(log, t, tid, name));
    if t2.counters.contains_key(key) {
        let u = t.counters[key];
        let pid = choose|pid: i32| #[trigger] counter_below(log, t, u, pid, tid, name);
        assert(counter_below(log, t, u, pid, tid, name));
        assert(t.threads.contains_key((pid, tid)));
        assert(counter_below(more, t2, u, pid, tid, name));
    }
}

/// Placed along `todo`, wherever it stops.
spec fn stays(log: Seq<TracePacketView>, t: Tracks, todo: Seq<Step>) -> bool
    decreases todo.len(),
{
    &&& placed(log, t)
    &&& todo.len() > 0 ==> {
        &&& placed(log, todo[0].failed)
        &&& stays(log.push(todo[0].packet), todo[0].done, todo.drop_first())
    }
}

proof fn stays_both(log: Seq<TracePacketView>, t: Tracks, a: Seq<Step>, b: Seq<Step>)
    requires
        stays(log, t, a),
        stays(log + steps::packets(a), steps::end(t, a), b),
    ensures
        stays(log, t, a + b),
    decreases a.len(),
{
    if a.len() == 0 {
        assert(a + b =~= b);
        assert(log + steps::packets(a) =~= log);
    } else {
        let rest = a.drop_first();
        assert((a + b).drop_first() =~= rest + b);
        assert(log.push(a[0].packet) + steps::packets(rest) =~= log + steps::packets(a));
        stays_both(log.push(a[0].packet), a[0].done, rest, b);
    }
}

proof fn stays_end(log: Seq<TracePacketView>, t: Tracks, a: Seq<Step>)
    requires
        stays(log, t, a),
    ensures
        placed(log + steps::packets(a), steps::end(t, a)),
    decreases a.len(),
{
    if a.len() == 0 {
        assert(log + steps::packets(a) =~= log);
    } else {
        let rest = a.drop_first();
        assert(log.push(a[0].packet) + steps::packets(rest) =~= log + steps::packets(a));
        stays_end(log.push(a[0].packet), a[0].done, rest);
    }
}

proof fn stays_stopped(log: Seq<TracePacketView>, t: Tracks, a: Seq<Step>, n: int)
    requires
        stays(log, t, a),
        0 <= n < a.len(),
    ensures
        placed(log + steps::packets(a.take(n)), a[n].failed),
    decreases a.len(),
{
    if n == 0 {
        assert(log + steps::packets(a.take(0)) =~= log);
    } else {
        let rest = a.drop_first();
        assert(log.push(a[0].packet) + steps::packets(rest.take(n - 1)) =~= log + steps::packets(
            a.take(n),
        ));
        stays_stopped(log.push(a[0].packet), a[0].done, rest, n - 1);
    }
}

proof fn stays_ran<E>(
    h: History<E>,
    t: Tracks,
    todo: Seq<Step>,
    r: Result<(), E>,
    after: History<E>,
    t_after: Tracks,
)
    requires
        stays(h.log, t, todo),
        steps::ran(h, t, todo, r, after, t_after),
    ensures
        placed(after.log, t_after),
{
    match r {
        Ok(_) => {
            stays_end(h.log, t, todo);
        },
        Err(e) => {
            let n = choose|n: int| steps::stopped_at(h, todo, n, e, after, t_after);
            stays_stopped(h.log, t, todo, n);
        },
    }
}

proof fn stays_one(log: Seq<TracePacketView>, t: Tracks, step: Step)
    requires
        placed(log, t),
        placed(log, step.failed),
        placed(log.push(step.packet), step.done),
    ensures
        stays(log, t, seq![step]),
{
    reveal_with_fuel(stays, 2);
    assert(seq![step].drop_first() =~= seq![]);
}

/// A number keeps its value through the type without sign.
pub(crate) proof fn number_survives(n: i32)
    ensures
        n as u32 as i32 == n,
{
    assert(n as u32 as i32 == n) by (bit_vector);
}

proof fn stays_process(log: Seq<TracePacketView>, t: Tracks, pid: i32, name: Option<Seq<char>>)
    requires
        placed(log, t),
    ensures
        stays(log, t, tracks::process_steps(t, pid, name)),
        steps::end(t, tracks::process_steps(t, pid, name)).processes.contains_key(pid),
        steps::end(t, tracks::process_steps(t, pid, name)).threads == t.threads,
        steps::end(t, tracks::process_steps(t, pid, name)).counters == t.counters,
        t.processes.contains_key(pid) ==> steps::end(
            t,
            tracks::process_steps(t, pid, name),
        ).processes == t.processes,
{
    let todo = tracks::process_steps(t, pid, name);
    if !t.processes.contains_key(pid) {
        let step = todo[0];
        let more = log.push(step.packet);
        let uuid = t.numbers.track_uuid;
        number_survives(pid);
        placed_grows(log, t, tracks::numbered(t), step.packet);
        assert(is_process(more[log.len() as int], uuid, pid));
        assert(has_process(more, uuid, pid));
        let done = step.done;
        let t0 = tracks::numbered(t);
        assert forall|p: i32| #[trigger] process_is_placed(more, done, p) by {
            assert(process_is_placed(more, t0, p));
        }
        assert forall|k: (i32, i32)| #[trigger] thread_is_placed(more, done, k) by {
            assert(thread_is_placed(more, t0, k));
        }
        assert forall|tid: i32, n: Seq<char>| #[trigger] counter_is_placed(more, done, tid, n) by {
            counter_stays_placed(more, t0, more, done, tid, n);
        }
        stays_one(log, t, step);
        assert(todo =~= seq![step]);
    }
}

proof fn stays_thread(
    log: Seq<TracePacketView>,
    t: Tracks,
    pid: i32,
    tid: i32,
    name: Option<Seq<char>>,
)
    requires
        placed(log, t),
    ensures
        stays(log, t, tracks::thread_steps(t, pid, tid, name)),
        ({
            let t1 = steps::end(t, tracks::thread_steps(t, pid, tid, name));
            &&& t1.threads.contains_key((pid, tid))
            &&& t1.counters == t.counters
            &&& forall|k: (i32, i32)| #[trigger]
                t1.threads.contains_key(k) ==> t.threads.contains_key(k) || k == (pid, tid)
        }),
{
    let todo = tracks::thread_steps(t, pid, tid, name);
    if !t.threads.contains_key((pid, tid)) {
        let a = tracks::process_steps(t, pid, None);
        let t1 = steps::end(t, a);
        let step = todo.last();
        stays_process(log, t, pid, None);
        stays_end(log, t, a);
        let log1 = log + steps::packets(a);
        let more = log1.push(step.packet);
        let uuid = t1.numbers.track_uuid;
        number_survives(pid);
        number_survives(tid);
        placed_grows(log1, t1, tracks::numbered(t1), step.packet);
        assert(is_thread(more[log1.len() as int], uuid, pid, tid, t1.processes[pid]));
        assert(has_thread(more, uuid, pid, tid, t1.processes[pid]));
        let done = step.done;
        let t0 = tracks::numbered(t1);
        assert forall|p: i32| #[trigger] process_is_placed(more, done, p) by {
            assert(process_is_placed(more, t0, p));
        }
        assert forall|k: (i32, i32)| #[trigger] thread_is_placed(more, done, k) by {
            assert(thread_is_placed(more, t0, k));
        }
        assert forall|q: i32, n: Seq<char>| #[trigger] counter_is_placed(more, done, q, n) by {
            counter_stays_placed(more, t0, more, done, q, n);
        }
        stays_one(log1, t1, step);
        stays_both(log, t, a, seq![step]);
        assert(todo =~= a + seq![step]);
    }
}

proof fn stays_counter_track(
    log: Seq<TracePacketView>,
    t: Tracks,
    pid: i32,
    tid: i32,
    name: Seq<char>,
    unit: Option<Seq<char>>,
)
    requires
        placed(log, t),
        t.threads.contains_key((pid, tid)),
    ensures
        ({
            let todo = tracks::counter_track_steps(t, tid, name, unit, t.threads[(pid, tid)]);
            let t1 = steps::end(t, todo);
            &&& stays(log, t, todo)
            &&& t1.counters.contains_key(tracks::counter_key(tid, name))
            &&& t1.threads == t.threads
        }),
{
    let key = tracks::counter_key(tid, name);
    let parent = t.threads[(pid, tid)];
    let todo = tracks::counter_track_steps(t, tid, name, unit, parent);
    if !t.counters.contains_key(key) {
        let step = todo[0];
        let more = log.push(step.packet);
        let uuid = t.numbers.track_uuid;
        placed_grows(log, t, tracks::numbered(t), step.packet);
        assert(is_counter(more[log.len() as int], uuid, name, parent));
        let done = step.done;
        let t0 = tracks::numbered(t);
        assert forall|p: i32| #[trigger] process_is_placed(more, done, p) by {
            assert(process_is_placed(more, t0, p));
        }
        assert forall|k: (i32, i32)| #[trigger] thread_is_placed(more, done, k) by {
            assert(thread_is_placed(more, t0, k));
        }
        assert(has_counter(more, uuid, name, parent));
        assert forall|q: i32, n: Seq<char>| #[trigger] counter_is_placed(more, done, q, n) by {
            if tracks::counter_key(q, n) == key {
                laws::counters_are_found_apart(q, n, tid, name);
                assert(done.counters[key] == uuid);
                assert(counter_below(more, done, uuid, pid, q, n));
            } else {
                counter_stays_placed(more, t0, more, done, q, n);
            }
        }
        stays_one(log, t, step);
        assert(todo =~= seq![step]);
    }
}

proof fn stays_plain(log: Seq<TracePacketView>, t: Tracks, a: Seq<Step>, p: TracePacketView)
    requires
        stays(log, t, a),
    ensures
        stays(log, t, a + seq![tracks::plain_step(steps::end(t, a), p)]),
{
    let t1 = steps::end(t, a);
    let log1 = log + steps::packets(a);
    stays_end(log, t, a);
    placed_grows(log1, t1, t1, p);
    stays_one(log1, t1, tracks::plain_step(t1, p));
    stays_both(log, t, a, seq![tracks::plain_step(t1, p)]);
}

proof fn stays_interned<D: InternedDataIterable>(
    log: Seq<TracePacketView>,
    t: Tracks,
    data: D,
    n: int,
)
    requires
        placed(log, t),
        0 <= n,
    ensures
        stays(log, t, tracks::interned_steps(t, data, n)),
    decreases n,
{
    if n > 0 {
        let a = tracks::interned_steps(t, data, n - 1);
        let t1 = steps::end(t, a);
        let step = tracks::callstack_step(t1, data, n - 1);
        stays_interned(log, t, data, n - 1);
        stays_end(log, t, a);
        placed_grows(log + steps::packets(a), t1, step.done, step.packet);
        stays_one(log + steps::packets(a), t1, step);
        stays_both(log, t, a, seq![step]);
        assert(tracks::interned_steps(t, data, n) =~= a + seq![step]);
    }
}

proof fn stays_event(log: Seq<TracePacketView>, t: Tracks, event: TraceInput)
    requires
        placed(log, t),
    ensures
        stays(log, t, perfetto::event_steps(t, event)),
{
    let todo = perfetto::event_steps(t, event);
    match event {
        TraceInput::InternedData(data) => {
            stays_interned(log, t, data, data.callstacks@.len() as int);
        },
        TraceInput::Sample(sample) => {
            placed_grows(log, t, t, todo[0].packet);
            stays_one(log, t, todo[0]);
        },
        TraceInput::Counter(c) => {
            stays_counter(log, t, c);
        },
        TraceInput::Span(s) => {
            let a = tracks::thread_steps(t, s.pid, s.tid, None);
            stays_thread(log, t, s.pid, s.tid, None);
            let begin = todo[a.len() as int];
            stays_plain(log, t, a, begin.packet);
            assert(steps::end(t, a + seq![begin]) == steps::end(t, a));
            stays_plain(log, t, a + seq![begin], todo.last().packet);
        },
        TraceInput::Instant(i) => {
            let a = tracks::thread_steps(t, i.pid, i.tid, None);
            stays_thread(log, t, i.pid, i.tid, None);
            stays_plain(log, t, a, todo.last().packet);
        },
        TraceInput::ThreadName(n) => {
            stays_thread(log, t, n.pid, n.tid, Some(n.name@));
        },
        TraceInput::ProcessName(n) => {
            stays_process(log, t, n.pid, Some(n.name@));
        },
    }
}

proof fn stays_counter(log: Seq<TracePacketView>, t: Tracks, c: events::Counter)
    requires
        placed(log, t),
    ensures
        ({
            let todo = perfetto::event_steps(t, TraceInput::Counter(c));
            &&& stays(log, t, todo)
            &&& steps::end(t, todo).counters.contains_key(tracks::counter_key(c.tid, c.name@))
            &&& forall|k: (i32, i32)| #[trigger]
                steps::end(t, todo).threads.contains_key(k) ==> t.threads.contains_key(k) || k == (
                    c.pid,
                    c.tid,
                )
        }),
{
    let todo = perfetto::event_steps(t, TraceInput::Counter(c));
    let unit = c.unit.deep_view();
    let a = tracks::thread_steps(t, c.pid, c.tid, None);
    let t1 = steps::end(t, a);
    let b = tracks::counter_track_steps(t1, c.tid, c.name@, unit, t1.threads[(c.pid, c.tid)]);
    stays_thread(log, t, c.pid, c.tid, None);
    stays_end(log, t, a);
    stays_counter_track(log + steps::packets(a), t1, c.pid, c.tid, c.name@, unit);
    stays_both(log, t, a, b);
    assert(steps::end(t, a + b) == steps::end(t1, b));
    stays_plain(log, t, a + b, todo.last().packet);
}

/// A new trace has no track that could be out of place.
pub proof fn new_trace_is_placed<W: PacketSink>(writer: W, c: PerfettoConverter<W>)
    requires
        call_ensures(PerfettoConverter::<W>::new, (writer,), c),
    ensures
        placed(c.history().log, c.tracks()),
{
}

/// A converter describes each track as what it takes it for, event after event, also where a
/// packet is not taken.
pub proof fn conversion_keeps_tracks_placed<W: PacketSink>(
    c: &mut PerfettoConverter<W>,
    event: &TraceInput,
    r: Result<(), W::Error>,
)
    requires
        call_ensures(PerfettoConverter::<W>::convert_event, (c, event), r),
        placed(old(c).history().log, old(c).tracks()),
    ensures
        placed(final(c).history().log, final(c).tracks()),
{
    let h = old(c).history();
    let t = old(c).tracks();
    stays_event(h.log, t, *event);
    stays_ran(
        h,
        t,
        perfetto::event_steps(t, *event),
        sink::answer(r),
        final(c).history(),
        final(c).tracks(),
    );
}

/// `annotations` tell all of `labels` and nothing else: each label under its name, with its value
/// and as what it is.
pub open spec fn tells(annotations: Seq<DebugAnnotationView>, labels: Labels) -> bool {
    &&& annotations.len() == labels.strings@.len() + labels.ints@.len() + labels.bools@.len()
        + labels.floats@.len()
    &&& forall|i: int|
        0 <= i < labels.strings@.len() ==> told(
            annotations,
            (#[trigger] labels.strings@[i]).0,
            DebugValueView::String(labels.strings@[i].1@),
        )
    &&& forall|i: int|
        0 <= i < labels.ints@.len() ==> told(
            annotations,
            (#[trigger] labels.ints@[i]).0,
            DebugValueView::Int(labels.ints@[i].1),
        )
    &&& forall|i: int|
        0 <= i < labels.bools@.len() ==> told(
            annotations,
            (#[trigger] labels.bools@[i]).0,
            DebugValueView::Bool(labels.bools@[i].1),
        )
    &&& forall|i: int|
        0 <= i < labels.floats@.len() ==> told(
            annotations,
            (#[trigger] labels.floats@[i]).0,
            DebugValueView::Double(labels.floats@[i].1),
        )
}

/// An annotation has the name `name` and the value `value`.
pub open spec fn told(
    annotations: Seq<DebugAnnotationView>,
    name: Seq<char>,
    value: DebugValueView,
) -> bool {
    exists|k: int|
        0 <= k < annotations.len() && (#[trigger] annotations[k]).name == Some(name)
            && annotations[k].value == Some(value)
}

proof fn annotations_tell(labels: Labels)
    ensures
        tells(tracks::label_annotations(labels), labels),
{
    let all = tracks::label_annotations(labels);
    let a = labels.strings@.len() as int;
    let b = a + labels.ints@.len();
    let c = b + labels.bools@.len();
    assert forall|i: int| 0 <= i < labels.strings@.len() implies told(
        all,
        (#[trigger] labels.strings@[i]).0,
        DebugValueView::String(labels.strings@[i].1@),
    ) by {
        assert(all[i].name == Some(labels.strings@[i].0));
    }
    assert forall|i: int| 0 <= i < labels.ints@.len() implies told(
        all,
        (#[trigger] labels.ints@[i]).0,
        DebugValueView::Int(labels.ints@[i].1),
    ) by {
        assert(all[a + i].name == Some(labels.ints@[i].0));
    }
    assert forall|i: int| 0 <= i < labels.bools@.len() implies told(
        all,
        (#[trigger] labels.bools@[i]).0,
        DebugValueView::Bool(labels.bools@[i].1),
    ) by {
        assert(all[b + i].name == Some(labels.bools@[i].0));
    }
    assert forall|i: int| 0 <= i < labels.floats@.len() implies told(
        all,
        (#[trigger] labels.floats@[i]).0,
        DebugValueView::Double(labels.floats@[i].1),
    ) by {
        assert(all[c + i].name == Some(labels.floats@[i].0));
    }
}

/// Every label is found among the annotations, and there are no others.
pub proof fn labels_are_annotated(
    labels: &Labels,
    out: Vec<crate::perfetto::model::DebugAnnotation>,
)
    requires
        call_ensures(tracks::create_debug_annotations, (labels,), out),
    ensures
        tells(out.deep_view(), *labels),
{
    annotations_tell(*labels);
}

/// The event of a packet.
pub open spec fn event_of(p: TracePacketView) -> Option<TrackEventView> {
    match p.data {
        Some(PacketDataView::TrackEvent(e)) => Some(e),
        _ => None,
    }
}

/// Behind what was in the log there are descriptions of tracks and then `n` other packets.
pub open spec fn tracks_and(
    before: Seq<TracePacketView>,
    log: Seq<TracePacketView>,
    n: int,
) -> bool {
    &&& before.len() + n <= log.len()
    &&& before.is_prefix_of(log)
    &&& forall|i: int|
        before.len() <= i < log.len() - n ==> (#[trigger] log[i]).data matches Some(
            PacketDataView::TrackDescriptor(_),
        )
}

/// The trace shows a value of a counter: on a track that is described with the name of the counter
/// below the track of its thread.
pub open spec fn shows_counter(
    before: Seq<TracePacketView>,
    log: Seq<TracePacketView>,
    v: events::Counter,
) -> bool {
    &&& tracks_and(before, log, 1)
    &&& log.last().timestamp == Some(v.timestamp)
    &&& event_of(log.last()) matches Some(e)
    &&& e.event_type == Some(TrackEventType::Counter)
    &&& e.counter_value == Some(CounterValue::Double(v.value_bits))
    &&& exists|uuid: u64, thread: u64, process: u64|
        e.track_uuid == Some(uuid) && #[trigger] has_counter(log, uuid, v.name@, thread)
            && #[trigger] has_thread(log, thread, v.pid, v.tid, process)
}

/// The trace shows a span: its begin with the name and the labels, and its end, at their times and
/// both on the track of the thread.
pub open spec fn shows_span(
    before: Seq<TracePacketView>,
    log: Seq<TracePacketView>,
    s: events::CompleteSpan,
) -> bool {
    &&& tracks_and(before, log, 2)
    &&& log[log.len() - 2].timestamp == Some(s.start_timestamp)
    &&& log[log.len() - 1].timestamp == Some(s.end_timestamp)
    &&& event_of(log[log.len() - 2]) matches Some(begin)
    &&& event_of(log[log.len() - 1]) matches Some(end)
    &&& begin.event_type == Some(TrackEventType::SliceBegin)
    &&& end.event_type == Some(TrackEventType::SliceEnd)
    &&& begin.name == Some(s.name@)
    &&& tells(begin.debug_annotations, s.labels)
    &&& begin.track_uuid == end.track_uuid
    &&& exists|uuid: u64, process: u64|
        begin.track_uuid == Some(uuid) && #[trigger] has_thread(log, uuid, s.pid, s.tid, process)
}

/// The trace shows an instant: with its name and labels, at its time and on the track of the
/// thread.
pub open spec fn shows_instant(
    before: Seq<TracePacketView>,
    log: Seq<TracePacketView>,
    i: events::Instant,
) -> bool {
    &&& tracks_and(before, log, 1)
    &&& log.last().timestamp == Some(i.timestamp)
    &&& event_of(log.last()) matches Some(e)
    &&& e.event_type == Some(TrackEventType::Instant)
    &&& e.name == Some(i.name@)
    &&& tells(e.debug_annotations, i.labels)
    &&& exists|uuid: u64, process: u64|
        e.track_uuid == Some(uuid) && #[trigger] has_thread(log, uuid, i.pid, i.tid, process)
}

/// The trace shows a sample: where, when, of which thread and with which call stack.
pub open spec fn shows_sample(
    before: Seq<TracePacketView>,
    log: Seq<TracePacketView>,
    s: events::Sample,
) -> bool {
    &&& log.len() == before.len() + 1
    &&& before.is_prefix_of(log)
    &&& log.last().timestamp == Some(s.timestamp)
    &&& log.last().data matches Some(PacketDataView::PerfSample(p))
    &&& p.cpu == Some(s.cpu)
    &&& p.pid == Some(s.pid as u32)
    &&& p.tid == Some(s.tid as u32)
    &&& p.callstack_iid == Some(s.callstack_iid)
    &&& p.cpu_mode == Some(CpuMode::ModeUser) <==> s.cpu_mode == events::CpuMode::User
    &&& p.cpu_mode == Some(CpuMode::ModeKernel) <==> s.cpu_mode == events::CpuMode::Kernel
}

/// What a trace shows of an event, names and interned data aside.
pub open spec fn shows(
    before: Seq<TracePacketView>,
    log: Seq<TracePacketView>,
    event: TraceInput,
) -> bool {
    match event {
        TraceInput::Counter(v) => shows_counter(before, log, v),
        TraceInput::Span(s) => shows_span(before, log, s),
        TraceInput::Instant(i) => shows_instant(before, log, i),
        TraceInput::Sample(s) => shows_sample(before, log, s),
        _ => true,
    }
}

/// The number of the thread of a counter belongs to no other process.
pub open spec fn thread_is_known_once(t: Tracks, event: TraceInput) -> bool {
    event matches TraceInput::Counter(v) ==> forall|pid: i32| #[trigger]
        t.threads.contains_key((pid, v.tid)) ==> pid == v.pid
}

proof fn tracks_are_descriptions(t: Tracks, pid: i32, tid: i32, name: Option<Seq<char>>)
    ensures
        forall|i: int|
            0 <= i < tracks::thread_steps(t, pid, tid, name).len() ==> (
            #[trigger] tracks::thread_steps(t, pid, tid, name)[i]).packet.data matches Some(
                PacketDataView::TrackDescriptor(_),
            ),
{
}

proof fn event_is_shown<E>(
    h: History<E>,
    t: Tracks,
    event: TraceInput,
    after: History<E>,
    t_after: Tracks,
)
    requires
        placed(h.log, t),
        thread_is_known_once(t, event),
        steps::ran(h, t, perfetto::event_steps(t, event), Ok(()), after, t_after),
    ensures
        shows(h.log, after.log, event),
{
    let todo = perfetto::event_steps(t, event);
    let log = after.log;
    stays_event(h.log, t, event);
    stays_end(h.log, t, todo);
    assert(log == h.log + steps::packets(todo));
    match event {
        TraceInput::Counter(v) => {
            let a = tracks::thread_steps(t, v.pid, v.tid, None);
            let t1 = steps::end(t, a);
            let key = tracks::counter_key(v.tid, v.name@);
            tracks_are_descriptions(t, v.pid, v.tid, None);
            stays_counter(h.log, t, v);
            assert(counter_is_placed(log, t_after, v.tid, v.name@));
            let uuid = t_after.counters[key];
            let pid = choose|pid: i32| #[trigger]
                counter_below(log, t_after, uuid, pid, v.tid, v.name@);
            assert(counter_below(log, t_after, uuid, pid, v.tid, v.name@));
            assert(t_after.threads.contains_key((pid, v.tid)));
            assert(pid == v.pid);
            assert(thread_is_placed(log, t_after, (v.pid, v.tid)));
            let thread = t_after.threads[(v.pid, v.tid)];
            assert(has_counter(log, uuid, v.name@, thread));
            assert(has_thread(log, thread, v.pid, v.tid, t_after.processes[v.pid]));
            assert(log.last() == todo.last().packet);
        },
        TraceInput::Span(s) => {
            tracks_are_descriptions(t, s.pid, s.tid, None);
            stays_thread(h.log, t, s.pid, s.tid, None);
            annotations_tell(s.labels);
            assert(thread_is_placed(log, t_after, (s.pid, s.tid)));
            let uuid = t_after.threads[(s.pid, s.tid)];
            assert(has_thread(log, uuid, s.pid, s.tid, t_after.processes[s.pid]));
            let n = todo.len() as int;
            assert(log[log.len() - 1] == todo[n - 1].packet);
            assert(log[log.len() - 2] == todo[n - 2].packet);
        },
        TraceInput::Instant(i) => {
            tracks_are_descriptions(t, i.pid, i.tid, None);
            stays_thread(h.log, t, i.pid, i.tid, None);
            annotations_tell(i.labels);
            assert(thread_is_placed(log, t_after, (i.pid, i.tid)));
            let uuid = t_after.threads[(i.pid, i.tid)];
            assert(has_thread(log, uuid, i.pid, i.tid, t_after.processes[i.pid]));
            assert(log.last() == todo.last().packet);
        },
        _ => {},
    }
}

/// What was converted is what the trace shows: each event at its time, on the track of its own
/// thread or counter, and with all that it says.
pub proof fn converted_event_is_shown<W: PacketSink>(
    c: &mut PerfettoConverter<W>,
    event: &TraceInput,
    r: Result<(), W::Error>,
)
    requires
        call_ensures(PerfettoConverter::<W>::convert_event, (c, event), r),
        r is Ok,
        placed(old(c).history().log, old(c).tracks()),
        thread_is_known_once(old(c).tracks(), *event),
    ensures
        shows(old(c).history().log, final(c).history().log, *event),
{
    event_is_shown(
        old(c).history(),
        old(c).tracks(),
        *event,
        final(c).history(),
        final(c).tracks(),
    );
}

/// The same of an event that was read from an archive.
pub proof fn converted_archived_event_is_shown<W: PacketSink>(
    c: &mut PerfettoConverter<W>,
    event: &TraceInput,
    r: Result<(), W::Error>,
)
    requires
        call_ensures(PerfettoConverter::<W>::convert_archived_event, (c, event), r),
        r is Ok,
        placed(old(c).history().log, old(c).tracks()),
        thread_is_known_once(old(c).tracks(), *event),
    ensures
        shows(old(c).history().log, final(c).history().log, *event),
{
    event_is_shown(
        old(c).history(),
        old(c).tracks(),
        *event,
        final(c).history(),
        final(c).tracks(),
    );
}

/// The same of the converter of profiling events.
pub proof fn converted_profiling_event_is_shown<W: PacketSink>(
    c: &mut ProfilerConverter<W>,
    event: &TraceInput,
    r: Result<(), W::Error>,
)
    requires
        call_ensures(ProfilerConverter::<W>::convert_event, (c, event), r),
        r is Ok,
        placed(old(c).history().log, old(c).tracks()),
        thread_is_known_once(old(c).tracks(), *event),
    ensures
        shows(old(c).history().log, final(c).history().log, *event),
{
    if event !is ThreadName && event !is ProcessName {
        event_is_shown(
            old(c).history(),
            old(c).tracks(),
            *event,
            final(c).history(),
            final(c).tracks(),
        );
    }
}

/// The packet describes a thread with the name `name`.
pub open spec fn names_thread(p: TracePacketView, name: Seq<char>) -> bool {
    p.data matches Some(PacketDataView::TrackDescriptor(d)) && d.thread matches Some(of)
        && of.thread_name == Some(name)
}

/// The packet describes a process with the name `name`.
pub open spec fn names_process(p: TracePacketView, name: Seq<char>) -> bool {
    p.data matches Some(PacketDataView::TrackDescriptor(d)) && d.process matches Some(of)
        && of.process_name == Some(name)
}

/// The last packet names the thread `tid` of the process `pid`, below the track of that process.
pub open spec fn shows_thread_name(log: Seq<TracePacketView>, n: events::ThreadName) -> bool {
    &&& log.len() > 0
    &&& names_thread(log.last(), n.name@)
    &&& exists|uuid: u64, process: u64| #[trigger]
        is_thread(log.last(), uuid, n.pid, n.tid, process) && has_process(log, process, n.pid)
}

/// The last packet names the process `pid`.
pub open spec fn shows_process_name(log: Seq<TracePacketView>, n: events::ProcessName) -> bool {
    &&& log.len() > 0
    &&& names_process(log.last(), n.name@)
    &&& exists|uuid: u64| #[trigger] is_process(log.last(), uuid, n.pid)
}

proof fn stays_rename(log: Seq<TracePacketView>, t: Tracks, a: Seq<Step>, step: Step)
    requires
        stays(log, t, a),
        step.failed == tracks::numbered(steps::end(t, a)),
        step.done == step.failed,
    ensures
        stays(log, t, a + seq![step]),
{
    let t1 = steps::end(t, a);
    let log1 = log + steps::packets(a);
    stays_end(log, t, a);
    placed_grows(log1, t1, step.done, step.packet);
    stays_one(log1, t1, step);
    stays_both(log, t, a, seq![step]);
}

proof fn stays_profiling_event(log: Seq<TracePacketView>, t: Tracks, event: TraceInput)
    requires
        placed(log, t),
    ensures
        stays(log, t, profiler::event_steps(t, event)),
{
    let todo = profiler::event_steps(t, event);
    match event {
        TraceInput::ThreadName(n) => {
            let a = tracks::process_steps(t, n.pid, None);
            let t1 = steps::end(t, a);
            let b = tracks::thread_steps(t1, n.pid, n.tid, None);
            stays_process(log, t, n.pid, None);
            stays_end(log, t, a);
            stays_thread(log + steps::packets(a), t1, n.pid, n.tid, None);
            stays_both(log, t, a, b);
            assert(steps::end(t, a + b) == steps::end(t1, b));
            stays_rename(log, t, a + b, todo.last());
        },
        TraceInput::ProcessName(n) => {
            let a = tracks::process_steps(t, n.pid, None);
            stays_process(log, t, n.pid, None);
            stays_rename(log, t, a, todo.last());
        },
        _ => {
            stays_event(log, t, event);
        },
    }
}

/// The converter of profiling events describes each track as what it takes it for, too.
pub proof fn profiling_conversion_keeps_tracks_placed<W: PacketSink>(
    c: &mut ProfilerConverter<W>,
    event: &TraceInput,
    r: Result<(), W::Error>,
)
    requires
        call_ensures(ProfilerConverter::<W>::convert_event, (c, event), r),
        placed(old(c).history().log, old(c).tracks()),
    ensures
        placed(final(c).history().log, final(c).tracks()),
{
    let h = old(c).history();
    let t = old(c).tracks();
    stays_profiling_event(h.log, t, *event);
    stays_ran(
        h,
        t,
        profiler::event_steps(t, *event),
        sink::answer(r),
        final(c).history(),
        final(c).tracks(),
    );
}

/// The converter of profiling events tells the name of a thread or process each time it hears of
/// it.
pub proof fn profiling_names_are_shown<W: PacketSink>(
    c: &mut ProfilerConverter<W>,
    event: &TraceInput,
    r: Result<(), W::Error>,
)
    requires
        call_ensures(ProfilerConverter::<W>::convert_event, (c, event), r),
        r is Ok,
        placed(old(c).history().log, old(c).tracks()),
    ensures
        event matches TraceInput::ThreadName(n) ==> shows_thread_name(final(c).history().log, *n),
        event matches TraceInput::ProcessName(n) ==> shows_process_name(
            final(c).history().log,
            *n,
        ),
{
    let h = old(c).history();
    let t = old(c).tracks();
    let todo = profiler::event_steps(t, *event);
    let log = final(c).history().log;
    profiling_conversion_keeps_tracks_placed(c, event, r);
    if let TraceInput::ThreadName(n) = *event {
        let a = tracks::process_steps(t, n.pid, None);
        let t1 = steps::end(t, a);
        number_survives(n.pid);
        number_survives(n.tid);
        stays_process(h.log, t, n.pid, None);
        stays_end(h.log, t, a);
        stays_thread(h.log + steps::packets(a), t1, n.pid, n.tid, None);
        let t2 = steps::end(t1, tracks::thread_steps(t1, n.pid, n.tid, None));
        assert(log.last() == todo.last().packet);
        assert(process_is_placed(log, final(c).tracks(), n.pid));
        assert(t2.processes[n.pid] == t1.processes[n.pid]);
        assert(is_thread(log.last(), t2.numbers.track_uuid, n.pid, n.tid, t1.processes[n.pid]));
        assert(has_process(log, t1.processes[n.pid], n.pid));
    }
    if let TraceInput::ProcessName(n) = *event {
        let a = tracks::process_steps(t, n.pid, None);
        number_survives(n.pid);
        assert(log.last() == todo.last().packet);
        assert(is_process(log.last(), steps::end(t, a).numbers.track_uuid, n.pid));
    }
}

/// The other converter tells the name of a thread or process with its track: where that was not
/// described before, and then it writes nothing.
pub proof fn names_are_shown<W: PacketSink>(
    c: &mut PerfettoConverter<W>,
    event: &TraceInput,
    r: Result<(), W::Error>,
)
    requires
        call_ensures(PerfettoConverter::<W>::convert_event, (c, event), r),
        r is Ok,
        placed(old(c).history().log, old(c).tracks()),
    ensures
        event matches TraceInput::ThreadName(n) ==> {
            if old(c).tracks().threads.contains_key((n.pid, n.tid)) {
                final(c).history().log == old(c).history().log
            } else {
                shows_thread_name(final(c).history().log, *n)
            }
        },
        event matches TraceInput::ProcessName(n) ==> {
            if old(c).tracks().processes.contains_key(n.pid) {
                final(c).history().log == old(c).history().log
            } else {
                shows_process_name(final(c).history().log, *n)
            }
        },
{
    let h = old(c).history();
    let t = old(c).tracks();
    let todo = perfetto::event_steps(t, *event);
    let log = final(c).history().log;
    conversion_keeps_tracks_placed(c, event, r);
    if todo.len() == 0 {
        assert(h.log + steps::packets(todo) =~= h.log);
    }
    if let TraceInput::ThreadName(n) = *event {
        if !t.threads.contains_key((n.pid, n.tid)) {
            let t1 = steps::end(t, tracks::process_steps(t, n.pid, None));
            number_survives(n.pid);
            number_survives(n.tid);
            assert(log.last() == todo.last().packet);
            assert(process_is_placed(log, final(c).tracks(), n.pid));
            stays_process(h.log, t, n.pid, None);
            assert(is_thread(
                log.last(),
                t1.numbers.track_uuid,
                n.pid,
                n.tid,
                t1.processes[n.pid],
            ));
        }
    }
    if let TraceInput::ProcessName(n) = *event {
        if !t.processes.contains_key(n.pid) {
            number_survives(n.pid);
            assert(log.last() == todo.last().packet);
            assert(is_process(log.last(), t.numbers.track_uuid, n.pid));
        }
    }
}

/// Each number of a frame or function names one, and the frames of all call stacks, and their
/// functions, are there.
pub open spec fn is_complete(data: events::InternedData) -> bool {
    &&& forall|i: int, j: int|
        0 <= i < j < data.frames@.len() ==> (#[trigger] data.frames@[i]).iid != (
        #[trigger] data.frames@[j]).iid
    &&& forall|i: int, j: int|
        0 <= i < j < data.function_names@.len() ==> (#[trigger] data.function_names@[i]).iid != (
        #[trigger] data.function_names@[j]).iid
    &&& forall|c: int, j: int|
        0 <= c < data.callstacks@.len() && 0 <= j < data.callstacks@[c].frame_ids@.len()
            ==> is_resolved(data, #[trigger] data.callstacks@[c].frame_ids@[j])
}

/// The frame with the number `id` and its function are there.
pub open spec fn is_resolved(data: events::InternedData, id: u64) -> bool {
    exists|f: int, n: int| #[trigger] resolves(data, id, f, n)
}

/// The frame at `f` has the number `id`, and the function at `n` is that of the frame.
pub open spec fn resolves(data: events::InternedData, id: u64, f: int, n: int) -> bool {
    &&& 0 <= f < data.frames@.len()
    &&& 0 <= n < data.function_names@.len()
    &&& data.frames@[f].iid == id
    &&& data.function_names@[n].iid == data.frames@[f].function_name_id
}

/// The packet holds the call stack `c`: with its number, and frame by frame, in order, with
/// addresses and names of functions.
pub open spec fn shows_callstack(
    p: TracePacketView,
    data: events::InternedData,
    c: events::Callstack,
) -> bool {
    &&& p.interned_data matches Some(d)
    &&& d.callstacks.len() == 1
    &&& d.callstacks[0].iid == Some(c.iid)
    &&& d.callstacks[0].frame_ids.len() == c.frame_ids@.len()
    &&& d.frames.len() == c.frame_ids@.len()
    &&& forall|j: int, f: int, n: int|
        0 <= j < c.frame_ids@.len() && #[trigger] resolves(data, c.frame_ids@[j], f, n) ==> {
            &&& crate::perfetto::laws::is_frame_number(d, d.callstacks[0].frame_ids[j], j)
            &&& d.frames[j].rel_pc == Some(data.frames@[f].rel_pc)
            &&& crate::perfetto::laws::has_function(
                d,
                d.frames[j],
                data.function_names@[n].str@,
            )
        }
}

proof fn frame_is_found(frames: Seq<events::Frame>, id: u64, f: int)
    requires
        0 <= f < frames.len(),
        frames[f].iid == id,
        forall|i: int, j: int|
            0 <= i < j < frames.len() ==> (#[trigger] frames[i]).iid != (#[trigger] frames[j]).iid,
    ensures
        interned_data_iter::frame_with(frames, id) == Some(frames[f]),
    decreases frames.len(),
{
    if f > 0 {
        let rest = frames.drop_first();
        assert forall|i: int, j: int| 0 <= i < j < rest.len() implies (#[trigger] rest[i]).iid != (
        #[trigger] rest[j]).iid by {
            assert(frames[i + 1].iid != frames[j + 1].iid);
        }
        assert(frames[0].iid != frames[f].iid);
        frame_is_found(rest, id, f - 1);
    }
}

proof fn text_is_found(texts: Seq<events::InternedString>, id: u64, n: int)
    requires
        0 <= n < texts.len(),
        texts[n].iid == id,
        forall|i: int, j: int|
            0 <= i < j < texts.len() ==> (#[trigger] texts[i]).iid != (#[trigger] texts[j]).iid,
    ensures
        interned_data_iter::text_with(texts, id) == Some(texts[n]),
    decreases texts.len(),
{
    if n > 0 {
        let rest = texts.drop_first();
        assert forall|i: int, j: int| 0 <= i < j < rest.len() implies (#[trigger] rest[i]).iid != (
        #[trigger] rest[j]).iid by {
            assert(texts[i + 1].iid != texts[j + 1].iid);
        }
        assert(texts[0].iid != texts[n].iid);
        text_is_found(rest, id, n - 1);
    }
}

proof fn frame_is_named(data: events::InternedData, id: u64, f: int, n: int)
    requires
        is_complete(data),
        resolves(data, id, f, n),
    ensures
        interned_data_iter::named_frame(data, id) matches Some(named) && named.0
            == data.function_names@[n].str@ && named.2 == data.frames@[f].rel_pc,
{
    frame_is_found(data.frames@, id, f);
    text_is_found(data.function_names@, data.frames@[f].function_name_id, n);
}

proof fn all_frames_are_named(data: events::InternedData, ids: Seq<u64>)
    requires
        is_complete(data),
        forall|j: int| 0 <= j < ids.len() ==> is_resolved(data, #[trigger] ids[j]),
    ensures
        interned_data_iter::named_frames(data, ids).len() == ids.len(),
        forall|j: int|
            0 <= j < ids.len() ==> interned_data_iter::named_frame(data, #[trigger] ids[j]) == Some(
                interned_data_iter::named_frames(data, ids)[j],
            ),
    decreases ids.len(),
{
    if ids.len() > 0 {
        let before = ids.drop_last();
        assert forall|j: int| 0 <= j < before.len() implies is_resolved(
            data,
            #[trigger] before[j],
        ) by {
            assert(is_resolved(data, ids[j]));
        }
        all_frames_are_named(data, before);
        let id = ids[ids.len() - 1];
        assert(is_resolved(data, id));
        let (f, n) = choose|f: int, n: int| #[trigger] resolves(data, id, f, n);
        frame_is_named(data, id, f, n);
        assert forall|j: int| 0 <= j < ids.len() implies interned_data_iter::named_frame(
            data,
            #[trigger] ids[j],
        ) == Some(interned_data_iter::named_frames(data, ids)[j]) by {
            if j < before.len() {
                assert(before[j] == ids[j]);
            }
        }
    }
}

proof fn callstack_is_shown(t: Tracks, data: events::InternedData, i: int)
    requires
        is_complete(data),
        0 <= i < data.callstacks@.len(),
        data.callstacks@[i].frame_ids@.len() < u64::MAX,
    ensures
        shows_callstack(
            tracks::callstack_step(t, data, i).packet,
            data,
            data.callstacks@[i],
        ),
{
    let c = data.callstacks@[i];
    let ids = c.frame_ids@;
    let frames = interned_data_iter::named_frames(data, ids);
    assert forall|j: int| 0 <= j < ids.len() implies is_resolved(data, #[trigger] ids[j]) by {
        assert(is_resolved(data, data.callstacks@[i].frame_ids@[j]));
    }
    all_frames_are_named(data, ids);
    crate::perfetto::laws::callstack_is_described(c.iid, 0, frames);
    let p = tracks::callstack_step(t, data, i).packet;
    let d = p.interned_data->Some_0;
    assert forall|j: int, f: int, n: int|
        0 <= j < ids.len() && #[trigger] resolves(data, ids[j], f, n) implies {
        &&& crate::perfetto::laws::is_frame_number(d, d.callstacks[0].frame_ids[j], j)
        &&& d.frames[j].rel_pc == Some(data.frames@[f].rel_pc)
        &&& crate::perfetto::laws::has_function(d, d.frames[j], data.function_names@[n].str@)
    } by {
        frame_is_named(data, ids[j], f, n);
        assert(interned_data_iter::named_frame(data, ids[j]) == Some(frames[j]));
        assert(crate::perfetto::laws::is_frame_number(d, d.callstacks[0].frame_ids[j], j));
    }
}

proof fn interned_steps_hold(t: Tracks, data: events::InternedData, n: int, i: int)
    requires
        0 <= i < n,
    ensures
        tracks::interned_steps(t, data, n).len() == n,
        exists|u: Tracks|
            tracks::interned_steps(t, data, n)[i].packet == (#[trigger] tracks::callstack_step(
                u,
                data,
                i,
            )).packet,
    decreases n,
{
    let before = tracks::interned_steps(t, data, n - 1);
    if n > 1 {
        interned_steps_hold(t, data, n - 1, if i < n - 1 {
            i
        } else {
            0
        });
    }
    if i == n - 1 {
        let u = steps::end(t, before);
        assert(tracks::interned_steps(t, data, n)[i].packet == tracks::callstack_step(
            u,
            data,
            i,
        ).packet);
    } else {
        let u = choose|u: Tracks|
            before[i].packet == (#[trigger] tracks::callstack_step(u, data, i)).packet;
        assert(tracks::interned_steps(t, data, n)[i].packet == tracks::callstack_step(
            u,
            data,
            i,
        ).packet);
    }
}

/// Interned data is written call stack by call stack, each with its number, addresses and names.
pub proof fn interned_data_is_shown<W: PacketSink>(
    c: &mut ProfilerConverter<W>,
    event: &TraceInput,
    r: Result<(), W::Error>,
    data: events::InternedData,
    i: int,
)
    requires
        call_ensures(ProfilerConverter::<W>::convert_event, (c, event), r),
        r is Ok,
        *event == TraceInput::InternedData(data),
        is_complete(data),
        0 <= i < data.callstacks@.len(),
        data.callstacks@[i].frame_ids@.len() < u64::MAX,
    ensures
        ({
            let before = old(c).history().log;
            let log = final(c).history().log;
            &&& log.len() == before.len() + data.callstacks@.len()
            &&& shows_callstack(log[before.len() + i], data, data.callstacks@[i])
        }),
{
    let t = old(c).tracks();
    let n = data.callstacks@.len() as int;
    interned_steps_hold(t, data, n, i);
    let u = choose|u: Tracks|
        tracks::interned_steps(t, data, n)[i].packet == (#[trigger] tracks::callstack_step(
            u,
            data,
            i,
        )).packet;
    callstack_is_shown(u, data, i);
}

/// A frame is found by its number: the first that has it, and none where no frame has.
pub proof fn frames_are_found_by_number<F: FrameIterable>(frames: &[F], id: u64, r: Option<&F>)
    requires
        call_ensures(find_frame::<F>, (frames, id), r),
    ensures
        r matches Some(f) ==> exists|i: int|
            0 <= i < frames@.len() && #[trigger] frames@[i] == *f && f.iid_spec() == id && forall|
                j: int,
            |
                0 <= j < i ==> (#[trigger] frames@[j]).iid_spec() != id,
        r is None ==> forall|i: int|
            0 <= i < frames@.len() ==> (#[trigger] frames@[i]).iid_spec() != id,
{
    first_frame_is_found(frames@, id);
}

proof fn first_frame_is_found<F: FrameIterable>(frames: Seq<F>, id: u64)
    ensures
        match interned_data_iter::frame_with(frames, id) {
            Some(f) => f.iid_spec() == id && exists|i: int|
                0 <= i < frames.len() && #[trigger] frames[i] == f && forall|j: int|
                    0 <= j < i ==> (#[trigger] frames[j]).iid_spec() != id,
            None => forall|i: int|
                0 <= i < frames.len() ==> (#[trigger] frames[i]).iid_spec() != id,
        },
    decreases frames.len(),
{
    if frames.len() > 0 {
        let rest = frames.drop_first();
        first_frame_is_found(rest, id);
        if frames[0].iid_spec() == id {
            assert(frames[0] == frames[0]);
        } else {
            match interned_data_iter::frame_with(rest, id) {
                Some(f) => {
                    let i = choose|i: int|
                        0 <= i < rest.len() && #[trigger] rest[i] == f && forall|j: int|
                            0 <= j < i ==> (#[trigger] rest[j]).iid_spec() != id;
                    assert(frames[i + 1] == f);
                    assert forall|j: int| 0 <= j < i + 1 implies (
                    #[trigger] frames[j]).iid_spec() != id by {
                        if j > 0 {
                            assert(rest[j - 1] == frames[j]);
                        }
                    }
                },
                None => {
                    assert forall|i: int| 0 <= i < frames.len() implies (
                    #[trigger] frames[i]).iid_spec() != id by {
                        if i > 0 {
                            assert(rest[i - 1] == frames[i]);
                        }
                    }
                },
            }
        }
    }
}

/// A text is found by its number: the first that has it, and none where no text has.
pub proof fn texts_are_found_by_number<S: InternedStringIterable>(
    texts: &[S],
    id: u64,
    r: Option<&S>,
)
    requires
        call_ensures(find_text::<S>, (texts, id), r),
    ensures
        r matches Some(s) ==> exists|i: int|
            0 <= i < texts@.len() && #[trigger] texts@[i] == *s && s.iid_spec() == id && forall|
                j: int,
            |
                0 <= j < i ==> (#[trigger] texts@[j]).iid_spec() != id,
        r is None ==> forall|i: int|
            0 <= i < texts@.len() ==> (#[trigger] texts@[i]).iid_spec() != id,
{
    first_text_is_found(texts@, id);
}

proof fn first_text_is_found<S: InternedStringIterable>(texts: Seq<S>, id: u64)
    ensures
        match interned_data_iter::text_with(texts, id) {
            Some(s) => s.iid_spec() == id && exists|i: int|
                0 <= i < texts.len() && #[trigger] texts[i] == s && forall|j: int|
                    0 <= j < i ==> (#[trigger] texts[j]).iid_spec() != id,
            None => forall|i: int|
                0 <= i < texts.len() ==> (#[trigger] texts[i]).iid_spec() != id,
        },
    decreases texts.len(),
{
    if texts.len() > 0 {
        let rest = texts.drop_first();
        first_text_is_found(rest, id);
        if texts[0].iid_spec() == id {
            assert(texts[0] == texts[0]);
        } else {
            match interned_data_iter::text_with(rest, id) {
                Some(s) => {
                    let i = choose|i: int|
                        0 <= i < rest.len() && #[trigger] rest[i] == s && forall|j: int|
                            0 <= j < i ==> (#[trigger] rest[j]).iid_spec() != id;
                    assert(texts[i + 1] == s);
                    assert forall|j: int| 0 <= j < i + 1 implies (
                    #[trigger] texts[j]).iid_spec() != id by {
                        if j > 0 {
                            assert(rest[j - 1] == texts[j]);
                        }
                    }
                },
                None => {
                    assert forall|i: int| 0 <= i < texts.len() implies (
                    #[trigger] texts[i]).iid_spec() != id by {
                        if i > 0 {
                            assert(rest[i - 1] == texts[i]);
                        }
                    }
                },
            }
        }
    }
}

/// How many of the first `n` frames of a call stack have a frame and a function.
pub open spec fn known_frames<D: InternedDataIterable>(data: D, ids: Seq<u64>, n: int) -> nat
    decreases n,
{
    if n <= 0 {
        0
    } else if is_known(data, ids[n - 1]) {
        known_frames(data, ids, n - 1) + 1
    } else {
        known_frames(data, ids, n - 1)
    }
}

/// There is a frame with the number `id`, and the function of the first such frame is there.
pub open spec fn is_known<D: InternedDataIterable>(data: D, id: u64) -> bool {
    match interned_data_iter::frame_with(data.frames_spec(), id) {
        Some(f) => interned_data_iter::text_with(
            data.function_names_spec(),
            f.function_name_id_spec(),
        ) is Some,
        None => false,
    }
}

/// The frames of a call stack are told in order, with the function and the address of each; only
/// those without a frame or a function are left out.
pub proof fn frames_are_resolved_in_order<D: InternedDataIterable>(
    data: &D,
    ids: &Vec<u64>,
    out: Vec<(&str, &str, u64)>,
    i: int,
)
    requires
        call_ensures(resolve_frames::<D>, (data, ids), out),
        0 <= i < ids@.len(),
    ensures
        out@.len() == known_frames(*data, ids@, ids@.len() as int),
        is_known(*data, ids@[i]) ==> {
            let place = known_frames(*data, ids@, i) as int;
            let f = interned_data_iter::frame_with(data.frames_spec(), ids@[i])->Some_0;
            let s = interned_data_iter::text_with(
                data.function_names_spec(),
                f.function_name_id_spec(),
            )->Some_0;
            &&& place < out@.len()
            &&& out@[place].0@ == s.str_spec()
            &&& out@[place].2 == f.rel_pc_spec()
        },
{
    let n = ids@.len() as int;
    known_frames_are_placed(*data, ids@, n, i);
    assert(ids@.take(n) =~= ids@);
    let told = out.deep_view();
    assert(told.len() == out@.len());
    if is_known(*data, ids@[i]) {
        let place = known_frames(*data, ids@, i) as int;
        assert(told[place] == out@[place].deep_view());
    }
}

proof fn known_frames_are_placed<D: InternedDataIterable>(data: D, ids: Seq<u64>, n: int, i: int)
    requires
        0 <= n <= ids.len(),
    ensures
        interned_data_iter::named_frames(data, ids.take(n)).len() == known_frames(data, ids, n),
        0 <= i < n && is_known(data, ids[i]) ==> {
            let place = known_frames(data, ids, i) as int;
            &&& place < known_frames(data, ids, n)
            &&& Some(interned_data_iter::named_frames(data, ids.take(n))[place])
                == interned_data_iter::named_frame(data, ids[i])
        },
    decreases n,
{
    if n > 0 {
        known_frames_are_placed(data, ids, n - 1, i);
        assert(ids.take(n).drop_last() =~= ids.take(n - 1));
        assert(ids.take(n).last() == ids[n - 1]);
    }
}

} // verus!
