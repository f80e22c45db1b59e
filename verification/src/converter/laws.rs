//! What holds of every trace that the converters write.

use crate::converter::interned_data_iter::InternedDataIterable;
use crate::converter::perfetto;
use crate::converter::profiler;
use crate::converter::steps;
use crate::converter::steps::{Step, Tracks};
use crate::converter::tracks;
use crate::perfetto::model::{PacketDataView, TracePacketView};
use crate::perfetto::sink;
use crate::perfetto::sink::{History, SinkCall};
use crate::protocol::events::TraceInput;
use crate::text;
use vstd::prelude::*;

verus! {

/// The number of the track that a packet describes.
pub open spec fn describes(p: TracePacketView) -> Option<u64> {
    match p.data {
        Some(PacketDataView::TrackDescriptor(d)) => d.uuid,
        _ => None,
    }
}

/// The number of the track that the event of a packet belongs to.
pub open spec fn refers(p: TracePacketView) -> Option<u64> {
    match p.data {
        Some(PacketDataView::TrackEvent(e)) => e.track_uuid,
        _ => None,
    }
}

/// The number of the track that the track of a packet lies below.
pub open spec fn parent(p: TracePacketView) -> Option<u64> {
    match p.data {
        Some(PacketDataView::TrackDescriptor(d)) => d.parent_uuid,
        _ => None,
    }
}

/// The track `uuid` is described among the first `n` packets.
pub open spec fn described(log: Seq<TracePacketView>, n: int, uuid: u64) -> bool {
    exists|i: int| 0 <= i < n && i < log.len() && describes(#[trigger] log[i]) == Some(uuid)
}

/// Every event belongs to a track that was described before it, every parent of a track was
/// described before the track, no number names two tracks, and all numbers of tracks were handed
/// out.
pub open spec fn sound(log: Seq<TracePacketView>, t: Tracks) -> bool {
    &&& forall|i: int|
        0 <= i < log.len() ==> (refers(#[trigger] log[i]) matches Some(u) ==> described(log, i, u))
    &&& forall|i: int|
        0 <= i < log.len() ==> (parent(#[trigger] log[i]) matches Some(u) ==> described(log, i, u))
    &&& forall|i: int, j: int|
        #![trigger log[i], log[j]]
        0 <= i < j < log.len() && describes(log[i]) is Some ==> describes(log[i]) != describes(
            log[j],
        )
    &&& forall|i: int|
        0 <= i < log.len() ==> (describes(#[trigger] log[i]) matches Some(u) ==> u
            < t.numbers.track_uuid)
    &&& forall|pid: i32|
        t.processes.contains_key(pid) ==> described(
            log,
            log.len() as int,
            #[trigger] t.processes[pid],
        )
    &&& forall|k: (i32, i32)|
        t.threads.contains_key(k) ==> described(log, log.len() as int, #[trigger] t.threads[k])
    &&& forall|k: Seq<char>|
        t.counters.contains_key(k) ==> described(log, log.len() as int, #[trigger] t.counters[k])
}

/// A trace stays sound along `todo`, wherever it stops.
spec fn keeps(log: Seq<TracePacketView>, t: Tracks, todo: Seq<Step>) -> bool
    decreases todo.len(),
{
    &&& sound(log, t)
    &&& todo.len() > 0 ==> {
        &&& sound(log, todo[0].failed)
        &&& keeps(log.push(todo[0].packet), todo[0].done, todo.drop_first())
    }
}

proof fn keeps_both(log: Seq<TracePacketView>, t: Tracks, a: Seq<Step>, b: Seq<Step>)
    requires
        keeps(log, t, a),
        keeps(log + steps::packets(a), steps::end(t, a), b),
    ensures
        keeps(log, t, a + b),
    decreases a.len(),
{
    if a.len() == 0 {
        assert(a + b =~= b);
        assert(log + steps::packets(a) =~= log);
    } else {
        let rest = a.drop_first();
        assert((a + b).drop_first() =~= rest + b);
        assert(log.push(a[0].packet) + steps::packets(rest) =~= log + steps::packets(a));
        keeps_both(log.push(a[0].packet), a[0].done, rest, b);
    }
}

proof fn keeps_end(log: Seq<TracePacketView>, t: Tracks, a: Seq<Step>)
    requires
        keeps(log, t, a),
    ensures
        sound(log + steps::packets(a), steps::end(t, a)),
    decreases a.len(),
{
    if a.len() == 0 {
        assert(log + steps::packets(a) =~= log);
    } else {
        let rest = a.drop_first();
        assert(log.push(a[0].packet) + steps::packets(rest) =~= log + steps::packets(a));
        keeps_end(log.push(a[0].packet), a[0].done, rest);
    }
}

proof fn keeps_stopped(log: Seq<TracePacketView>, t: Tracks, a: Seq<Step>, n: int)
    requires
        keeps(log, t, a),
        0 <= n < a.len(),
    ensures
        sound(log + steps::packets(a.take(n)), a[n].failed),
    decreases a.len(),
{
    if n == 0 {
        assert(log + steps::packets(a.take(0)) =~= log);
    } else {
        let rest = a.drop_first();
        assert(log.push(a[0].packet) + steps::packets(rest.take(n - 1)) =~= log + steps::packets(
            a.take(n),
        ));
        keeps_stopped(log.push(a[0].packet), a[0].done, rest, n - 1);
    }
}

proof fn keeps_ran<E>(
    h: History<E>,
    t: Tracks,
    todo: Seq<Step>,
    r: Result<(), E>,
    after: History<E>,
    t_after: Tracks,
)
    requires
        keeps(h.log, t, todo),
        steps::ran(h, t, todo, r, after, t_after),
    ensures
        sound(after.log, t_after),
{
    match r {
        Ok(_) => {
            keeps_end(h.log, t, todo);
        },
        Err(e) => {
            let n = choose|n: int| steps::stopped_at(h, todo, n, e, after, t_after);
            keeps_stopped(h.log, t, todo, n);
        },
    }
}

proof fn described_grows(log: Seq<TracePacketView>, n: int, p: TracePacketView, uuid: u64)
    requires
        described(log, n, uuid),
    ensures
        described(log.push(p), n, uuid),
        n <= log.len() ==> described(log.push(p), log.len() as int, uuid),
{
    let i = choose|i: int| 0 <= i < n && i < log.len() && describes(#[trigger] log[i]) == Some(uuid);
    assert(log.push(p)[i] == log[i]);
}

/// A packet that describes no track keeps a trace sound where the track of its event is
/// described.
proof fn sound_event(log: Seq<TracePacketView>, t: Tracks, t2: Tracks, p: TracePacketView)
    requires
        sound(log, t),
        t2.processes == t.processes,
        t2.threads == t.threads,
        t2.counters == t.counters,
        t2.numbers.track_uuid == t.numbers.track_uuid,
        describes(p) is None,
        parent(p) is None,
        refers(p) matches Some(u) ==> described(log, log.len() as int, u),
    ensures
        sound(log, t2),
        sound(log.push(p), t2),
{
    let log2 = log.push(p);
    assert forall|i: int| 0 <= i < log2.len() implies (refers(#[trigger] log2[i]) matches Some(u)
        ==> described(log2, i, u)) by {
        if let Some(u) = refers(log2[i]) {
            if i < log.len() {
                assert(refers(log[i]) == Some(u));
                described_grows(log, i, p, u);
            } else {
                described_grows(log, log.len() as int, p, u);
            }
        }
    }
    assert forall|i: int| 0 <= i < log2.len() implies (parent(#[trigger] log2[i]) matches Some(u)
        ==> described(log2, i, u)) by {
        if let Some(u) = parent(log2[i]) {
            assert(parent(log[i]) == Some(u));
            described_grows(log, i, p, u);
        }
    }
    assert forall|i: int, j: int|
        #![trigger log2[i], log2[j]]
        0 <= i < j < log2.len() && describes(log2[i]) is Some implies describes(log2[i])
        != describes(log2[j]) by {
        if j < log.len() {
            assert(log[i] == log2[i] && log[j] == log2[j]);
        }
    }
    assert forall|i: int| 0 <= i < log2.len() implies (describes(#[trigger] log2[i]) matches Some(
        u,
    ) ==> u < t2.numbers.track_uuid) by {
        if i < log.len() {
            assert(log[i] == log2[i]);
        }
    }
    sound_maps_grow(log, t, p);
}

proof fn sound_maps_grow(log: Seq<TracePacketView>, t: Tracks, p: TracePacketView)
    requires
        sound(log, t),
    ensures
        forall|pid: i32|
            t.processes.contains_key(pid) ==> described(
                log.push(p),
                (log.len() + 1) as int,
                #[trigger] t.processes[pid],
            ),
        forall|k: (i32, i32)|
            t.threads.contains_key(k) ==> described(
                log.push(p),
                (log.len() + 1) as int,
                #[trigger] t.threads[k],
            ),
        forall|k: Seq<char>|
            t.counters.contains_key(k) ==> described(
                log.push(p),
                (log.len() + 1) as int,
                #[trigger] t.counters[k],
            ),
{
    assert forall|u: u64| #[trigger] described(log, log.len() as int, u) implies described(
        log.push(p),
        (log.len() + 1) as int,
        u,
    ) by {
        let i = choose|i: int|
            0 <= i < log.len() && i < log.len() && describes(#[trigger] log[i]) == Some(u);
        assert(log.push(p)[i] == log[i]);
    }
}

/// A packet that describes a track with the next number keeps a trace sound.
proof fn sound_track(log: Seq<TracePacketView>, t: Tracks, p: TracePacketView)
    requires
        sound(log, t),
        t.numbers.track_uuid < u64::MAX,
        describes(p) == Some(t.numbers.track_uuid),
        refers(p) is None,
        parent(p) matches Some(u) ==> described(log, log.len() as int, u),
    ensures
        sound(log, tracks::numbered(t)),
        sound(log.push(p), tracks::numbered(t)),
        described(log.push(p), (log.len() + 1) as int, t.numbers.track_uuid),
{
    let log2 = log.push(p);
    let t2 = tracks::numbered(t);
    assert forall|i: int| 0 <= i < log2.len() implies (refers(#[trigger] log2[i]) matches Some(u)
        ==> described(log2, i, u)) by {
        if let Some(u) = refers(log2[i]) {
            assert(refers(log[i]) == Some(u));
            described_grows(log, i, p, u);
        }
    }
    assert forall|i: int| 0 <= i < log2.len() implies (parent(#[trigger] log2[i]) matches Some(u)
        ==> described(log2, i, u)) by {
        if let Some(u) = parent(log2[i]) {
            if i < log.len() {
                assert(parent(log[i]) == Some(u));
                described_grows(log, i, p, u);
            } else {
                described_grows(log, log.len() as int, p, u);
            }
        }
    }
    assert forall|i: int, j: int|
        #![trigger log2[i], log2[j]]
        0 <= i < j < log2.len() && describes(log2[i]) is Some implies describes(log2[i])
        != describes(log2[j]) by {
        assert(log[i] == log2[i]);
        if j < log.len() {
            assert(log[j] == log2[j]);
        }
    }
    assert forall|i: int| 0 <= i < log2.len() implies (describes(#[trigger] log2[i]) matches Some(
        u,
    ) ==> u < t2.numbers.track_uuid) by {
        if i < log.len() {
            assert(log[i] == log2[i]);
        }
    }
    sound_maps_grow(log, t, p);
    assert(describes(log2[log.len() as int]) == Some(t.numbers.track_uuid));
}

/// Entering a described track into the tables keeps a trace sound.
proof fn sound_entered(log: Seq<TracePacketView>, t: Tracks, uuid: u64)
    requires
        sound(log, t),
        described(log, log.len() as int, uuid),
    ensures
        forall|pid: i32|
            sound(log, #[trigger] entered_process(t, pid, uuid)),
        forall|k: (i32, i32)|
            sound(log, #[trigger] entered_thread(t, k, uuid)),
        forall|k: Seq<char>|
            sound(log, #[trigger] entered_counter(t, k, uuid)),
{
    assert forall|pid: i32| sound(log, #[trigger] entered_process(t, pid, uuid)) by {
        let t2 = entered_process(t, pid, uuid);
        assert forall|p: i32| t2.processes.contains_key(p) implies described(
            log,
            log.len() as int,
            #[trigger] t2.processes[p],
        ) by {
            if p != pid {
                assert(t2.processes[p] == t.processes[p]);
            }
        }
    }
    assert forall|k: (i32, i32)| sound(log, #[trigger] entered_thread(t, k, uuid)) by {
        let t2 = entered_thread(t, k, uuid);
        assert forall|p: (i32, i32)| t2.threads.contains_key(p) implies described(
            log,
            log.len() as int,
            #[trigger] t2.threads[p],
        ) by {
            if p != k {
                assert(t2.threads[p] == t.threads[p]);
            }
        }
    }
    assert forall|k: Seq<char>| sound(log, #[trigger] entered_counter(t, k, uuid)) by {
        let t2 = entered_counter(t, k, uuid);
        assert forall|p: Seq<char>| t2.counters.contains_key(p) implies described(
            log,
            log.len() as int,
            #[trigger] t2.counters[p],
        ) by {
            if p != k {
                assert(t2.counters[p] == t.counters[p]);
            }
        }
    }
}

spec fn entered_process(t: Tracks, pid: i32, uuid: u64) -> Tracks {
    Tracks { processes: t.processes.insert(pid, uuid), ..t }
}

spec fn entered_thread(t: Tracks, k: (i32, i32), uuid: u64) -> Tracks {
    Tracks { threads: t.threads.insert(k, uuid), ..t }
}

spec fn entered_counter(t: Tracks, k: Seq<char>, uuid: u64) -> Tracks {
    Tracks { counters: t.counters.insert(k, uuid), ..t }
}

proof fn keeps_one(log: Seq<TracePacketView>, t: Tracks, step: Step)
    requires
        sound(log, t),
        sound(log, step.failed),
        sound(log.push(step.packet), step.done),
    ensures
        keeps(log, t, seq![step]),
{
    reveal_with_fuel(keeps, 2);
    assert(seq![step].drop_first() =~= seq![]);
}

proof fn keeps_process(log: Seq<TracePacketView>, t: Tracks, pid: i32, name: Option<Seq<char>>)
    requires
        sound(log, t),
        t.numbers.track_uuid < u64::MAX,
    ensures
        keeps(log, t, tracks::process_steps(t, pid, name)),
        ({
            let t1 = steps::end(t, tracks::process_steps(t, pid, name));
            &&& t1.processes.contains_key(pid)
            &&& t1.numbers.track_uuid <= t.numbers.track_uuid + 1
            &&& t1.threads == t.threads
            &&& t1.counters == t.counters
        }),
{
    let todo = tracks::process_steps(t, pid, name);
    if !t.processes.contains_key(pid) {
        sound_track(log, t, todo[0].packet);
        let uuid = t.numbers.track_uuid;
        sound_entered(log.push(todo[0].packet), tracks::numbered(t), uuid);
        assert(todo[0].done =~= entered_process(tracks::numbered(t), pid, uuid));
        keeps_one(log, t, todo[0]);
        assert(todo =~= seq![todo[0]]);
    }
}

proof fn keeps_thread(
    log: Seq<TracePacketView>,
    t: Tracks,
    pid: i32,
    tid: i32,
    name: Option<Seq<char>>,
)
    requires
        sound(log, t),
        t.numbers.track_uuid + 1 < u64::MAX,
    ensures
        keeps(log, t, tracks::thread_steps(t, pid, tid, name)),
        ({
            let t1 = steps::end(t, tracks::thread_steps(t, pid, tid, name));
            &&& t1.threads.contains_key((pid, tid))
            &&& t1.numbers.track_uuid <= t.numbers.track_uuid + 2
            &&& t.processes.contains_key(pid) ==> t1.numbers.track_uuid <= t.numbers.track_uuid
                + 1
            &&& t.processes.contains_key(pid) ==> t1.processes == t.processes
        }),
{
    let todo = tracks::thread_steps(t, pid, tid, name);
    if !t.threads.contains_key((pid, tid)) {
        let a = tracks::process_steps(t, pid, None);
        let t1 = steps::end(t, a);
        let last = todo.last();
        keeps_process(log, t, pid, None);
        keeps_end(log, t, a);
        let log1 = log + steps::packets(a);
        assert(described(log1, log1.len() as int, t1.processes[pid]));
        sound_track(log1, t1, last.packet);
        let uuid = t1.numbers.track_uuid;
        sound_entered(log1.push(last.packet), tracks::numbered(t1), uuid);
        assert(last.done =~= entered_thread(tracks::numbered(t1), (pid, tid), uuid));
        keeps_one(log1, t1, last);
        keeps_both(log, t, a, seq![last]);
        assert(todo =~= a + seq![last]);
    }
}

proof fn keeps_interned<D: InternedDataIterable>(
    log: Seq<TracePacketView>,
    t: Tracks,
    data: D,
    n: int,
)
    requires
        sound(log, t),
        0 <= n,
    ensures
        keeps(log, t, tracks::interned_steps(t, data, n)),
    decreases n,
{
    if n > 0 {
        let a = tracks::interned_steps(t, data, n - 1);
        let t1 = steps::end(t, a);
        let step = tracks::callstack_step(t1, data, n - 1);
        keeps_interned(log, t, data, n - 1);
        keeps_end(log, t, a);
        sound_event(log + steps::packets(a), t1, step.done, step.packet);
        keeps_one(log + steps::packets(a), t1, step);
        keeps_both(log, t, a, seq![step]);
        assert(tracks::interned_steps(t, data, n) =~= a + seq![step]);
    }
}

proof fn keeps_plain(log: Seq<TracePacketView>, t: Tracks, a: Seq<Step>, p: TracePacketView)
    requires
        keeps(log, t, a),
        describes(p) is None,
        parent(p) is None,
        refers(p) matches Some(u) ==> described(
            log + steps::packets(a),
            (log.len() + a.len()) as int,
            u,
        ),
    ensures
        keeps(log, t, a + seq![tracks::plain_step(steps::end(t, a), p)]),
{
    let t1 = steps::end(t, a);
    let log1 = log + steps::packets(a);
    let step = tracks::plain_step(t1, p);
    keeps_end(log, t, a);
    sound_event(log1, t1, t1, p);
    keeps_one(log1, t1, step);
    keeps_both(log, t, a, seq![step]);
}

/// Common to both converters: all events but names.
proof fn keeps_event(log: Seq<TracePacketView>, t: Tracks, event: TraceInput)
    requires
        sound(log, t),
        perfetto::numbers_suffice(t, event),
    ensures
        keeps(log, t, perfetto::event_steps(t, event)),
{
    let todo = perfetto::event_steps(t, event);
    match event {
        TraceInput::InternedData(data) => {
            keeps_interned(log, t, data, data.callstacks@.len() as int);
        },
        TraceInput::Sample(sample) => {
            sound_event(log, t, t, todo[0].packet);
            keeps_one(log, t, todo[0]);
        },
        TraceInput::Counter(c) => {
            let a = tracks::thread_steps(t, c.pid, c.tid, None);
            let t1 = steps::end(t, a);
            let b = tracks::counter_track_steps(
                t1,
                c.tid,
                c.name@,
                c.unit.deep_view(),
                t1.threads[(c.pid, c.tid)],
            );
            let t2 = steps::end(t1, b);
            keeps_thread(log, t, c.pid, c.tid, None);
            keeps_end(log, t, a);
            let log1 = log + steps::packets(a);
            assert(described(log1, log1.len() as int, t1.threads[(c.pid, c.tid)]));
            if b.len() > 0 {
                sound_track(log1, t1, b[0].packet);
                let uuid = t1.numbers.track_uuid;
                sound_entered(log1.push(b[0].packet), tracks::numbered(t1), uuid);
                assert(b[0].done =~= entered_counter(
                    tracks::numbered(t1),
                    tracks::counter_key(c.tid, c.name@),
                    uuid,
                ));
                keeps_one(log1, t1, b[0]);
                assert(b =~= seq![b[0]]);
            }
            keeps_both(log, t, a, b);
            keeps_end(log, t, a + b);
            assert(steps::end(t, a + b) == t2);
            let log2 = log + steps::packets(a + b);
            let key = tracks::counter_key(c.tid, c.name@);
            assert(t2.counters.contains_key(key));
            assert(described(log2, log2.len() as int, t2.counters[key]));
            keeps_plain(log, t, a + b, todo.last().packet);
        },
        TraceInput::Span(s) => {
            let a = tracks::thread_steps(t, s.pid, s.tid, None);
            let t1 = steps::end(t, a);
            keeps_thread(log, t, s.pid, s.tid, None);
            keeps_end(log, t, a);
            let log1 = log + steps::packets(a);
            assert(described(log1, log1.len() as int, t1.threads[(s.pid, s.tid)]));
            let begin = todo[a.len() as int];
            keeps_plain(log, t, a, begin.packet);
            let ab = a + seq![begin];
            keeps_end(log, t, ab);
            let log2 = log + steps::packets(ab);
            assert(steps::end(t, ab) == t1);
            assert(described(log2, log2.len() as int, t1.threads[(s.pid, s.tid)]));
            keeps_plain(log, t, ab, todo.last().packet);
        },
        TraceInput::Instant(i) => {
            let a = tracks::thread_steps(t, i.pid, i.tid, None);
            let t1 = steps::end(t, a);
            keeps_thread(log, t, i.pid, i.tid, None);
            keeps_end(log, t, a);
            let log1 = log + steps::packets(a);
            assert(described(log1, log1.len() as int, t1.threads[(i.pid, i.tid)]));
            keeps_plain(log, t, a, todo.last().packet);
        },
        TraceInput::ThreadName(n) => {
            keeps_thread(log, t, n.pid, n.tid, Some(n.name@));
        },
        TraceInput::ProcessName(n) => {
            keeps_process(log, t, n.pid, Some(n.name@));
        },
    }
}

/// A new trace is sound.
pub proof fn new_trace_is_sound()
    ensures
        sound(seq![], perfetto::no_tracks()),
{
}

/// A converter keeps a trace sound, event after event, also where a packet is not taken: events
/// follow the description of their track, and no number names two tracks.
pub proof fn conversion_keeps_trace_sound<E>(
    h: History<E>,
    t: Tracks,
    event: TraceInput,
    r: Result<(), E>,
    after: History<E>,
    t_after: Tracks,
)
    requires
        sound(h.log, t),
        perfetto::numbers_suffice(t, event),
        steps::ran(h, t, perfetto::event_steps(t, event), r, after, t_after),
    ensures
        sound(after.log, t_after),
{
    keeps_event(h.log, t, event);
    keeps_ran(h, t, perfetto::event_steps(t, event), r, after, t_after);
}

/// The same of the converter of profiling events.
pub proof fn profiler_conversion_keeps_trace_sound<E>(
    h: History<E>,
    t: Tracks,
    event: TraceInput,
    r: Result<(), E>,
    after: History<E>,
    t_after: Tracks,
)
    requires
        sound(h.log, t),
        perfetto::numbers_suffice(t, event),
        steps::ran(h, t, profiler::event_steps(t, event), r, after, t_after),
    ensures
        sound(after.log, t_after),
{
    let todo = profiler::event_steps(t, event);
    let log = h.log;
    match event {
        TraceInput::ThreadName(n) => {
            let a = tracks::process_steps(t, n.pid, None);
            let t1 = steps::end(t, a);
            let b = tracks::thread_steps(t1, n.pid, n.tid, None);
            let t2 = steps::end(t1, b);
            keeps_process(log, t, n.pid, None);
            keeps_end(log, t, a);
            let log1 = log + steps::packets(a);
            keeps_thread(log1, t1, n.pid, n.tid, None);
            keeps_both(log, t, a, b);
            keeps_end(log, t, a + b);
            let log2 = log + steps::packets(a + b);
            assert(steps::end(t, a + b) == t2);
            assert(t2.processes[n.pid] == t1.processes[n.pid]);
            assert(described(log2, log2.len() as int, t2.processes[n.pid]));
            let last = todo.last();
            sound_track(log2, t2, last.packet);
            keeps_one(log2, t2, last);
            keeps_both(log, t, a + b, seq![last]);
        },
        TraceInput::ProcessName(n) => {
            let a = tracks::process_steps(t, n.pid, None);
            let t1 = steps::end(t, a);
            keeps_process(log, t, n.pid, None);
            keeps_end(log, t, a);
            let log1 = log + steps::packets(a);
            let last = todo.last();
            sound_track(log1, t1, last.packet);
            keeps_one(log1, t1, last);
            keeps_both(log, t, a, seq![last]);
        },
        _ => {
            keeps_event(log, t, event);
        },
    }
    keeps_ran(h, t, todo, r, after, t_after);
}

/// A track is described once: a second event of the same thread, with whatever name, writes no
/// further description of the thread or of its process.
pub proof fn known_thread_takes_no_steps(
    t: Tracks,
    pid: i32,
    tid: i32,
    name: Option<Seq<char>>,
    later: Option<Seq<char>>,
)
    ensures
        ({
            let t1 = steps::end(t, tracks::thread_steps(t, pid, tid, name));
            &&& tracks::thread_steps(t1, pid, tid, later).len() == 0
            &&& tracks::thread_steps(t, pid, tid, name).len() > 0 ==> tracks::process_steps(
                t1,
                pid,
                later,
            ).len() == 0
        }),
{
}

/// To ask for the track of a thread keeps a trace sound, also where a packet is not taken. A track
/// that was not there is described by the last packet, with a number that names no other track,
/// below the track of the process; and who asks again, with whatever name, gets the same number
/// and writes nothing.
pub proof fn thread_track_is_stable<E>(
    h: History<E>,
    t: Tracks,
    pid: i32,
    tid: i32,
    name: Option<Seq<char>>,
    r: Result<u64, E>,
    after: History<E>,
    t_after: Tracks,
    later: Option<Seq<char>>,
    again: Result<u64, E>,
    after_again: History<E>,
    t_again: Tracks,
)
    requires
        sound(h.log, t),
        t.numbers.track_uuid + 1 < u64::MAX,
        steps::ran(
            h,
            t,
            tracks::thread_steps(t, pid, tid, name),
            sink::answer(r),
            after,
            t_after,
        ),
        r matches Ok(uuid) ==> t_after.threads.contains_key((pid, tid)) && t_after.threads[(
            pid,
            tid,
        )] == uuid,
        steps::ran(
            after,
            t_after,
            tracks::thread_steps(t_after, pid, tid, later),
            sink::answer(again),
            after_again,
            t_again,
        ),
        again matches Ok(uuid) ==> t_again.threads.contains_key((pid, tid)) && t_again.threads[(
            pid,
            tid,
        )] == uuid,
    ensures
        sound(after.log, t_after),
        r matches Ok(uuid) ==> {
            &&& described(after.log, after.log.len() as int, uuid)
            &&& !t.threads.contains_key((pid, tid)) ==> {
                &&& !described(h.log, h.log.len() as int, uuid)
                &&& describes(after.log.last()) == Some(uuid)
                &&& t_after.processes.contains_key(pid)
                &&& parent(after.log.last()) == Some(t_after.processes[pid])
            }
            &&& again matches Ok(same) && same == uuid
            &&& after_again == after
            &&& t_again == t_after
        },
{
    let todo = tracks::thread_steps(t, pid, tid, name);
    keeps_thread(h.log, t, pid, tid, name);
    keeps_ran(h, t, todo, sink::answer(r), after, t_after);
    if let Ok(uuid) = r {
        assert(described(after.log, after.log.len() as int, t_after.threads[(pid, tid)]));
        if !t.threads.contains_key((pid, tid)) {
            assert(after.log.last() == todo.last().packet);
            assert(uuid >= t.numbers.track_uuid);
            if described(h.log, h.log.len() as int, uuid) {
                let i = choose|i: int|
                    0 <= i < h.log.len() && i < h.log.len() && describes(#[trigger] h.log[i])
                        == Some(uuid);
                assert(uuid < t.numbers.track_uuid);
            }
        }
        let none = tracks::thread_steps(t_after, pid, tid, later);
        assert(none.len() == 0);
        assert(steps::taken(after, none) =~= after);
    }
}

/// Two sinks that were asked for the same, from the call at `from` on, gave the same answers.
pub open spec fn answered_alike<E>(
    a: Seq<SinkCall<E>>,
    b: Seq<SinkCall<E>>,
    from: int,
) -> bool {
    forall|i: int|
        #![trigger a[i]]
        #![trigger b[i]]
        from <= i < a.len() && i < b.len() ==> match (a[i], b[i]) {
            (
                SinkCall::Write { packet: p, answer: x },
                SinkCall::Write { packet: q, answer: y },
            ) => p == q ==> x == y,
            _ => true,
        }
}

/// An event is converted alike whether it comes as it is or out of an archive: where the sinks
/// answer alike, the results, what the sinks were asked for, the packets and the tracks are the
/// same.
pub proof fn archived_event_converts_alike<E>(
    h: History<E>,
    t: Tracks,
    event: TraceInput,
    plain: Result<(), E>,
    plain_after: History<E>,
    plain_tracks: Tracks,
    archived: Result<(), E>,
    archived_after: History<E>,
    archived_tracks: Tracks,
)
    requires
        steps::ran(
            h,
            t,
            perfetto::event_steps(t, event),
            plain,
            plain_after,
            plain_tracks,
        ),
        steps::ran(
            h,
            t,
            perfetto::event_steps(t, event),
            archived,
            archived_after,
            archived_tracks,
        ),
        answered_alike(plain_after.calls, archived_after.calls, h.calls.len() as int),
    ensures
        plain == archived,
        plain_after == archived_after,
        plain_tracks == archived_tracks,
{
    let todo = perfetto::event_steps(t, event);
    match (plain, archived) {
        (Ok(u), Ok(v)) => {
            assert(u == v);
        },
        (Ok(_), Err(e)) => {
            let n = choose|n: int|
                steps::stopped_at(h, todo, n, e, archived_after, archived_tracks);
            refusal_differs(h, todo, n, e, archived_after, archived_tracks, plain_after);
        },
        (Err(e), Ok(_)) => {
            let n = choose|n: int| steps::stopped_at(h, todo, n, e, plain_after, plain_tracks);
            refusal_differs(h, todo, n, e, plain_after, plain_tracks, archived_after);
        },
        (Err(e), Err(f)) => {
            let n = choose|n: int| steps::stopped_at(h, todo, n, e, plain_after, plain_tracks);
            let m = choose|m: int|
                steps::stopped_at(h, todo, m, f, archived_after, archived_tracks);
            assert(plain_after.calls[h.calls.len() + n] == SinkCall::Write {
                packet: todo[n].packet,
                answer: Err(e),
            });
            assert(archived_after.calls[h.calls.len() + m] == SinkCall::Write {
                packet: todo[m].packet,
                answer: Err(f),
            });
            if n < m {
                assert(archived_after.calls[h.calls.len() + n] == SinkCall::Write {
                    packet: todo[n].packet,
                    answer: Ok::<(), E>(()),
                });
            } else if m < n {
                assert(plain_after.calls[h.calls.len() + m] == SinkCall::Write {
                    packet: todo[m].packet,
                    answer: Ok::<(), E>(()),
                });
            }
        },
    }
}

/// A sink that refused a packet and one that took all packets did not answer alike.
proof fn refusal_differs<E>(
    h: History<E>,
    todo: Seq<Step>,
    n: int,
    e: E,
    refused: History<E>,
    tracks_after: Tracks,
    all: History<E>,
)
    requires
        steps::stopped_at(h, todo, n, e, refused, tracks_after),
        all == steps::taken(h, todo),
    ensures
        !answered_alike(refused.calls, all.calls, h.calls.len() as int),
        !answered_alike(all.calls, refused.calls, h.calls.len() as int),
{
    let i = h.calls.len() + n;
    assert(refused.calls[i] == SinkCall::Write { packet: todo[n].packet, answer: Err(e) });
    assert(all.calls[i] == SinkCall::Write { packet: todo[n].packet, answer: Ok::<(), E>(()) });
}

/// Counters of different threads, and different counters of a thread, are found by different
/// names.
pub proof fn counters_are_found_apart(tid1: i32, name1: Seq<char>, tid2: i32, name2: Seq<char>)
    requires
        tracks::counter_key(tid1, name1) == tracks::counter_key(tid2, name2),
    ensures
        tid1 == tid2,
        name1 == name2,
{
    reveal_strlit(":");
    let a = text::signed_decimal(tid1 as int);
    let b = text::signed_decimal(tid2 as int);
    let k = tracks::counter_key(tid1, name1);
    text::numbers_are_written_with_digits(tid1 as int);
    text::numbers_are_written_with_digits(tid2 as int);
    assert(k[a.len() as int] == ':');
    assert(k[b.len() as int] == ':');
    assert forall|i: int| 0 <= i < a.len() implies #[trigger] k[i] != ':' by {
        assert(k[i] == a[i]);
    }
    assert forall|i: int| 0 <= i < b.len() implies #[trigger] k[i] != ':' by {
        assert(k[i] == b[i]);
    }
    assert(a.len() == b.len());
    assert(a =~= k.take(a.len() as int));
    assert(b =~= k.take(b.len() as int));
    text::numbers_are_written_apart(tid1 as int, tid2 as int);
    assert(name1 =~= k.skip((a.len() + 1) as int));
    assert(name2 =~= k.skip((b.len() + 1) as int));
}

} // verus!
