//! The tracks of a trace: each process, thread and counter is described once, before its first
//! event.

use crate::converter::interned_data_iter;
use crate::converter::interned_data_iter::{
    resolve_frames, CallstackIterable, FrameIterable, InternedDataIterable, InternedStringIterable,
};
use crate::converter::steps;
use crate::converter::steps::{Step, Tracks};
use crate::perfetto::interned;
use crate::perfetto::interned::create_callstack_interned_data;
use crate::perfetto::model;
use crate::perfetto::model::{
    create_debug_annotation, CounterValue, DebugAnnotation, DebugAnnotationView, DebugValue,
    DebugValueView, SequenceFlags, TracePacketView,
};
use crate::perfetto::sink;
use crate::perfetto::sink::{History, PacketSink, SinkCall};
use crate::perfetto::writer::{Counters, PerfettoStreamWriter, SEQUENCE_ID};
use crate::protocol::events::{CompleteSpan, Counter, CpuMode, Instant, Sample};
use crate::protocol::labels::Labels;
use crate::text;
use crate::text::{push_signed_decimal, push_char};
use std::collections::HashMap;
use vstd::hash_map::StringHashMap;
use vstd::prelude::*;
use vstd::string::*;

verus! {

broadcast use vstd::std_specs::hash::group_hash_axioms;

/// One number for a process and a thread of it, different for different pairs.
pub open spec fn thread_key_spec(pid: i32, tid: i32) -> int {
    pid * 0x1_0000_0000 + (tid + 0x8000_0000)
}

/// One number for a process and a thread of it, different for different pairs.
fn thread_key(pid: i32, tid: i32) -> (key: i64)
    ensures
        key == thread_key_spec(pid, tid),
{
    pid as i64 * 0x1_0000_0000 + (tid as i64 + 0x8000_0000)
}

/// The name by which the track of a counter is found: its thread and its own name.
pub open spec fn counter_key(tid: i32, name: Seq<char>) -> Seq<char> {
    text::signed_decimal(tid as int) + ":"@ + name
}

/// The tracks once the next number is used up.
pub open spec fn numbered(t: Tracks) -> Tracks {
    Tracks {
        numbers: Counters { track_uuid: (t.numbers.track_uuid + 1) as u64, ..t.numbers },
        ..t
    }
}

/// What it takes for the process `pid` to have a track.
pub open spec fn process_steps(t: Tracks, pid: i32, name: Option<Seq<char>>) -> Seq<Step> {
    if t.processes.contains_key(pid) {
        seq![]
    } else {
        let uuid = t.numbers.track_uuid;
        seq![
            Step {
                failed: numbered(t),
                packet: model::process_packet(SEQUENCE_ID, uuid, pid as u32 as i32, name),
                done: Tracks { processes: t.processes.insert(pid, uuid), ..numbered(t) },
            },
        ]
    }
}

/// What it takes for the thread `tid` of the process `pid` to have a track.
pub open spec fn thread_steps(t: Tracks, pid: i32, tid: i32, name: Option<Seq<char>>) -> Seq<Step> {
    if t.threads.contains_key((pid, tid)) {
        seq![]
    } else {
        let before = process_steps(t, pid, None);
        let t1 = steps::end(t, before);
        let uuid = t1.numbers.track_uuid;
        before + seq![
            Step {
                failed: numbered(t1),
                packet: model::thread_packet(
                    SEQUENCE_ID,
                    uuid,
                    pid as u32 as i32,
                    tid as u32 as i32,
                    name,
                    t1.processes[pid],
                ),
                done: Tracks { threads: t1.threads.insert((pid, tid), uuid), ..numbered(t1) },
            },
        ]
    }
}

/// What it takes for the counter `name` of the thread `tid` to have a track, below `parent`.
pub open spec fn counter_track_steps(
    t: Tracks,
    tid: i32,
    name: Seq<char>,
    unit: Option<Seq<char>>,
    parent: u64,
) -> Seq<Step> {
    if t.counters.contains_key(counter_key(tid, name)) {
        seq![]
    } else {
        let uuid = t.numbers.track_uuid;
        seq![
            Step {
                failed: numbered(t),
                packet: model::counter_track_packet(SEQUENCE_ID, uuid, name, unit, parent),
                done: Tracks {
                    counters: t.counters.insert(counter_key(tid, name), uuid),
                    ..numbered(t)
                },
            },
        ]
    }
}

/// Writing `packet` without a change of the tracks.
pub open spec fn plain_step(t: Tracks, packet: TracePacketView) -> Step {
    Step { failed: t, packet, done: t }
}

/// What a value of a counter takes.
pub open spec fn counter_steps(
    t: Tracks,
    pid: i32,
    tid: i32,
    name: Seq<char>,
    value_bits: u64,
    timestamp: u64,
    unit: Option<Seq<char>>,
) -> Seq<Step> {
    let a = thread_steps(t, pid, tid, None);
    let t1 = steps::end(t, a);
    let b = counter_track_steps(t1, tid, name, unit, t1.threads[(pid, tid)]);
    let t2 = steps::end(t1, b);
    a + b + seq![
        plain_step(
            t2,
            model::counter_value_packet(
                SEQUENCE_ID,
                t2.counters[counter_key(tid, name)],
                CounterValue::Double(value_bits),
                timestamp,
            ),
        ),
    ]
}

/// What a span takes.
pub open spec fn span_steps(
    t: Tracks,
    pid: i32,
    tid: i32,
    name: Seq<char>,
    start: u64,
    stop: u64,
    annotations: Seq<DebugAnnotationView>,
) -> Seq<Step> {
    let a = thread_steps(t, pid, tid, None);
    let t1 = steps::end(t, a);
    let track = t1.threads[(pid, tid)];
    a + seq![
        plain_step(
            t1,
            model::slice_begin_packet(SEQUENCE_ID, track, name, start, annotations),
        ),
    ] + seq![plain_step(t1, model::slice_end_packet(SEQUENCE_ID, track, stop))]
}

/// What an instant takes.
pub open spec fn instant_steps(
    t: Tracks,
    pid: i32,
    tid: i32,
    name: Seq<char>,
    timestamp: u64,
    annotations: Seq<DebugAnnotationView>,
) -> Seq<Step> {
    let a = thread_steps(t, pid, tid, None);
    let t1 = steps::end(t, a);
    a + seq![
        plain_step(
            t1,
            model::instant_packet(
                SEQUENCE_ID,
                t1.threads[(pid, tid)],
                name,
                timestamp,
                annotations,
            ),
        ),
    ]
}

/// The mode of a sample, as the trace knows it.
pub open spec fn sample_mode_spec(mode: CpuMode) -> model::CpuMode {
    match mode {
        CpuMode::User => model::CpuMode::ModeUser,
        CpuMode::Kernel => model::CpuMode::ModeKernel,
        _ => model::CpuMode::ModeUnknown,
    }
}

/// What a sample takes.
pub open spec fn sample_steps(t: Tracks, sample: Sample) -> Seq<Step> {
    seq![
        plain_step(
            t,
            model::sample_packet(
                SEQUENCE_ID,
                sample.cpu,
                sample.pid as u32,
                sample.tid as u32,
                sample.timestamp,
                sample.callstack_iid,
                sample_mode_spec(sample.cpu_mode),
            ),
        ),
    ]
}

/// What one call stack of interned data takes. All of its frames count as interned, and one
/// function more.
pub open spec fn callstack_step<D: InternedDataIterable>(t: Tracks, data: D, i: int) -> Step {
    let c = data.callstacks_spec()[i];
    let frames = interned_data_iter::named_frames(data, c.frame_ids_spec());
    let after = Tracks {
        numbers: Counters {
            frames: (t.numbers.frames + frames.len()) as u64,
            functions: (t.numbers.functions + frames.len() + 1) as u64,
            ..t.numbers
        },
        ..t
    };
    Step {
        failed: after,
        packet: model::interned_packet(
            SEQUENCE_ID,
            interned::first_callstack(c.iid_spec(), frames),
            SequenceFlags::IncrementalStateCleared,
        ),
        done: after,
    }
}

/// What the first `n` call stacks of interned data take.
pub open spec fn interned_steps<D: InternedDataIterable>(t: Tracks, data: D, n: int) -> Seq<Step>
    decreases n,
{
    if n <= 0 {
        seq![]
    } else {
        let before = interned_steps(t, data, n - 1);
        before.push(callstack_step(steps::end(t, before), data, n - 1))
    }
}

/// An upper bound of what the first `n` call stacks of interned data count up.
pub open spec fn interned_size<D: InternedDataIterable>(data: D, n: int) -> int
    decreases n,
{
    if n <= 0 {
        0
    } else {
        interned_size(data, n - 1) + data.callstacks_spec()[n - 1].frame_ids_spec().len() + 1
    }
}

/// The numbers of frames and functions do not run out on `data`.
pub open spec fn numbers_suffice<D: InternedDataIterable>(t: Tracks, data: D) -> bool {
    let n = data.callstacks_spec().len() as int;
    &&& t.numbers.frames + interned_size(data, n) <= u64::MAX
    &&& t.numbers.functions + interned_size(data, n) <= u64::MAX
}

proof fn interned_size_grows<D: InternedDataIterable>(data: D, i: int, n: int)
    requires
        0 <= i <= n,
    ensures
        interned_size(data, i) <= interned_size(data, n),
    decreases n - i,
{
    if i < n {
        interned_size_grows(data, i + 1, n);
    }
}

/// The annotations that labels make: texts, then integers, truth values and floating-point
/// numbers, each kind in its own order.
pub open spec fn label_annotations(labels: Labels) -> Seq<DebugAnnotationView> {
    Seq::new(
        labels.strings@.len(),
        |i: int|
            annotation(labels.strings@[i].0, DebugValueView::String(labels.strings@[i].1@)),
    ) + Seq::new(
        labels.ints@.len(),
        |i: int| annotation(labels.ints@[i].0, DebugValueView::Int(labels.ints@[i].1)),
    ) + Seq::new(
        labels.bools@.len(),
        |i: int| annotation(labels.bools@[i].0, DebugValueView::Bool(labels.bools@[i].1)),
    ) + Seq::new(
        labels.floats@.len(),
        |i: int| annotation(labels.floats@[i].0, DebugValueView::Double(labels.floats@[i].1)),
    )
}

/// An annotation with the name `name` and the value `value`.
pub open spec fn annotation(name: Seq<char>, value: DebugValueView) -> DebugAnnotationView {
    DebugAnnotationView { name: Some(name), value: Some(value) }
}

/// The annotations that labels make.
pub fn create_debug_annotations(labels: &Labels) -> (out: Vec<DebugAnnotation>)
    ensures
        out.deep_view() == label_annotations(*labels),
{
    let mut out: Vec<DebugAnnotation> = Vec::new();
    let ghost strings = Seq::new(
        labels.strings@.len(),
        |i: int|
            annotation(labels.strings@[i].0, DebugValueView::String(labels.strings@[i].1@)),
    );
    let ghost ints = Seq::new(
        labels.ints@.len(),
        |i: int| annotation(labels.ints@[i].0, DebugValueView::Int(labels.ints@[i].1)),
    );
    let ghost bools = Seq::new(
        labels.bools@.len(),
        |i: int| annotation(labels.bools@[i].0, DebugValueView::Bool(labels.bools@[i].1)),
    );
    let ghost floats = Seq::new(
        labels.floats@.len(),
        |i: int| annotation(labels.floats@[i].0, DebugValueView::Double(labels.floats@[i].1)),
    );
    let mut i: usize = 0;
    assert(out.deep_view() =~= strings.take(0));
    while i < labels.strings.len()
        invariant
            i <= labels.strings@.len(),
            strings == Seq::new(
                labels.strings@.len(),
                |i: int|
                    annotation(labels.strings@[i].0, DebugValueView::String(labels.strings@[i].1@)),
            ),
            out.deep_view() == strings.take(i as int),
        decreases labels.strings@.len() - i,
    {
        let ghost before = out.deep_view();
        let (key, value) = labels.strings.entry(i);
        out.push(create_debug_annotation(key.to_owned(), DebugValue::String(value.clone())));
        i += 1;
        assert(out.deep_view() =~= before.push(strings[i - 1]));
        assert(strings.take(i as int) =~= strings.take(i - 1).push(strings[i - 1]));
    }
    assert(strings.take(i as int) =~= strings);
    i = 0;
    assert(out.deep_view() =~= strings + ints.take(0));
    while i < labels.ints.len()
        invariant
            i <= labels.ints@.len(),
            ints == Seq::new(
                labels.ints@.len(),
                |i: int| annotation(labels.ints@[i].0, DebugValueView::Int(labels.ints@[i].1)),
            ),
            out.deep_view() == strings + ints.take(i as int),
        decreases labels.ints@.len() - i,
    {
        let ghost before = out.deep_view();
        let (key, value) = labels.ints.entry(i);
        out.push(create_debug_annotation(key.to_owned(), DebugValue::Int(*value)));
        i += 1;
        assert(out.deep_view() =~= before.push(ints[i - 1]));
        assert(ints.take(i as int) =~= ints.take(i - 1).push(ints[i - 1]));
    }
    assert(ints.take(i as int) =~= ints);
    i = 0;
    assert(out.deep_view() =~= strings + ints + bools.take(0));
    while i < labels.bools.len()
        invariant
            i <= labels.bools@.len(),
            bools == Seq::new(
                labels.bools@.len(),
                |i: int| annotation(labels.bools@[i].0, DebugValueView::Bool(labels.bools@[i].1)),
            ),
            out.deep_view() == strings + ints + bools.take(i as int),
        decreases labels.bools@.len() - i,
    {
        let ghost before = out.deep_view();
        let (key, value) = labels.bools.entry(i);
        out.push(create_debug_annotation(key.to_owned(), DebugValue::Bool(*value)));
        i += 1;
        assert(out.deep_view() =~= before.push(bools[i - 1]));
        assert(bools.take(i as int) =~= bools.take(i - 1).push(bools[i - 1]));
    }
    assert(bools.take(i as int) =~= bools);
    i = 0;
    assert(out.deep_view() =~= strings + ints + bools + floats.take(0));
    while i < labels.floats.len()
        invariant
            i <= labels.floats@.len(),
            floats == Seq::new(
                labels.floats@.len(),
                |i: int|
                    annotation(labels.floats@[i].0, DebugValueView::Double(labels.floats@[i].1)),
            ),
            out.deep_view() == strings + ints + bools + floats.take(i as int),
        decreases labels.floats@.len() - i,
    {
        let ghost before = out.deep_view();
        let (key, value) = labels.floats.entry(i);
        out.push(create_debug_annotation(key.to_owned(), DebugValue::Double(*value)));
        i += 1;
        assert(out.deep_view() =~= before.push(floats[i - 1]));
        assert(floats.take(i as int) =~= floats.take(i - 1).push(floats[i - 1]));
    }
    assert(floats.take(i as int) =~= floats);
    out
}

/// A text of its own, where there is one.
fn owned(name: Option<&str>) -> (r: Option<String>)
    ensures
        r.deep_view() == name.deep_view(),
{
    match name {
        Some(n) => Some(n.to_owned()),
        None => None,
    }
}

/// The mode of a sample, as the trace knows it.
fn sample_mode(mode: CpuMode) -> (m: model::CpuMode)
    ensures
        m == sample_mode_spec(mode),
{
    match mode {
        CpuMode::User => model::CpuMode::ModeUser,
        CpuMode::Kernel => model::CpuMode::ModeKernel,
        _ => model::CpuMode::ModeUnknown,
    }
}

/// Writes events, and before them the tracks that they belong to.
pub struct TrackWriter<W: PacketSink> {
    writer: PerfettoStreamWriter<W>,
    process_tracks: HashMap<i32, u64>,
    thread_tracks: HashMap<i64, u64>,
    counter_tracks: StringHashMap<u64>,
}

/// `steps` were run on a writer.
pub open spec fn ran<W: PacketSink, T>(
    before: TrackWriter<W>,
    todo: Seq<Step>,
    r: Result<T, W::Error>,
    after: TrackWriter<W>,
) -> bool {
    &&& after.wf()
    &&& steps::ran(
        before.history(),
        before.tracks(),
        todo,
        sink::answer(r),
        after.history(),
        after.tracks(),
    )
}

impl<W: PacketSink> TrackWriter<W> {
    pub closed spec fn wf(self) -> bool {
        self.writer.wf()
    }

    /// The packets that the sink took.
    pub closed spec fn log(self) -> Seq<TracePacketView> {
        self.writer.log()
    }

    /// What the sink was asked for.
    pub closed spec fn calls(self) -> Seq<SinkCall<W::Error>> {
        self.writer.calls()
    }

    /// What became of the sink.
    pub open spec fn history(self) -> History<W::Error> {
        History { calls: self.calls(), log: self.log() }
    }

    /// The sink.
    pub closed spec fn sink(self) -> W {
        self.writer.sink()
    }

    /// The tracks that the trace has.
    pub closed spec fn tracks(self) -> Tracks {
        Tracks {
            processes: self.process_tracks@,
            threads: Map::new(
                |k: (i32, i32)| self.thread_tracks@.contains_key(thread_key_spec(k.0, k.1) as i64),
                |k: (i32, i32)| self.thread_tracks@[thread_key_spec(k.0, k.1) as i64],
            ),
            counters: self.counter_tracks@,
            numbers: self.writer.counters(),
        }
    }

    /// A writer of a trace without tracks.
    pub fn new(writer: W) -> (s: Self)
        ensures
            s.wf(),
            s.sink() == writer,
            s.history() == sink::history(writer),
            s.tracks() == (Tracks {
                processes: Map::empty(),
                threads: Map::empty(),
                counters: Map::empty(),
                numbers: Counters {
                    track_uuid: crate::perfetto::writer::FIRST_TRACK_UUID,
                    frames: 0,
                    functions: 0,
                },
            }),
    {
        let s = TrackWriter {
            writer: PerfettoStreamWriter::new(writer),
            process_tracks: HashMap::new(),
            thread_tracks: HashMap::new(),
            counter_tracks: StringHashMap::new(),
        };
        assert(s.tracks().threads =~= Map::empty());
        s
    }

    /// The sink with the packets.
    pub fn get_ref(&self) -> (w: &W)
        ensures
            *w == self.sink(),
            sink::history(*w) == self.history(),
    {
        self.writer.get_ref()
    }

    /// The track of the process `pid`. Where it has none yet, one is written, with the name
    /// `name`.
    pub fn ensure_process_track(&mut self, pid: i32, name: Option<&str>) -> (r: Result<
        u64,
        W::Error,
    >)
        requires
            old(self).wf(),
            old(self).tracks().numbers.track_uuid < u64::MAX,
        ensures
            ran(
                *old(self),
                process_steps(old(self).tracks(), pid, name.deep_view()),
                r,
                *final(self),
            ),
            r matches Ok(uuid) ==> final(self).tracks().processes.contains_key(pid) && final(
            self).tracks().processes[pid] == uuid,
    {
        let ghost t = self.tracks();
        if let Some(track_uuid) = self.process_tracks.get(&pid) {
            proof {
                steps::ran_nothing(self.history(), t);
            }
            return Ok(*track_uuid);
        }
        let ghost step = process_steps(t, pid, name.deep_view())[0];
        match self.writer.write_process_descriptor(pid as u32, owned(name)) {
            Err(e) => {
                proof {
                    assert(self.tracks() =~= numbered(t));
                    steps::ran_one(
                        old(self).history(),
                        t,
                        step,
                        Err(e),
                        self.history(),
                        self.tracks(),
                    );
                }
                Err(e)
            },
            Ok(track_uuid) => {
                self.process_tracks.insert(pid, track_uuid);
                proof {
                    assert(self.tracks() =~= step.done);
                    steps::ran_one(old(self).history(), t, step, Ok(()), self.history(), self.tracks());
                }
                Ok(track_uuid)
            },
        }
    }

    /// The track of the thread `tid` of the process `pid`. Where it has none yet, one is
    /// written, with the name `name`, after that of its process.
    pub fn ensure_thread_track(&mut self, pid: i32, tid: i32, name: Option<&str>) -> (r: Result<
        u64,
        W::Error,
    >)
        requires
            old(self).wf(),
            old(self).tracks().numbers.track_uuid + 1 < u64::MAX,
        ensures
            ran(
                *old(self),
                thread_steps(old(self).tracks(), pid, tid, name.deep_view()),
                r,
                *final(self),
            ),
            r matches Ok(uuid) ==> final(self).tracks().threads.contains_key((pid, tid)) && final(
            self).tracks().threads[(pid, tid)] == uuid,
    {
        let ghost t = self.tracks();
        let ghost h = self.history();
        let key: i64 = thread_key(pid, tid);
        if let Some(track_uuid) = self.thread_tracks.get(&key) {
            proof {
                steps::ran_nothing(self.history(), t);
                assert(t.threads.contains_key((pid, tid)));
            }
            return Ok(*track_uuid);
        }
        assert(!t.threads.contains_key((pid, tid)));
        let ghost all = thread_steps(t, pid, tid, name.deep_view());
        let ghost first = process_steps(t, pid, None);
        let ghost last = all.last();
        assert(all =~= first + seq![last]);
        match self.ensure_process_track(pid, None) {
            Err(e) => {
                proof {
                    steps::ran_prefix(h, t, first, seq![last], e, self.history(), self.tracks());
                }
                Err(e)
            },
            Ok(process_track_uuid) => {
                let ghost t1 = self.tracks();
                let ghost h1 = self.history();
                match self.writer.write_thread_descriptor(
                    pid as u32,
                    tid as u32,
                    owned(name),
                    process_track_uuid,
                ) {
                    Err(e) => {
                        proof {
                            assert(self.tracks() =~= numbered(t1));
                            steps::ran_one(h1, t1, last, Err(e), self.history(), self.tracks());
                            steps::ran_both(
                                h,
                                t,
                                first,
                                h1,
                                t1,
                                seq![last],
                                Err(e),
                                self.history(),
                                self.tracks(),
                            );
                        }
                        Err(e)
                    },
                    Ok(track_uuid) => {
                        self.thread_tracks.insert(key, track_uuid);
                        proof {
                            assert(self.tracks().threads =~= t1.threads.insert(
                                (pid, tid),
                                track_uuid,
                            ));
                            assert(self.tracks() =~= last.done);
                            steps::ran_one(h1, t1, last, Ok(()), self.history(), self.tracks());
                            steps::ran_both(
                                h,
                                t,
                                first,
                                h1,
                                t1,
                                seq![last],
                                Ok(()),
                                self.history(),
                                self.tracks(),
                            );
                        }
                        Ok(track_uuid)
                    },
                }
            },
        }
    }

    /// The track of the counter `name` of the thread `tid`. Where it has none yet, one is
    /// written below `parent`.
    fn ensure_counter_track(&mut self, tid: i32, name: &str, unit: Option<&str>, parent: u64) -> (r:
        Result<u64, W::Error>)
        requires
            old(self).wf(),
            old(self).tracks().numbers.track_uuid < u64::MAX,
        ensures
            ran(
                *old(self),
                counter_track_steps(old(self).tracks(), tid, name@, unit.deep_view(), parent),
                r,
                *final(self),
            ),
            r matches Ok(uuid) ==> final(self).tracks().counters.contains_key(
                counter_key(tid, name@),
            ) && final(self).tracks().counters[counter_key(tid, name@)] == uuid,
    {
        let ghost t = self.tracks();
        let mut key = String::new();
        push_signed_decimal(&mut key, tid as i64);
        key.append(":");
        key.append(name);
        assert(key@ =~= counter_key(tid, name@));
        if let Some(uuid) = self.counter_tracks.get(key.as_str()) {
            proof {
                steps::ran_nothing(self.history(), t);
            }
            return Ok(*uuid);
        }
        let ghost step = counter_track_steps(t, tid, name@, unit.deep_view(), parent)[0];
        match self.writer.write_counter_track(name.to_owned(), owned(unit), parent) {
            Err(e) => {
                proof {
                    assert(self.tracks() =~= numbered(t));
                    steps::ran_one(old(self).history(), t, step, Err(e), self.history(), self.tracks());
                }
                Err(e)
            },
            Ok(uuid) => {
                self.counter_tracks.insert(key, uuid);
                proof {
                    assert(self.tracks() =~= step.done);
                    steps::ran_one(old(self).history(), t, step, Ok(()), self.history(), self.tracks());
                }
                Ok(uuid)
            },
        }
    }

    /// Writes a value of a counter, given by its bit pattern, on the counter's track.
    pub fn convert_counter(
        &mut self,
        pid: i32,
        tid: i32,
        name: &str,
        value_bits: u64,
        timestamp: u64,
        unit: Option<&str>,
    ) -> (r: Result<(), W::Error>)
        requires
            old(self).wf(),
            old(self).tracks().numbers.track_uuid + 3 <= u64::MAX,
        ensures
            ran(
                *old(self),
                counter_steps(
                    old(self).tracks(),
                    pid,
                    tid,
                    name@,
                    value_bits,
                    timestamp,
                    unit.deep_view(),
                ),
                r,
                *final(self),
            ),
    {
        let ghost t = self.tracks();
        let ghost h = self.history();
        let ghost a = thread_steps(t, pid, tid, None);
        let ghost t1 = steps::end(t, a);
        let ghost b = counter_track_steps(
            t1,
            tid,
            name@,
            unit.deep_view(),
            t1.threads[(pid, tid)],
        );
        let ghost t2 = steps::end(t1, b);
        let ghost last = plain_step(
            t2,
            model::counter_value_packet(
                SEQUENCE_ID,
                t2.counters[counter_key(tid, name@)],
                CounterValue::Double(value_bits),
                timestamp,
            ),
        );
        match self.ensure_thread_track(pid, tid, None) {
            Err(e) => {
                proof {
                    steps::ran_prefix(h, t, a, b, e, self.history(), self.tracks());
                    steps::ran_prefix(h, t, a + b, seq![last], e, self.history(), self.tracks());
                }
                Err(e)
            },
            Ok(thread_track_uuid) => {
                let ghost h1 = self.history();
                match self.ensure_counter_track(tid, name, unit, thread_track_uuid) {
                    Err(e) => {
                        proof {
                            steps::ran_both(
                                h,
                                t,
                                a,
                                h1,
                                t1,
                                b,
                                Err(e),
                                self.history(),
                                self.tracks(),
                            );
                            steps::ran_prefix(h, t, a + b, seq![last], e, self.history(), self.tracks());
                        }
                        Err(e)
                    },
                    Ok(counter_track_uuid) => {
                        let ghost h2 = self.history();
                        proof {
                            steps::ran_both(h, t, a, h1, t1, b, Ok(()), h2, t2);
                        }
                        let r = self.writer.write_double_counter_value(
                            counter_track_uuid,
                            value_bits,
                            timestamp,
                        );
                        proof {
                            assert(self.tracks() =~= t2);
                            steps::ran_one(h2, t2, last, sink::answer(r), self.history(), self.tracks());
                            steps::ran_both(
                                h,
                                t,
                                a + b,
                                h2,
                                t2,
                                seq![last],
                                sink::answer(r),
                                self.history(),
                                self.tracks(),
                            );
                        }
                        r
                    },
                }
            },
        }
    }

    /// Writes a span on the track of its thread.
    pub fn convert_span(
        &mut self,
        pid: i32,
        tid: i32,
        name: &str,
        start_timestamp: u64,
        end_timestamp: u64,
        labels: &Labels,
    ) -> (r: Result<(), W::Error>)
        requires
            old(self).wf(),
            old(self).tracks().numbers.track_uuid + 1 < u64::MAX,
        ensures
            ran(
                *old(self),
                span_steps(
                    old(self).tracks(),
                    pid,
                    tid,
                    name@,
                    start_timestamp,
                    end_timestamp,
                    label_annotations(*labels),
                ),
                r,
                *final(self),
            ),
    {
        let ghost t = self.tracks();
        let ghost h = self.history();
        let ghost a = thread_steps(t, pid, tid, None);
        let ghost t1 = steps::end(t, a);
        let ghost track = t1.threads[(pid, tid)];
        let ghost begin = plain_step(
            t1,
            model::slice_begin_packet(
                SEQUENCE_ID,
                track,
                name@,
                start_timestamp,
                label_annotations(*labels),
            ),
        );
        let ghost last = plain_step(
            t1,
            model::slice_end_packet(SEQUENCE_ID, track, end_timestamp),
        );
        match self.ensure_thread_track(pid, tid, None) {
            Err(e) => {
                proof {
                    steps::ran_prefix(h, t, a, seq![begin], e, self.history(), self.tracks());
                    steps::ran_prefix(
                        h,
                        t,
                        a + seq![begin],
                        seq![last],
                        e,
                        self.history(),
                        self.tracks(),
                    );
                }
                Err(e)
            },
            Ok(track_uuid) => {
                let ghost h1 = self.history();
                let debug_annotations = create_debug_annotations(labels);
                let began = self.writer.write_slice_begin(
                    track_uuid,
                    name.to_owned(),
                    start_timestamp,
                    debug_annotations,
                );
                proof {
                    assert(self.tracks() =~= t1);
                    steps::ran_one(h1, t1, begin, sink::answer(began), self.history(), self.tracks());
                    steps::ran_both(
                        h,
                        t,
                        a,
                        h1,
                        t1,
                        seq![begin],
                        sink::answer(began),
                        self.history(),
                        self.tracks(),
                    );
                }
                if let Err(e) = began {
                    proof {
                        steps::ran_prefix(
                            h,
                            t,
                            a + seq![begin],
                            seq![last],
                            e,
                            self.history(),
                            self.tracks(),
                        );
                    }
                    return Err(e);
                }
                let ghost h2 = self.history();
                let r = self.writer.write_slice_end(track_uuid, end_timestamp);
                proof {
                    assert(self.tracks() =~= t1);
                    steps::ran_one(h2, t1, last, sink::answer(r), self.history(), self.tracks());
                    steps::ran_both(
                        h,
                        t,
                        a + seq![begin],
                        h2,
                        t1,
                        seq![last],
                        sink::answer(r),
                        self.history(),
                        self.tracks(),
                    );
                }
                r
            },
        }
    }

    /// Writes an instant on the track of its thread.
    pub fn convert_instant(
        &mut self,
        pid: i32,
        tid: i32,
        name: &str,
        timestamp: u64,
        labels: &Labels,
    ) -> (r: Result<(), W::Error>)
        requires
            old(self).wf(),
            old(self).tracks().numbers.track_uuid + 1 < u64::MAX,
        ensures
            ran(
                *old(self),
                instant_steps(
                    old(self).tracks(),
                    pid,
                    tid,
                    name@,
                    timestamp,
                    label_annotations(*labels),
                ),
                r,
                *final(self),
            ),
    {
        let ghost t = self.tracks();
        let ghost h = self.history();
        let ghost a = thread_steps(t, pid, tid, None);
        let ghost t1 = steps::end(t, a);
        let ghost last = plain_step(
            t1,
            model::instant_packet(
                SEQUENCE_ID,
                t1.threads[(pid, tid)],
                name@,
                timestamp,
                label_annotations(*labels),
            ),
        );
        match self.ensure_thread_track(pid, tid, None) {
            Err(e) => {
                proof {
                    steps::ran_prefix(h, t, a, seq![last], e, self.history(), self.tracks());
                }
                Err(e)
            },
            Ok(track_uuid) => {
                let ghost h1 = self.history();
                let debug_annotations = create_debug_annotations(labels);
                let r = self.writer.write_instant_event(
                    track_uuid,
                    name.to_owned(),
                    timestamp,
                    debug_annotations,
                );
                proof {
                    assert(self.tracks() =~= t1);
                    steps::ran_one(h1, t1, last, sink::answer(r), self.history(), self.tracks());
                    steps::ran_both(
                        h,
                        t,
                        a,
                        h1,
                        t1,
                        seq![last],
                        sink::answer(r),
                        self.history(),
                        self.tracks(),
                    );
                }
                r
            },
        }
    }

    /// Writes a sample.
    pub fn convert_sample(&mut self, sample: &Sample) -> (r: Result<(), W::Error>)
        requires
            old(self).wf(),
        ensures
            ran(*old(self), sample_steps(old(self).tracks(), *sample), r, *final(self)),
    {
        let ghost t = self.tracks();
        let ghost h = self.history();
        let r = self.writer.write_perf_sample(
            sample.cpu,
            sample.pid as u32,
            sample.tid as u32,
            sample.timestamp,
            sample.callstack_iid,
            sample_mode(sample.cpu_mode),
        );
        proof {
            assert(self.tracks() =~= t);
            steps::ran_one(
                h,
                t,
                sample_steps(t, *sample)[0],
                sink::answer(r),
                self.history(),
                self.tracks(),
            );
        }
        r
    }

    /// Writes the call stacks of interned data, each as the start of new interned data.
    pub fn convert_interned_data<D: InternedDataIterable>(&mut self, data: &D) -> (r: Result<
        (),
        W::Error,
    >)
        requires
            old(self).wf(),
            numbers_suffice(old(self).tracks(), *data),
        ensures
            ran(
                *old(self),
                interned_steps(
                    old(self).tracks(),
                    *data,
                    data.callstacks_spec().len() as int,
                ),
                r,
                *final(self),
            ),
    {
        let ghost t = self.tracks();
        let ghost h = self.history();
        let callstacks = data.callstacks();
        let ghost n = callstacks@.len() as int;
        let mut i: usize = 0;
        proof {
            steps::ran_nothing(h, t);
        }
        while i < callstacks.len()
            invariant
                self.wf(),
                callstacks@ == data.callstacks_spec(),
                n == callstacks@.len(),
                i <= n,
                h == old(self).history(),
                t == old(self).tracks(),
                numbers_suffice(t, *data),
                steps::ran(
                    h,
                    t,
                    interned_steps(t, *data, i as int),
                    Ok(()),
                    self.history(),
                    self.tracks(),
                ),
                self.tracks().numbers.frames <= t.numbers.frames + interned_size(*data, i as int),
                self.tracks().numbers.functions <= t.numbers.functions + interned_size(
                    *data,
                    i as int,
                ),
            decreases n - i,
        {
            let ghost before = interned_steps(t, *data, i as int);
            let ghost t1 = self.tracks();
            let ghost h1 = self.history();
            let ghost step = callstack_step(t1, *data, i as int);
            let ids: Vec<u64> = callstacks[i].frame_ids();
            let frames = resolve_frames(data, &ids);
            let ghost k = frames@.len();
            proof {
                interned_size_grows(*data, i + 1, n);
            }
            assert(frames.deep_view().len() == k);
            let callstack_data = create_callstack_interned_data(callstacks[i].iid(), frames);
            assert(callstack_data.deep_view().function_names.len() == k + 1);
            assert(callstack_data.deep_view().frames.len() == k);
            let r = self.writer.write_interned_data(callstack_data);
            proof {
                assert(self.tracks() =~= step.done);
                steps::ran_one(h1, t1, step, sink::answer(r), self.history(), self.tracks());
                steps::ran_both(
                    h,
                    t,
                    before,
                    h1,
                    t1,
                    seq![step],
                    sink::answer(r),
                    self.history(),
                    self.tracks(),
                );
                assert(before + seq![step] =~= interned_steps(t, *data, i + 1));
            }
            if let Err(e) = r {
                proof {
                    ran_interned_prefix(
                        h,
                        t,
                        *data,
                        i + 1,
                        n,
                        e,
                        self.history(),
                        self.tracks(),
                    );
                }
                return Err(e);
            }
            i += 1;
        }
        Ok(())
    }

    /// Writes another description of the process `pid`, with the name `name`, as a new track.
    pub fn rename_process(&mut self, pid: i32, name: &str) -> (r: Result<(), W::Error>)
        requires
            old(self).wf(),
            old(self).tracks().numbers.track_uuid < u64::MAX,
        ensures
            ran(
                *old(self),
                seq![rename_process_step(old(self).tracks(), pid, name@)],
                r,
                *final(self),
            ),
    {
        let ghost t = self.tracks();
        let ghost h = self.history();
        let written = self.writer.write_process_descriptor(pid as u32, Some(name.to_owned()));
        proof {
            assert(self.tracks() =~= numbered(t));
            steps::ran_one(
                h,
                t,
                rename_process_step(t, pid, name@),
                sink::answer(written),
                self.history(),
                self.tracks(),
            );
        }
        match written {
            Ok(_) => Ok(()),
            Err(e) => Err(e),
        }
    }

    /// Writes another description of the thread `tid`, with the name `name`, as a new track
    /// below `parent`.
    pub fn rename_thread(&mut self, pid: i32, tid: i32, name: &str, parent: u64) -> (r: Result<
        (),
        W::Error,
    >)
        requires
            old(self).wf(),
            old(self).tracks().numbers.track_uuid < u64::MAX,
        ensures
            ran(
                *old(self),
                seq![rename_thread_step(old(self).tracks(), pid, tid, name@, parent)],
                r,
                *final(self),
            ),
    {
        let ghost t = self.tracks();
        let ghost h = self.history();
        let written = self.writer.write_thread_descriptor(
            pid as u32,
            tid as u32,
            Some(name.to_owned()),
            parent,
        );
        proof {
            assert(self.tracks() =~= numbered(t));
            steps::ran_one(
                h,
                t,
                rename_thread_step(t, pid, tid, name@, parent),
                sink::answer(written),
                self.history(),
                self.tracks(),
            );
        }
        match written {
            Ok(_) => Ok(()),
            Err(e) => Err(e),
        }
    }

    /// Has the sink pass on what it still holds back, once, and gives back its answer.
    pub fn flush(&mut self) -> (r: Result<(), W::Error>)
        requires
            old(self).wf(),
        ensures
            final(self).wf(),
            final(self).history() == old(self).history().flushed(r),
            final(self).tracks() == old(self).tracks(),
    {
        self.writer.flush()
    }
}

/// Writing another description of a process.
pub open spec fn rename_process_step(t: Tracks, pid: i32, name: Seq<char>) -> Step {
    Step {
        failed: numbered(t),
        packet: model::process_packet(
            SEQUENCE_ID,
            t.numbers.track_uuid,
            pid as u32 as i32,
            Some(name),
        ),
        done: numbered(t),
    }
}

/// Writing another description of a thread.
pub open spec fn rename_thread_step(
    t: Tracks,
    pid: i32,
    tid: i32,
    name: Seq<char>,
    parent: u64,
) -> Step {
    Step {
        failed: numbered(t),
        packet: model::thread_packet(
            SEQUENCE_ID,
            t.numbers.track_uuid,
            pid as u32 as i32,
            tid as u32 as i32,
            Some(name),
            parent,
        ),
        done: numbered(t),
    }
}

/// What stopped among the first call stacks has stopped among all of them.
proof fn ran_interned_prefix<D: InternedDataIterable, E>(
    h: History<E>,
    t: Tracks,
    data: D,
    i: int,
    n: int,
    e: E,
    after: History<E>,
    tracks_after: Tracks,
)
    requires
        0 <= i <= n,
        steps::ran(h, t, interned_steps(t, data, i), Err(e), after, tracks_after),
    ensures
        steps::ran(h, t, interned_steps(t, data, n), Err(e), after, tracks_after),
    decreases n - i,
{
    if i < n {
        let a = interned_steps(t, data, i);
        let step = callstack_step(steps::end(t, a), data, i);
        steps::ran_prefix(h, t, a, seq![step], e, after, tracks_after);
        assert(a + seq![step] =~= interned_steps(t, data, i + 1));
        ran_interned_prefix(h, t, data, i + 1, n, e, after, tracks_after);
    }
}

} // verus!
