//! The converter of profiling events into a Perfetto trace.
//!
//! Tracks come without a name; each name event writes one more description, with the name.

use crate::converter::interned_data_iter::InternedDataIterable;
use crate::converter::perfetto;
use crate::converter::perfetto::borrowed;
use crate::converter::steps;
use crate::converter::steps::{Step, Tracks};
use crate::converter::tracks;
use crate::converter::tracks::TrackWriter;
use crate::perfetto::model::TracePacketView;
use crate::perfetto::sink;
use crate::perfetto::sink::{History, PacketSink, SinkCall};
use crate::protocol::events::TraceInput;
use vstd::prelude::*;
use vstd::string::*;

verus! {

/// What the name of a thread takes: tracks for its process and for itself, then the name.
pub open spec fn thread_name_steps(t: Tracks, pid: i32, tid: i32, name: Seq<char>) -> Seq<Step> {
    let a = tracks::process_steps(t, pid, None);
    let t1 = steps::end(t, a);
    let b = tracks::thread_steps(t1, pid, tid, None);
    let t2 = steps::end(t1, b);
    a + b + seq![tracks::rename_thread_step(t2, pid, tid, name, t1.processes[pid])]
}

/// What the name of a process takes: a track for it, then the name.
pub open spec fn process_name_steps(t: Tracks, pid: i32, name: Seq<char>) -> Seq<Step> {
    let a = tracks::process_steps(t, pid, None);
    a + seq![tracks::rename_process_step(steps::end(t, a), pid, name)]
}

/// What the conversion of `event` takes.
pub open spec fn event_steps(t: Tracks, event: TraceInput) -> Seq<Step> {
    match event {
        TraceInput::ThreadName(n) => thread_name_steps(t, n.pid, n.tid, n.name@),
        TraceInput::ProcessName(n) => process_name_steps(t, n.pid, n.name@),
        _ => perfetto::event_steps(t, event),
    }
}

/// Converts profiling events into the packets of a trace.
pub struct ProfilerConverter<W: PacketSink> {
    writer: TrackWriter<W>,
}

impl<W: PacketSink> ProfilerConverter<W> {
    pub closed spec fn wf(self) -> bool {
        self.writer.wf()
    }

    /// The packets that the sink took.
    pub closed spec fn log(self) -> Seq<TracePacketView> {
        self.writer.log()
    }

    /// What the sink was asked for.
    pub closed spec fn calls(self) -> Seq<SinkCall<W::Error>> {
        self.writer.calls()
    }

    /// What became of the sink.
    pub open spec fn history(self) -> History<W::Error> {
        History { calls: self.calls(), log: self.log() }
    }

    /// The sink.
    pub closed spec fn sink(self) -> W {
        self.writer.sink()
    }

    /// The tracks that the trace has.
    pub closed spec fn tracks(self) -> Tracks {
        self.writer.tracks()
    }

    /// A converter into `writer`.
    pub fn new(writer: W) -> (c: Self)
        ensures
            c.wf(),
            c.sink() == writer,
            c.history() == sink::history(writer),
            c.tracks() == perfetto::no_tracks(),
    {
        ProfilerConverter { writer: TrackWriter::new(writer) }
    }

    /// The sink with the packets.
    pub fn get_ref(&self) -> (w: &W)
        ensures
            *w == self.sink(),
            sink::history(*w) == self.history(),
    {
        self.writer.get_ref()
    }

    /// Converts `event`.
    pub fn convert_event(&mut self, event: &TraceInput) -> (r: Result<(), W::Error>)
        requires
            old(self).wf(),
            perfetto::numbers_suffice(old(self).tracks(), *event),
        ensures
            final(self).wf(),
            steps::ran(
                old(self).history(),
                old(self).tracks(),
                event_steps(old(self).tracks(), *event),
                sink::answer(r),
                final(self).history(),
                final(self).tracks(),
            ),
    {
        match event {
            TraceInput::InternedData(data) => self.writer.convert_interned_data(data),
            TraceInput::Sample(sample) => self.writer.convert_sample(sample),
            TraceInput::Counter(counter) => self.writer.convert_counter(
                counter.pid,
                counter.tid,
                counter.name.as_str(),
                counter.value_bits,
                counter.timestamp,
                borrowed(&counter.unit),
            ),
            TraceInput::Span(span) => self.writer.convert_span(
                span.pid,
                span.tid,
                span.name.as_str(),
                span.start_timestamp,
                span.end_timestamp,
                &span.labels,
            ),
            TraceInput::Instant(instant) => self.writer.convert_instant(
                instant.pid,
                instant.tid,
                instant.name.as_str(),
                instant.timestamp,
                &instant.labels,
            ),
            TraceInput::ThreadName(n) => self.convert_thread_name(n.pid, n.tid, n.name.as_str()),
            TraceInput::ProcessName(n) => self.convert_process_name(n.pid, n.name.as_str()),
        }
    }

    fn convert_thread_name(&mut self, pid: i32, tid: i32, name: &str) -> (r: Result<(), W::Error>)
        requires
            old(self).wf(),
            old(self).tracks().numbers.track_uuid + 3 <= u64::MAX,
        ensures
            final(self).wf(),
            steps::ran(
                old(self).history(),
                old(self).tracks(),
                thread_name_steps(old(self).tracks(), pid, tid, name@),
                sink::answer(r),
                final(self).history(),
                final(self).tracks(),
            ),
    {
        let ghost t = self.tracks();
        let ghost h = self.history();
        let ghost a = tracks::process_steps(t, pid, None);
        let ghost t1 = steps::end(t, a);
        let ghost b = tracks::thread_steps(t1, pid, tid, None);
        let ghost t2 = steps::end(t1, b);
        let ghost last = tracks::rename_thread_step(t2, pid, tid, name@, t1.processes[pid]);
        let process_track_uuid: u64 = match self.writer.ensure_process_track(pid, None) {
            Err(e) => {
                proof {
                    steps::ran_prefix(h, t, a, b, e, self.history(), self.tracks());
                    steps::ran_prefix(h, t, a + b, seq![last], e, self.history(), self.tracks());
                }
                return Err(e);
            },
            Ok(uuid) => uuid,
        };
        let ghost h1 = self.history();
        let ensured = self.writer.ensure_thread_track(pid, tid, None);
        proof {
            steps::ran_both(h, t, a, h1, t1, b, sink::answer(ensured), self.history(), self.tracks());
        }
        if let Err(e) = ensured {
            proof {
                steps::ran_prefix(h, t, a + b, seq![last], e, self.history(), self.tracks());
            }
            return Err(e);
        }
        let ghost h2 = self.history();
        let r = self.writer.rename_thread(pid, tid, name, process_track_uuid);
        proof {
            steps::ran_both(
                h,
                t,
                a + b,
                h2,
                t2,
                seq![last],
                sink::answer(r),
                self.history(),
                self.tracks(),
            );
        }
        r
    }

    fn convert_process_name(&mut self, pid: i32, name: &str) -> (r: Result<(), W::Error>)
        requires
            old(self).wf(),
            old(self).tracks().numbers.track_uuid + 3 <= u64::MAX,
        ensures
            final(self).wf(),
            steps::ran(
                old(self).history(),
                old(self).tracks(),
                process_name_steps(old(self).tracks(), pid, name@),
                sink::answer(r),
                final(self).history(),
                final(self).tracks(),
            ),
    {
        let ghost t = self.tracks();
        let ghost h = self.history();
        let ghost a = tracks::process_steps(t, pid, None);
        let ghost t1 = steps::end(t, a);
        let ghost last = tracks::rename_process_step(t1, pid, name@);
        if let Err(e) = self.writer.ensure_process_track(pid, None) {
            proof {
                steps::ran_prefix(h, t, a, seq![last], e, self.history(), self.tracks());
            }
            return Err(e);
        }
        let ghost h1 = self.history();
        let r = self.writer.rename_process(pid, name);
        proof {
            steps::ran_both(
                h,
                t,
                a,
                h1,
                t1,
                seq![last],
                sink::answer(r),
                self.history(),
                self.tracks(),
            );
        }
        r
    }

    /// Has the sink pass on what it still holds back, once, and gives back its answer.
    pub fn finish(&mut self) -> (r: Result<(), W::Error>)
        requires
            old(self).wf(),
        ensures
            final(self).wf(),
            final(self).history() == old(self).history().flushed(r),
            final(self).tracks() == old(self).tracks(),
    {
        self.writer.flush()
    }
}

} // verus!
