//! The converter of events into a Perfetto trace.

use crate::converter::interned_data_iter::InternedDataIterable;
use crate::converter::steps;
use crate::converter::steps::{Step, Tracks};
use crate::converter::tracks;
use crate::converter::tracks::TrackWriter;
use crate::perfetto::model::TracePacketView;
use crate::perfetto::sink;
use crate::perfetto::sink::{History, PacketSink, SinkCall};
use crate::perfetto::writer::{Counters, FIRST_TRACK_UUID};
use crate::protocol::events::TraceInput;
use vstd::prelude::*;
use vstd::string::*;

verus! {

/// The tracks of a new trace.
pub open spec fn no_tracks() -> Tracks {
    Tracks {
        processes: Map::empty(),
        threads: Map::empty(),
        counters: Map::empty(),
        numbers: Counters { track_uuid: FIRST_TRACK_UUID, frames: 0, functions: 0 },
    }
}

/// The numbers that a trace hands out do not run out on `event`.
pub open spec fn numbers_suffice(t: Tracks, event: TraceInput) -> bool {
    match event {
        TraceInput::InternedData(data) => tracks::numbers_suffice(t, data),
        TraceInput::Sample(_) => true,
        _ => t.numbers.track_uuid + 3 <= u64::MAX,
    }
}

/// What the conversion of `event` takes. A name is written where the thread or process has no
/// track yet, with its track.
pub open spec fn event_steps(t: Tracks, event: TraceInput) -> Seq<Step> {
    match event {
        TraceInput::InternedData(data) => tracks::interned_steps(
            t,
            data,
            data.callstacks@.len() as int,
        ),
        TraceInput::Sample(sample) => tracks::sample_steps(t, sample),
        TraceInput::Counter(c) => tracks::counter_steps(
            t,
            c.pid,
            c.tid,
            c.name@,
            c.value_bits,
            c.timestamp,
            c.unit.deep_view(),
        ),
        TraceInput::Span(s) => tracks::span_steps(
            t,
            s.pid,
            s.tid,
            s.name@,
            s.start_timestamp,
            s.end_timestamp,
            tracks::label_annotations(s.labels),
        ),
        TraceInput::Instant(i) => tracks::instant_steps(
            t,
            i.pid,
            i.tid,
            i.name@,
            i.timestamp,
            tracks::label_annotations(i.labels),
        ),
        TraceInput::ThreadName(n) => tracks::thread_steps(t, n.pid, n.tid, Some(n.name@)),
        TraceInput::ProcessName(n) => tracks::process_steps(t, n.pid, Some(n.name@)),
    }
}

/// The text behind a reference, where there is one.
pub(crate) fn borrowed(text: &Option<String>) -> (r: Option<&str>)
    ensures
        r.deep_view() == text.deep_view(),
{
    match text {
        Some(t) => Some(t.as_str()),
        None => None,
    }
}

/// Converts events into the packets of a trace.
pub struct PerfettoConverter<W: PacketSink> {
    writer: TrackWriter<W>,
}

impl<W: PacketSink> PerfettoConverter<W> {
    pub closed spec fn wf(self) -> bool {
        self.writer.wf()
    }

    /// The packets that the sink took.
    pub closed spec fn log(self) -> Seq<TracePacketView> {
        self.writer.log()
    }

    /// What the sink was asked for.
    pub closed spec fn calls(self) -> Seq<SinkCall<W::Error>> {
        self.writer.calls()
    }

    /// What became of the sink.
    pub open spec fn history(self) -> History<W::Error> {
        History { calls: self.calls(), log: self.log() }
    }

    /// The sink.
    pub closed spec fn sink(self) -> W {
        self.writer.sink()
    }

    /// The tracks that the trace has.
    pub closed spec fn tracks(self) -> Tracks {
        self.writer.tracks()
    }

    /// A converter into `writer`.
    pub fn new(writer: W) -> (c: Self)
        ensures
            c.wf(),
            c.sink() == writer,
            c.history() == sink::history(writer),
            c.tracks() == no_tracks(),
    {
        PerfettoConverter { writer: TrackWriter::new(writer) }
    }

    /// The sink with the packets.
    pub fn get_ref(&self) -> (w: &W)
        ensures
            *w == self.sink(),
            sink::history(*w) == self.history(),
    {
        self.writer.get_ref()
    }

    /// Converts `event`.
    pub fn convert_event(&mut self, event: &TraceInput) -> (r: Result<(), W::Error>)
        requires
            old(self).wf(),
            numbers_suffice(old(self).tracks(), *event),
        ensures
            final(self).wf(),
            steps::ran(
                old(self).history(),
                old(self).tracks(),
                event_steps(old(self).tracks(), *event),
                sink::answer(r),
                final(self).history(),
                final(self).tracks(),
            ),
    {
        match event {
            TraceInput::InternedData(data) => self.writer.convert_interned_data(data),
            TraceInput::Sample(sample) => self.writer.convert_sample(sample),
            TraceInput::Counter(counter) => self.writer.convert_counter(
                counter.pid,
                counter.tid,
                counter.name.as_str(),
                counter.value_bits,
                counter.timestamp,
                borrowed(&counter.unit),
            ),
            TraceInput::Span(span) => self.writer.convert_span(
                span.pid,
                span.tid,
                span.name.as_str(),
                span.start_timestamp,
                span.end_timestamp,
                &span.labels,
            ),
            TraceInput::Instant(instant) => self.writer.convert_instant(
                instant.pid,
                instant.tid,
                instant.name.as_str(),
                instant.timestamp,
                &instant.labels,
            ),
            TraceInput::ThreadName(thread_name) => match self.writer.ensure_thread_track(
                thread_name.pid,
                thread_name.tid,
                Some(thread_name.name.as_str()),
            ) {
                Ok(_) => Ok(()),
                Err(e) => Err(e),
            },
            TraceInput::ProcessName(process_name) => match self.writer.ensure_process_track(
                process_name.pid,
                Some(process_name.name.as_str()),
            ) {
                Ok(_) => Ok(()),
                Err(e) => Err(e),
            },
        }
    }

    /// Converts an event that was read from an archive.
    pub fn convert_archived_event(&mut self, event: &TraceInput) -> (r: Result<(), W::Error>)
        requires
            old(self).wf(),
            numbers_suffice(old(self).tracks(), *event),
        ensures
            final(self).wf(),
            steps::ran(
                old(self).history(),
                old(self).tracks(),
                event_steps(old(self).tracks(), *event),
                sink::answer(r),
                final(self).history(),
                final(self).tracks(),
            ),
    {
        self.convert_event(event)
    }

    /// Has the sink pass on what it still holds back, once, and gives back its answer.
    pub fn flush(&mut self) -> (r: Result<(), W::Error>)
        requires
            old(self).wf(),
        ensures
            final(self).wf(),
            final(self).history() == old(self).history().flushed(r),
            final(self).tracks() == old(self).tracks(),
    {
        self.writer.flush()
    }
}

} // verus!
