//! The writer of a trace: it numbers the tracks and puts the packets together.

use crate::perfetto::interned;
use crate::perfetto::interned::{create_callstack_interned_data, create_callstack_interned_next};
use crate::perfetto::model;
use crate::perfetto::model::{
    CounterDescriptor, CounterValue, CpuMode, DebugAnnotation, InternedData, PacketData,
    PerfSample, ProcessDescriptor, SequenceFlags, ThreadDescriptor, TracePacket, TracePacketView,
    TrackDescriptor, TrackEvent, TrackEventType,
};
use crate::perfetto::sink;
use crate::perfetto::sink::{History, PacketSink, SinkCall};
use vstd::prelude::*;

verus! {

/// The numbers that a writer hands out.
pub struct Counters {
    /// The number of the next track.
    pub track_uuid: u64,
    /// How many frames were interned.
    pub frames: u64,
    /// How many function names were interned.
    pub functions: u64,
}

/// Writes the packets of one sequence into a sink.
pub struct PerfettoStreamWriter<W: PacketSink> {
    writer: W,
    sequence_id: u32,
    track_uuid_counter: u64,
    frame_counter: u64,
    function_counter: u64,
}

/// The number of the sequence that a writer writes.
pub const SEQUENCE_ID: u32 = 1;

/// The number of the first track that a writer numbers itself.
pub const FIRST_TRACK_UUID: u64 = 1000;

/// What a write did: the sink was asked to take `packet`, once, and its answer is what came back.
pub open spec fn wrote<W: PacketSink, T>(
    before: PerfettoStreamWriter<W>,
    after: PerfettoStreamWriter<W>,
    r: Result<T, W::Error>,
    packet: TracePacketView,
) -> bool {
    &&& after.history() == before.history().written(packet, sink::answer(r))
    &&& after.wf()
}

impl<W: PacketSink> PerfettoStreamWriter<W> {
    pub closed spec fn wf(self) -> bool {
        self.sequence_id == SEQUENCE_ID
    }

    /// The packets that the sink took.
    pub closed spec fn log(self) -> Seq<TracePacketView> {
        self.writer.log()
    }

    /// What the sink was asked for.
    pub closed spec fn calls(self) -> Seq<SinkCall<W::Error>> {
        self.writer.calls()
    }

    /// What became of the sink.
    pub open spec fn history(self) -> History<W::Error> {
        History { calls: self.calls(), log: self.log() }
    }

    /// The sink.
    pub closed spec fn sink(self) -> W {
        self.writer
    }

    /// The numbers that were handed out.
    pub closed spec fn counters(self) -> Counters {
        Counters {
            track_uuid: self.track_uuid_counter,
            frames: self.frame_counter,
            functions: self.function_counter,
        }
    }

    /// A writer into `writer` that has not handed out any number yet.
    pub fn new(writer: W) -> (s: Self)
        ensures
            s.wf(),
            s.sink() == writer,
            s.history() == sink::history(writer),
            s.counters() == (Counters {
                track_uuid: FIRST_TRACK_UUID,
                frames: 0,
                functions: 0,
            }),
    {
        PerfettoStreamWriter {
            writer,
            sequence_id: SEQUENCE_ID,
            track_uuid_counter: FIRST_TRACK_UUID,
            frame_counter: 0,
            function_counter: 0,
        }
    }

    /// The sink with the packets.
    pub fn get_ref(&self) -> (w: &W)
        ensures
            *w == self.sink(),
            sink::history(*w) == self.history(),
    {
        &self.writer
    }

    /// Hands out the number of a new track.
    fn next_track_uuid(&mut self) -> (uuid: u64)
        requires
            old(self).wf(),
            old(self).counters().track_uuid < u64::MAX,
        ensures
            final(self).wf(),
            uuid == old(self).counters().track_uuid,
            final(self).history() == old(self).history(),
            final(self).counters() == (Counters {
                track_uuid: (old(self).counters().track_uuid + 1) as u64,
                ..old(self).counters()
            }),
    {
        let uuid: u64 = self.track_uuid_counter;
        self.track_uuid_counter = self.track_uuid_counter + 1;
        uuid
    }

    /// Writes the description of a thread as a new track below `parent_uuid`. The number of the
    /// track is used up even where the packet is not taken.
    pub fn write_thread_descriptor(
        &mut self,
        pid: u32,
        tid: u32,
        thread_name: Option<String>,
        parent_uuid: u64,
    ) -> (r: Result<u64, W::Error>)
        requires
            old(self).wf(),
            old(self).counters().track_uuid < u64::MAX,
        ensures
            wrote(
                *old(self),
                *final(self),
                r,
                model::thread_packet(
                    SEQUENCE_ID,
                    old(self).counters().track_uuid,
                    pid as i32,
                    tid as i32,
                    thread_name.deep_view(),
                    parent_uuid,
                ),
            ),
            r matches Ok(uuid) ==> uuid == old(self).counters().track_uuid,
            final(self).counters() == (Counters {
                track_uuid: (old(self).counters().track_uuid + 1) as u64,
                ..old(self).counters()
            }),
    {
        let thread_track_uuid: u64 = self.next_track_uuid();
        match self.write_thread_descriptor_with_uuid(
            thread_track_uuid,
            pid,
            tid,
            thread_name,
            parent_uuid,
        ) {
            Ok(()) => Ok(thread_track_uuid),
            Err(e) => Err(e),
        }
    }

    /// Writes the description of a thread as the track `thread_track_uuid`.
    pub fn write_thread_descriptor_with_uuid(
        &mut self,
        thread_track_uuid: u64,
        pid: u32,
        tid: u32,
        thread_name: Option<String>,
        parent_uuid: u64,
    ) -> (r: Result<(), W::Error>)
        requires
            old(self).wf(),
        ensures
            wrote(
                *old(self),
                *final(self),
                r,
                model::thread_packet(
                    SEQUENCE_ID,
                    thread_track_uuid,
                    pid as i32,
                    tid as i32,
                    thread_name.deep_view(),
                    parent_uuid,
                ),
            ),
            final(self).counters() == old(self).counters(),
    {
        let thread = ThreadDescriptor { pid: Some(pid as i32), tid: Some(tid as i32), thread_name };
        self.write_track(
            TrackDescriptor {
                uuid: Some(thread_track_uuid),
                parent_uuid: Some(parent_uuid),
                name: None,
                process: None,
                thread: Some(thread),
                counter: None,
            },
        )
    }

    /// Writes the description of a process as a new track.
    pub fn write_process_descriptor(&mut self, pid: u32, process_name: Option<String>) -> (r:
        Result<u64, W::Error>)
        requires
            old(self).wf(),
            old(self).counters().track_uuid < u64::MAX,
        ensures
            wrote(
                *old(self),
                *final(self),
                r,
                model::process_packet(
                    SEQUENCE_ID,
                    old(self).counters().track_uuid,
                    pid as i32,
                    process_name.deep_view(),
                ),
            ),
            r matches Ok(uuid) ==> uuid == old(self).counters().track_uuid,
            final(self).counters() == (Counters {
                track_uuid: (old(self).counters().track_uuid + 1) as u64,
                ..old(self).counters()
            }),
    {
        let uuid: u64 = self.next_track_uuid();
        let process = ProcessDescriptor { pid: Some(pid as i32), process_name };
        match self.write_track(
            TrackDescriptor {
                uuid: Some(uuid),
                parent_uuid: None,
                name: None,
                process: Some(process),
                thread: None,
                counter: None,
            },
        ) {
            Ok(()) => Ok(uuid),
            Err(e) => Err(e),
        }
    }

    /// Writes the description of a counter as a new track below `parent_track_uuid`.
    pub fn write_counter_track(
        &mut self,
        name: String,
        unit_name: Option<String>,
        parent_track_uuid: u64,
    ) -> (r: Result<u64, W::Error>)
        requires
            old(self).wf(),
            old(self).counters().track_uuid < u64::MAX,
        ensures
            wrote(
                *old(self),
                *final(self),
                r,
                model::counter_track_packet(
                    SEQUENCE_ID,
                    old(self).counters().track_uuid,
                    name@,
                    unit_name.deep_view(),
                    parent_track_uuid,
                ),
            ),
            r matches Ok(uuid) ==> uuid == old(self).counters().track_uuid,
            final(self).counters() == (Counters {
                track_uuid: (old(self).counters().track_uuid + 1) as u64,
                ..old(self).counters()
            }),
    {
        let uuid: u64 = self.next_track_uuid();
        match self.write_track(
            TrackDescriptor {
                uuid: Some(uuid),
                parent_uuid: Some(parent_track_uuid),
                name: Some(name),
                process: None,
                thread: None,
                counter: Some(CounterDescriptor { unit_name }),
            },
        ) {
            Ok(()) => Ok(uuid),
            Err(e) => Err(e),
        }
    }

    /// Writes the beginning of a slice on a track.
    pub fn write_slice_begin(
        &mut self,
        track_uuid: u64,
        name: String,
        timestamp_ns: u64,
        debug_annotations: Vec<DebugAnnotation>,
    ) -> (r: Result<(), W::Error>)
        requires
            old(self).wf(),
        ensures
            wrote(
                *old(self),
                *final(self),
                r,
                model::slice_begin_packet(
                    SEQUENCE_ID,
                    track_uuid,
                    name@,
                    timestamp_ns,
                    debug_annotations.deep_view(),
                ),
            ),
            final(self).counters() == old(self).counters(),
    {
        self.write_event(
            timestamp_ns,
            TrackEvent {
                name: Some(name),
                track_uuid: Some(track_uuid),
                event_type: Some(TrackEventType::SliceBegin),
                counter_value: None,
                debug_annotations,
            },
        )
    }

    /// Writes the end of the slice that was begun last on a track.
    pub fn write_slice_end(&mut self, track_uuid: u64, timestamp_ns: u64) -> (r: Result<
        (),
        W::Error,
    >)
        requires
            old(self).wf(),
        ensures
            wrote(
                *old(self),
                *final(self),
                r,
                model::slice_end_packet(SEQUENCE_ID, track_uuid, timestamp_ns),
            ),
            final(self).counters() == old(self).counters(),
    {
        let debug_annotations: Vec<DebugAnnotation> = Vec::new();
        assert(debug_annotations.deep_view() =~= seq![]);
        self.write_event(
            timestamp_ns,
            TrackEvent {
                name: None,
                track_uuid: Some(track_uuid),
                event_type: Some(TrackEventType::SliceEnd),
                counter_value: None,
                debug_annotations,
            },
        )
    }

    /// Writes an event without duration.
    pub fn write_instant_event(
        &mut self,
        track_uuid: u64,
        name: String,
        timestamp_ns: u64,
        debug_annotations: Vec<DebugAnnotation>,
    ) -> (r: Result<(), W::Error>)
        requires
            old(self).wf(),
        ensures
            wrote(
                *old(self),
                *final(self),
                r,
                model::instant_packet(
                    SEQUENCE_ID,
                    track_uuid,
                    name@,
                    timestamp_ns,
                    debug_annotations.deep_view(),
                ),
            ),
            final(self).counters() == old(self).counters(),
    {
        self.write_event(
            timestamp_ns,
            TrackEvent {
                name: Some(name),
                track_uuid: Some(track_uuid),
                event_type: Some(TrackEventType::Instant),
                counter_value: None,
                debug_annotations,
            },
        )
    }

    /// Writes a value of an integer counter.
    pub fn write_counter_value(&mut self, track_uuid: u64, value: i64, timestamp_ns: u64) -> (r:
        Result<(), W::Error>)
        requires
            old(self).wf(),
        ensures
            wrote(
                *old(self),
                *final(self),
                r,
                model::counter_value_packet(
                    SEQUENCE_ID,
                    track_uuid,
                    CounterValue::Int(value),
                    timestamp_ns,
                ),
            ),
            final(self).counters() == old(self).counters(),
    {
        self.write_counter(track_uuid, CounterValue::Int(value), timestamp_ns)
    }

    /// Writes a value of a floating-point counter, given by its bit pattern.
    pub fn write_double_counter_value(
        &mut self,
        track_uuid: u64,
        value_bits: u64,
        timestamp_ns: u64,
    ) -> (r: Result<(), W::Error>)
        requires
            old(self).wf(),
        ensures
            wrote(
                *old(self),
                *final(self),
                r,
                model::counter_value_packet(
                    SEQUENCE_ID,
                    track_uuid,
                    CounterValue::Double(value_bits),
                    timestamp_ns,
                ),
            ),
            final(self).counters() == old(self).counters(),
    {
        self.write_counter(track_uuid, CounterValue::Double(value_bits), timestamp_ns)
    }

    /// Writes a sample of a call stack.
    pub fn write_perf_sample(
        &mut self,
        cpu: u32,
        pid: u32,
        tid: u32,
        timestamp_ns: u64,
        callstack_iid: u64,
        cpu_mode: CpuMode,
    ) -> (r: Result<(), W::Error>)
        requires
            old(self).wf(),
        ensures
            wrote(
                *old(self),
                *final(self),
                r,
                model::sample_packet(
                    SEQUENCE_ID,
                    cpu,
                    pid,
                    tid,
                    timestamp_ns,
                    callstack_iid,
                    cpu_mode,
                ),
            ),
            final(self).counters() == old(self).counters(),
    {
        let sample = PerfSample {
            cpu: Some(cpu),
            pid: Some(pid),
            tid: Some(tid),
            callstack_iid: Some(callstack_iid),
            cpu_mode: Some(cpu_mode),
            timebase_count: Some(1),
        };
        self.write_packet(
            TracePacket {
                timestamp: Some(timestamp_ns),
                trusted_pid: Some(pid as i32),
                trusted_packet_sequence_id: Some(self.sequence_id),
                sequence_flags: None,
                interned_data: None,
                data: Some(PacketData::PerfSample(sample)),
            },
        )
    }

    /// Writes interned data that voids all that was written before. It counts as interned even
    /// where the packet is not taken.
    pub fn write_interned_data(&mut self, interned_data: InternedData) -> (r: Result<(), W::Error>)
        requires
            old(self).wf(),
            old(self).counters().frames + interned_data.frames@.len() <= u64::MAX,
            old(self).counters().functions + interned_data.function_names@.len() <= u64::MAX,
        ensures
            wrote(
                *old(self),
                *final(self),
                r,
                model::interned_packet(
                    SEQUENCE_ID,
                    interned_data.deep_view(),
                    SequenceFlags::IncrementalStateCleared,
                ),
            ),
            final(self).counters() == (Counters {
                frames: (old(self).counters().frames + interned_data.frames@.len()) as u64,
                functions: (old(self).counters().functions
                    + interned_data.function_names@.len()) as u64,
                ..old(self).counters()
            }),
    {
        self.write_interned(interned_data, SequenceFlags::IncrementalStateCleared)
    }

    /// Writes interned data that adds to what was written before.
    pub fn write_interned_data_next(&mut self, interned_data: InternedData) -> (r: Result<
        (),
        W::Error,
    >)
        requires
            old(self).wf(),
            old(self).counters().frames + interned_data.frames@.len() <= u64::MAX,
            old(self).counters().functions + interned_data.function_names@.len() <= u64::MAX,
        ensures
            wrote(
                *old(self),
                *final(self),
                r,
                model::interned_packet(
                    SEQUENCE_ID,
                    interned_data.deep_view(),
                    SequenceFlags::NeedsIncrementalState,
                ),
            ),
            final(self).counters() == (Counters {
                frames: (old(self).counters().frames + interned_data.frames@.len()) as u64,
                functions: (old(self).counters().functions
                    + interned_data.function_names@.len()) as u64,
                ..old(self).counters()
            }),
    {
        self.write_interned(interned_data, SequenceFlags::NeedsIncrementalState)
    }

    /// Writes the interned data of a call stack: the first one starts the interned data of the
    /// trace, each later one continues the numbering of the frames.
    pub fn write_callstack_interned_data(
        &mut self,
        callstack_iid: u64,
        frames: Vec<(&str, &str, u64)>,
    ) -> (r: Result<(), W::Error>)
        requires
            old(self).wf(),
            old(self).counters().frames + 1 + frames@.len() <= u64::MAX,
            old(self).counters().functions + 1 + frames@.len() <= u64::MAX,
        ensures
            ({
                let first = old(self).counters().frames == 0 && old(self).counters().functions
                    == 0;
                &&& wrote(
                    *old(self),
                    *final(self),
                    r,
                    if first {
                        model::interned_packet(
                            SEQUENCE_ID,
                            interned::first_callstack(callstack_iid, frames.deep_view()),
                            SequenceFlags::IncrementalStateCleared,
                        )
                    } else {
                        model::interned_packet(
                            SEQUENCE_ID,
                            interned::next_callstack(
                                callstack_iid,
                                old(self).counters().frames,
                                frames.deep_view(),
                            ),
                            SequenceFlags::NeedsIncrementalState,
                        )
                    },
                )
                &&& final(self).counters() == (Counters {
                    frames: (old(self).counters().frames + frames@.len()) as u64,
                    functions: (old(self).counters().functions + frames@.len() + (if first {
                        1int
                    } else {
                        0int
                    })) as u64,
                    ..old(self).counters()
                })
            }),
    {
        if self.frame_counter == 0 && self.function_counter == 0 {
            let ghost n = frames@.len();
            let data = create_callstack_interned_data(callstack_iid, frames);
            assert(data.deep_view().function_names.len() == n + 1);
            assert(data.deep_view().frames.len() == n);
            self.write_interned_data(data)
        } else {
            let ghost n = frames@.len();
            let data = create_callstack_interned_next(callstack_iid, self.frame_counter, frames);
            assert(data.deep_view().function_names.len() == n);
            assert(data.deep_view().frames.len() == n);
            self.write_interned_data_next(data)
        }
    }

    /// Hands `packet` to the sink.
    pub fn write_packet(&mut self, packet: TracePacket) -> (r: Result<(), W::Error>)
        requires
            old(self).wf(),
        ensures
            wrote(*old(self), *final(self), r, packet.deep_view()),
            final(self).counters() == old(self).counters(),
    {
        let r = self.writer.write_packet(packet);
        assert(sink::answer(r) == r) by {
            if let Ok(u) = r {
                assert(u == ());
            }
        }
        r
    }

    /// Has the sink pass on what it still holds back, once, and gives back its answer.
    pub fn flush(&mut self) -> (r: Result<(), W::Error>)
        requires
            old(self).wf(),
        ensures
            final(self).wf(),
            final(self).history() == old(self).history().flushed(r),
            final(self).counters() == old(self).counters(),
    {
        self.writer.flush()
    }

    fn write_track(&mut self, track: TrackDescriptor) -> (r: Result<(), W::Error>)
        requires
            old(self).wf(),
        ensures
            wrote(
                *old(self),
                *final(self),
                r,
                model::track_packet(SEQUENCE_ID, track.deep_view()),
            ),
            final(self).counters() == old(self).counters(),
    {
        self.write_packet(
            TracePacket {
                timestamp: None,
                trusted_pid: None,
                trusted_packet_sequence_id: Some(self.sequence_id),
                sequence_flags: None,
                interned_data: None,
                data: Some(PacketData::TrackDescriptor(track)),
            },
        )
    }

    fn write_event(&mut self, timestamp_ns: u64, event: TrackEvent) -> (r: Result<(), W::Error>)
        requires
            old(self).wf(),
        ensures
            wrote(
                *old(self),
                *final(self),
                r,
                model::event_packet(SEQUENCE_ID, timestamp_ns, event.deep_view()),
            ),
            final(self).counters() == old(self).counters(),
    {
        self.write_packet(
            TracePacket {
                timestamp: Some(timestamp_ns),
                trusted_pid: None,
                trusted_packet_sequence_id: Some(self.sequence_id),
                sequence_flags: None,
                interned_data: None,
                data: Some(PacketData::TrackEvent(event)),
            },
        )
    }

    fn write_counter(&mut self, track_uuid: u64, value: CounterValue, timestamp_ns: u64) -> (r:
        Result<(), W::Error>)
        requires
            old(self).wf(),
        ensures
            wrote(
                *old(self),
                *final(self),
                r,
                model::counter_value_packet(SEQUENCE_ID, track_uuid, value, timestamp_ns),
            ),
            final(self).counters() == old(self).counters(),
    {
        let debug_annotations: Vec<DebugAnnotation> = Vec::new();
        assert(debug_annotations.deep_view() =~= seq![]);
        self.write_event(
            timestamp_ns,
            TrackEvent {
                name: None,
                track_uuid: Some(track_uuid),
                event_type: Some(TrackEventType::Counter),
                counter_value: Some(value),
                debug_annotations,
            },
        )
    }

    fn write_interned(&mut self, interned_data: InternedData, flags: SequenceFlags) -> (r: Result<
        (),
        W::Error,
    >)
        requires
            old(self).wf(),
            old(self).counters().frames + interned_data.frames@.len() <= u64::MAX,
            old(self).counters().functions + interned_data.function_names@.len() <= u64::MAX,
        ensures
            wrote(
                *old(self),
                *final(self),
                r,
                model::interned_packet(SEQUENCE_ID, interned_data.deep_view(), flags),
            ),
            final(self).counters() == (Counters {
                frames: (old(self).counters().frames + interned_data.frames@.len()) as u64,
                functions: (old(self).counters().functions
                    + interned_data.function_names@.len()) as u64,
                ..old(self).counters()
            }),
    {
        self.frame_counter = self.frame_counter + interned_data.frames.len() as u64;
        self.function_counter = self.function_counter + interned_data.function_names.len() as u64;
        self.write_packet(
            TracePacket {
                timestamp: None,
                trusted_pid: None,
                trusted_packet_sequence_id: Some(self.sequence_id),
                sequence_flags: Some(flags),
                interned_data: Some(interned_data),
                data: None,
            },
        )
    }
}

} // verus!
