//! The packets of a trace, as far as they are used here.
//!
//! A floating-point number is carried by its 64-bit pattern. The types whose names end in `View`
//! say what a packet holds, with sequences in place of strings and vectors.

use vstd::prelude::*;

verus! {

/// One packet of a trace.
pub struct TracePacket {
    pub timestamp: Option<u64>,
    pub trusted_pid: Option<i32>,
    pub trusted_packet_sequence_id: Option<u32>,
    pub sequence_flags: Option<SequenceFlags>,
    pub interned_data: Option<InternedData>,
    pub data: Option<PacketData>,
}

/// What a packet says of the interned data that it refers to.
#[derive(Debug, Clone, Copy, PartialEq, Eq, Structural)]
pub enum SequenceFlags {
    /// All interned data of earlier packets is void.
    IncrementalStateCleared,
    /// The packet builds on the interned data of earlier ones.
    NeedsIncrementalState,
}

/// The payload of a packet.
pub enum PacketData {
    TrackDescriptor(TrackDescriptor),
    TrackEvent(TrackEvent),
    PerfSample(PerfSample),
}

/// A track that events refer to.
pub struct TrackDescriptor {
    pub uuid: Option<u64>,
    pub parent_uuid: Option<u64>,
    pub name: Option<String>,
    pub process: Option<ProcessDescriptor>,
    pub thread: Option<ThreadDescriptor>,
    pub counter: Option<CounterDescriptor>,
}

pub struct ProcessDescriptor {
    pub pid: Option<i32>,
    pub process_name: Option<String>,
}

pub struct ThreadDescriptor {
    pub pid: Option<i32>,
    pub tid: Option<i32>,
    pub thread_name: Option<String>,
}

pub struct CounterDescriptor {
    pub unit_name: Option<String>,
}

/// Kinds of events on a track.
#[derive(Debug, Clone, Copy, PartialEq, Eq, Structural)]
pub enum TrackEventType {
    SliceBegin,
    SliceEnd,
    Instant,
    Counter,
}

/// The value of a counter event.
#[derive(Debug, Clone, Copy, PartialEq, Eq, Structural)]
pub enum CounterValue {
    Int(i64),
    /// The bit pattern of a floating-point number.
    Double(u64),
}

/// An event on a track.
pub struct TrackEvent {
    pub name: Option<String>,
    pub track_uuid: Option<u64>,
    pub event_type: Option<TrackEventType>,
    pub counter_value: Option<CounterValue>,
    pub debug_annotations: Vec<DebugAnnotation>,
}

/// A named value attached to an event.
pub struct DebugAnnotation {
    pub name: Option<String>,
    pub value: Option<DebugValue>,
}

/// The value of an annotation.
pub enum DebugValue {
    String(String),
    Int(i64),
    /// The bit pattern of a floating-point number.
    Double(u64),
    Bool(bool),
}

/// In which mode a processor was when a sample was taken.
#[derive(Debug, Clone, Copy, PartialEq, Eq, Structural)]
pub enum CpuMode {
    ModeUnknown,
    ModeKernel,
    ModeUser,
}

/// A sample of a call stack.
#[derive(Debug, Clone, Copy, PartialEq, Eq, Structural)]
pub struct PerfSample {
    pub cpu: Option<u32>,
    pub pid: Option<u32>,
    pub tid: Option<u32>,
    pub callstack_iid: Option<u64>,
    pub cpu_mode: Option<CpuMode>,
    pub timebase_count: Option<u64>,
}

/// Data that later packets refer to by number.
pub struct InternedData {
    pub function_names: Vec<InternedString>,
    pub frames: Vec<Frame>,
    pub callstacks: Vec<Callstack>,
    pub mappings: Vec<Mapping>,
    pub build_ids: Vec<InternedString>,
}

pub struct InternedString {
    pub iid: Option<u64>,
    pub str: Option<Vec<u8>>,
}

#[derive(Debug, Clone, Copy, PartialEq, Eq, Structural)]
pub struct Frame {
    pub iid: Option<u64>,
    pub function_name_id: Option<u64>,
    pub mapping_id: Option<u64>,
    pub rel_pc: Option<u64>,
}

pub struct Callstack {
    pub iid: Option<u64>,
    pub frame_ids: Vec<u64>,
}

pub struct Mapping {
    pub iid: Option<u64>,
    pub build_id: Option<u64>,
    pub exact_offset: Option<u64>,
    pub start_offset: Option<u64>,
    pub start: Option<u64>,
    pub end: Option<u64>,
    pub load_bias: Option<u64>,
    pub path_string_ids: Vec<u64>,
}

#[verifier::ext_equal]
pub struct TracePacketView {
    pub timestamp: Option<u64>,
    pub trusted_pid: Option<i32>,
    pub trusted_packet_sequence_id: Option<u32>,
    pub sequence_flags: Option<SequenceFlags>,
    pub interned_data: Option<InternedDataView>,
    pub data: Option<PacketDataView>,
}

#[verifier::ext_equal]
pub enum PacketDataView {
    TrackDescriptor(TrackDescriptorView),
    TrackEvent(TrackEventView),
    PerfSample(PerfSample),
}

#[verifier::ext_equal]
pub struct TrackDescriptorView {
    pub uuid: Option<u64>,
    pub parent_uuid: Option<u64>,
    pub name: Option<Seq<char>>,
    pub process: Option<ProcessDescriptorView>,
    pub thread: Option<ThreadDescriptorView>,
    pub counter: Option<CounterDescriptorView>,
}

#[verifier::ext_equal]
pub struct ProcessDescriptorView {
    pub pid: Option<i32>,
    pub process_name: Option<Seq<char>>,
}

#[verifier::ext_equal]
pub struct ThreadDescriptorView {
    pub pid: Option<i32>,
    pub tid: Option<i32>,
    pub thread_name: Option<Seq<char>>,
}

#[verifier::ext_equal]
pub struct CounterDescriptorView {
    pub unit_name: Option<Seq<char>>,
}

#[verifier::ext_equal]
pub struct TrackEventView {
    pub name: Option<Seq<char>>,
    pub track_uuid: Option<u64>,
    pub event_type: Option<TrackEventType>,
    pub counter_value: Option<CounterValue>,
    pub debug_annotations: Seq<DebugAnnotationView>,
}

#[verifier::ext_equal]
pub struct DebugAnnotationView {
    pub name: Option<Seq<char>>,
    pub value: Option<DebugValueView>,
}

#[verifier::ext_equal]
pub enum DebugValueView {
    String(Seq<char>),
    Int(i64),
    Double(u64),
    Bool(bool),
}

#[verifier::ext_equal]
pub struct InternedDataView {
    pub function_names: Seq<InternedStringView>,
    pub frames: Seq<Frame>,
    pub callstacks: Seq<CallstackView>,
    pub mappings: Seq<MappingView>,
    pub build_ids: Seq<InternedStringView>,
}

#[verifier::ext_equal]
pub struct InternedStringView {
    pub iid: Option<u64>,
    pub str: Option<Seq<u8>>,
}

#[verifier::ext_equal]
pub struct CallstackView {
    pub iid: Option<u64>,
    pub frame_ids: Seq<u64>,
}

#[verifier::ext_equal]
pub struct MappingView {
    pub iid: Option<u64>,
    pub build_id: Option<u64>,
    pub exact_offset: Option<u64>,
    pub start_offset: Option<u64>,
    pub start: Option<u64>,
    pub end: Option<u64>,
    pub load_bias: Option<u64>,
    pub path_string_ids: Seq<u64>,
}

impl DeepView for TracePacket {
    type V = TracePacketView;

    open spec fn deep_view(&self) -> TracePacketView {
        TracePacketView {
            timestamp: self.timestamp,
            trusted_pid: self.trusted_pid,
            trusted_packet_sequence_id: self.trusted_packet_sequence_id,
            sequence_flags: self.sequence_flags,
            interned_data: self.interned_data.deep_view(),
            data: self.data.deep_view(),
        }
    }
}

impl DeepView for PacketData {
    type V = PacketDataView;

    open spec fn deep_view(&self) -> PacketDataView {
        match self {
            PacketData::TrackDescriptor(d) => PacketDataView::TrackDescriptor(d.deep_view()),
            PacketData::TrackEvent(e) => PacketDataView::TrackEvent(e.deep_view()),
            PacketData::PerfSample(s) => PacketDataView::PerfSample(*s),
        }
    }
}

impl DeepView for TrackDescriptor {
    type V = TrackDescriptorView;

    open spec fn deep_view(&self) -> TrackDescriptorView {
        TrackDescriptorView {
            uuid: self.uuid,
            parent_uuid: self.parent_uuid,
            name: self.name.deep_view(),
            process: self.process.deep_view(),
            thread: self.thread.deep_view(),
            counter: self.counter.deep_view(),
        }
    }
}

impl DeepView for ProcessDescriptor {
    type V = ProcessDescriptorView;

    open spec fn deep_view(&self) -> ProcessDescriptorView {
        ProcessDescriptorView { pid: self.pid, process_name: self.process_name.deep_view() }
    }
}

impl DeepView for ThreadDescriptor {
    type V = ThreadDescriptorView;

    open spec fn deep_view(&self) -> ThreadDescriptorView {
        ThreadDescriptorView {
            pid: self.pid,
            tid: self.tid,
            thread_name: self.thread_name.deep_view(),
        }
    }
}

impl DeepView for CounterDescriptor {
    type V = CounterDescriptorView;

    open spec fn deep_view(&self) -> CounterDescriptorView {
        CounterDescriptorView { unit_name: self.unit_name.deep_view() }
    }
}

impl DeepView for TrackEvent {
    type V = TrackEventView;

    open spec fn deep_view(&self) -> TrackEventView {
        TrackEventView {
            name: self.name.deep_view(),
            track_uuid: self.track_uuid,
            event_type: self.event_type,
            counter_value: self.counter_value,
            debug_annotations: self.debug_annotations.deep_view(),
        }
    }
}

impl DeepView for DebugAnnotation {
    type V = DebugAnnotationView;

    open spec fn deep_view(&self) -> DebugAnnotationView {
        DebugAnnotationView { name: self.name.deep_view(), value: self.value.deep_view() }
    }
}

impl DeepView for DebugValue {
    type V = DebugValueView;

    open spec fn deep_view(&self) -> DebugValueView {
        match self {
            DebugValue::String(s) => DebugValueView::String(s@),
            DebugValue::Int(i) => DebugValueView::Int(*i),
            DebugValue::Double(d) => DebugValueView::Double(*d),
            DebugValue::Bool(b) => DebugValueView::Bool(*b),
        }
    }
}

impl DeepView for InternedData {
    type V = InternedDataView;

    open spec fn deep_view(&self) -> InternedDataView {
        InternedDataView {
            function_names: self.function_names.deep_view(),
            frames: self.frames@,
            callstacks: self.callstacks.deep_view(),
            mappings: self.mappings.deep_view(),
            build_ids: self.build_ids.deep_view(),
        }
    }
}

impl DeepView for InternedString {
    type V = InternedStringView;

    open spec fn deep_view(&self) -> InternedStringView {
        InternedStringView {
            iid: self.iid,
            str: match self.str {
                Some(s) => Some(s@),
                None => None,
            },
        }
    }
}

impl DeepView for Callstack {
    type V = CallstackView;

    open spec fn deep_view(&self) -> CallstackView {
        CallstackView { iid: self.iid, frame_ids: self.frame_ids@ }
    }
}

impl DeepView for Mapping {
    type V = MappingView;

    open spec fn deep_view(&self) -> MappingView {
        MappingView {
            iid: self.iid,
            build_id: self.build_id,
            exact_offset: self.exact_offset,
            start_offset: self.start_offset,
            start: self.start,
            end: self.end,
            load_bias: self.load_bias,
            path_string_ids: self.path_string_ids@,
        }
    }
}

/// An annotation with the name `name` and the value `value`.
pub fn create_debug_annotation(name: String, value: DebugValue) -> (a: DebugAnnotation)
    ensures
        a.deep_view() == (DebugAnnotationView {
            name: Some(name@),
            value: Some(value.deep_view()),
        }),
{
    DebugAnnotation { name: Some(name), value: Some(value) }
}

/// A packet without content.
pub open spec fn empty_packet() -> TracePacketView {
    TracePacketView {
        timestamp: None,
        trusted_pid: None,
        trusted_packet_sequence_id: None,
        sequence_flags: None,
        interned_data: None,
        data: None,
    }
}

/// A track without content.
pub open spec fn empty_track() -> TrackDescriptorView {
    TrackDescriptorView {
        uuid: None,
        parent_uuid: None,
        name: None,
        process: None,
        thread: None,
        counter: None,
    }
}

/// An event without content.
pub open spec fn empty_event() -> TrackEventView {
    TrackEventView {
        name: None,
        track_uuid: None,
        event_type: None,
        counter_value: None,
        debug_annotations: seq![],
    }
}

/// A packet of the sequence `sequence_id` that describes a track.
pub open spec fn track_packet(sequence_id: u32, track: TrackDescriptorView) -> TracePacketView {
    TracePacketView {
        trusted_packet_sequence_id: Some(sequence_id),
        data: Some(PacketDataView::TrackDescriptor(track)),
        ..empty_packet()
    }
}

/// A packet of the sequence `sequence_id` with an event at `timestamp`.
pub open spec fn event_packet(
    sequence_id: u32,
    timestamp: u64,
    event: TrackEventView,
) -> TracePacketView {
    TracePacketView {
        timestamp: Some(timestamp),
        trusted_packet_sequence_id: Some(sequence_id),
        data: Some(PacketDataView::TrackEvent(event)),
        ..empty_packet()
    }
}

/// The packet that describes the thread `tid` of the process `pid`.
pub open spec fn thread_packet(
    sequence_id: u32,
    uuid: u64,
    pid: i32,
    tid: i32,
    name: Option<Seq<char>>,
    parent: u64,
) -> TracePacketView {
    track_packet(
        sequence_id,
        TrackDescriptorView {
            uuid: Some(uuid),
            parent_uuid: Some(parent),
            thread: Some(
                ThreadDescriptorView { pid: Some(pid), tid: Some(tid), thread_name: name },
            ),
            ..empty_track()
        },
    )
}

/// The packet that describes the process `pid`.
pub open spec fn process_packet(
    sequence_id: u32,
    uuid: u64,
    pid: i32,
    name: Option<Seq<char>>,
) -> TracePacketView {
    track_packet(
        sequence_id,
        TrackDescriptorView {
            uuid: Some(uuid),
            process: Some(ProcessDescriptorView { pid: Some(pid), process_name: name }),
            ..empty_track()
        },
    )
}

/// The packet that describes a counter below the track `parent`.
pub open spec fn counter_track_packet(
    sequence_id: u32,
    uuid: u64,
    name: Seq<char>,
    unit: Option<Seq<char>>,
    parent: u64,
) -> TracePacketView {
    track_packet(
        sequence_id,
        TrackDescriptorView {
            uuid: Some(uuid),
            parent_uuid: Some(parent),
            name: Some(name),
            counter: Some(CounterDescriptorView { unit_name: unit }),
            ..empty_track()
        },
    )
}

/// The packet that begins a slice.
pub open spec fn slice_begin_packet(
    sequence_id: u32,
    track: u64,
    name: Seq<char>,
    timestamp: u64,
    annotations: Seq<DebugAnnotationView>,
) -> TracePacketView {
    event_packet(
        sequence_id,
        timestamp,
        TrackEventView {
            name: Some(name),
            track_uuid: Some(track),
            event_type: Some(TrackEventType::SliceBegin),
            debug_annotations: annotations,
            ..empty_event()
        },
    )
}

/// The packet that ends the slice that was begun last on a track.
pub open spec fn slice_end_packet(sequence_id: u32, track: u64, timestamp: u64) -> TracePacketView {
    event_packet(
        sequence_id,
        timestamp,
        TrackEventView {
            track_uuid: Some(track),
            event_type: Some(TrackEventType::SliceEnd),
            ..empty_event()
        },
    )
}

/// The packet of an event without duration.
pub open spec fn instant_packet(
    sequence_id: u32,
    track: u64,
    name: Seq<char>,
    timestamp: u64,
    annotations: Seq<DebugAnnotationView>,
) -> TracePacketView {
    event_packet(
        sequence_id,
        timestamp,
        TrackEventView {
            name: Some(name),
            track_uuid: Some(track),
            event_type: Some(TrackEventType::Instant),
            debug_annotations: annotations,
            ..empty_event()
        },
    )
}

/// The packet with a value of a counter.
pub open spec fn counter_value_packet(
    sequence_id: u32,
    track: u64,
    value: CounterValue,
    timestamp: u64,
) -> TracePacketView {
    event_packet(
        sequence_id,
        timestamp,
        TrackEventView {
            track_uuid: Some(track),
            event_type: Some(TrackEventType::Counter),
            counter_value: Some(value),
            ..empty_event()
        },
    )
}

/// The packet that carries interned data.
pub open spec fn interned_packet(
    sequence_id: u32,
    data: InternedDataView,
    flags: SequenceFlags,
) -> TracePacketView {
    TracePacketView {
        trusted_packet_sequence_id: Some(sequence_id),
        interned_data: Some(data),
        sequence_flags: Some(flags),
        ..empty_packet()
    }
}

/// The packet of a sample of a call stack.
pub open spec fn sample_packet(
    sequence_id: u32,
    cpu: u32,
    pid: u32,
    tid: u32,
    timestamp: u64,
    callstack_iid: u64,
    cpu_mode: CpuMode,
) -> TracePacketView {
    TracePacketView {
        timestamp: Some(timestamp),
        trusted_pid: Some(pid as i32),
        trusted_packet_sequence_id: Some(sequence_id),
        data: Some(
            PacketDataView::PerfSample(
                PerfSample {
                    cpu: Some(cpu),
                    pid: Some(pid),
                    tid: Some(tid),
                    callstack_iid: Some(callstack_iid),
                    cpu_mode: Some(cpu_mode),
                    timebase_count: Some(1),
                },
            ),
        ),
        ..empty_packet()
    }
}

} // verus!
