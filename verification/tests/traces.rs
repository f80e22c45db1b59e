use manytrace::converter::interned_data_iter::{find_frame, find_text};
use manytrace::converter::tracks::TrackWriter;
use manytrace::converter::{PerfettoConverter, ProfilerConverter};
use manytrace::perfetto::model::{
    CounterValue, CpuMode, DebugValue, PacketData, SequenceFlags, TracePacket, TrackDescriptor,
    TrackEvent, TrackEventType,
};
use manytrace::perfetto::{
    create_callstack_interned_data, create_callstack_interned_next, create_debug_annotation,
    PacketBuffer, PerfettoStreamWriter,
};
use manytrace::protocol::events::{
    Callstack, CompleteSpan, Counter, CpuMode as SampleMode, Frame, Instant, InternedData,
    InternedString, ProcessName, Sample, ThreadName, TraceInput,
};
use manytrace::protocol::Labels;

fn description(p: &TracePacket) -> &TrackDescriptor {
    match &p.data {
        Some(PacketData::TrackDescriptor(d)) => d,
        _ => panic!("no track"),
    }
}

fn event(p: &TracePacket) -> &TrackEvent {
    match &p.data {
        Some(PacketData::TrackEvent(e)) => e,
        _ => panic!("no event"),
    }
}

fn counter(name: &str, unit: Option<&str>) -> TraceInput {
    TraceInput::Counter(Counter {
        name: name.to_string(),
        value_bits: 2.5f64.to_bits(),
        timestamp: 40,
        tid: 3,
        pid: 2,
        labels: Labels::new(),
        unit: unit.map(|s| s.to_string()),
    })
}

fn ok<E>(r: Result<(), E>) {
    assert!(r.is_ok());
}

#[test]
fn counters_get_a_track_under_their_thread() {
    let mut converter = PerfettoConverter::new(PacketBuffer::new(100));
    ok(converter.convert_event(&counter("load", Some("%"))));
    ok(converter.convert_event(&counter("load", Some("%"))));
    let packets = converter.get_ref().packets();
    assert_eq!(packets.len(), 5);
    let process = description(&packets[0]);
    assert_eq!(process.uuid, Some(1000));
    assert_eq!(process.process.as_ref().unwrap().pid, Some(2));
    let thread = description(&packets[1]);
    assert_eq!(thread.uuid, Some(1001));
    assert_eq!(thread.parent_uuid, Some(1000));
    let track = description(&packets[2]);
    assert_eq!(track.parent_uuid, Some(1001));
    assert_eq!(track.name.as_deref(), Some("load"));
    assert_eq!(track.counter.as_ref().unwrap().unit_name.as_deref(), Some("%"));
    for p in &packets[3..] {
        let e = event(p);
        assert_eq!(e.event_type, Some(TrackEventType::Counter));
        assert_eq!(e.track_uuid, track.uuid);
        assert_eq!(e.counter_value, Some(CounterValue::Double(2.5f64.to_bits())));
        assert_eq!(p.timestamp, Some(40));
        assert_eq!(p.trusted_packet_sequence_id, Some(1));
    }
}

#[test]
fn spans_begin_and_end() {
    let mut labels = Labels::new();
    labels.record_i64("n", 5);
    let mut converter = PerfettoConverter::new(PacketBuffer::new(100));
    ok(converter.convert_event(&TraceInput::Span(CompleteSpan {
        name: "work".to_string(),
        start_timestamp: 10,
        end_timestamp: 20,
        tid: 3,
        pid: 2,
        labels,
    })));
    let packets = converter.get_ref().packets();
    assert_eq!(packets.len(), 4);
    let thread = description(&packets[1]);
    assert_eq!(thread.thread.as_ref().unwrap().tid, Some(3));
    assert_eq!(thread.parent_uuid, description(&packets[0]).uuid);
    let begin = event(&packets[2]);
    assert_eq!(begin.event_type, Some(TrackEventType::SliceBegin));
    assert_eq!(begin.name.as_deref(), Some("work"));
    assert_eq!(begin.track_uuid, thread.uuid);
    assert_eq!(begin.debug_annotations[0].name.as_deref(), Some("n"));
    assert!(matches!(begin.debug_annotations[0].value, Some(DebugValue::Int(5))));
    assert_eq!(packets[2].timestamp, Some(10));
    assert_eq!(event(&packets[3]).event_type, Some(TrackEventType::SliceEnd));
    assert_eq!(packets[3].timestamp, Some(20));
}

#[test]
fn instants_and_names_use_the_same_tracks() {
    let mut converter = PerfettoConverter::new(PacketBuffer::new(100));
    ok(converter.convert_event(&TraceInput::ProcessName(ProcessName {
        name: "prog".to_string(),
        pid: 2,
    })));
    ok(converter.convert_event(&TraceInput::ThreadName(ThreadName {
        name: "worker".to_string(),
        tid: 3,
        pid: 2,
    })));
    let before = converter.get_ref().packets().len();
    ok(converter.convert_archived_event(&TraceInput::Instant(Instant {
        name: "tick".to_string(),
        timestamp: 7,
        tid: 3,
        pid: 2,
        labels: Labels::new(),
    })));
    ok(converter.flush());
    let packets = converter.get_ref().packets();
    assert_eq!(packets.len(), before + 1);
    assert_eq!(
        description(&packets[0]).process.as_ref().unwrap().process_name.as_deref(),
        Some("prog")
    );
    let instant = event(&packets[before]);
    assert_eq!(instant.event_type, Some(TrackEventType::Instant));
    assert_eq!(instant.name.as_deref(), Some("tick"));
}

#[test]
fn archived_events_convert_like_plain_ones() {
    for limit in 0..6usize {
        let mut plain = PerfettoConverter::new(PacketBuffer::new(limit));
        let mut archived = PerfettoConverter::new(PacketBuffer::new(limit));
        for event in [counter("load", Some("%")), counter("load", None), counter("idle", None)] {
            assert_eq!(
                plain.convert_event(&event).is_ok(),
                archived.convert_archived_event(&event).is_ok()
            );
        }
        let (a, b) = (plain.get_ref().packets(), archived.get_ref().packets());
        assert_eq!(a.len(), b.len());
        for (p, q) in a.iter().zip(b.iter()) {
            assert_eq!(p.timestamp, q.timestamp);
            match (&p.data, &q.data) {
                (Some(PacketData::TrackDescriptor(d)), Some(PacketData::TrackDescriptor(e))) => {
                    assert_eq!((d.uuid, d.parent_uuid), (e.uuid, e.parent_uuid));
                    assert_eq!(d.name, e.name);
                }
                (Some(PacketData::TrackEvent(d)), Some(PacketData::TrackEvent(e))) => {
                    assert_eq!(d.track_uuid, e.track_uuid);
                    assert_eq!(d.name, e.name);
                }
                _ => panic!("different packets"),
            }
        }
    }
}

#[test]
fn a_thread_keeps_its_track() {
    let mut writer = TrackWriter::new(PacketBuffer::new(100));
    let uuid = match writer.ensure_thread_track(2, 3, Some("worker")) {
        Ok(uuid) => uuid,
        Err(_) => panic!("refused"),
    };
    for name in [None, Some("other"), Some("worker")] {
        assert!(matches!(writer.ensure_thread_track(2, 3, name), Ok(u) if u == uuid));
    }
    let other = match writer.ensure_thread_track(2, 4, None) {
        Ok(uuid) => uuid,
        Err(_) => panic!("refused"),
    };
    assert_ne!(uuid, other);
    let packets = writer.get_ref().packets();
    assert_eq!(packets.len(), 3);
    let process = description(&packets[0]).uuid;
    assert_eq!(description(&packets[1]).uuid, Some(uuid));
    assert_eq!(description(&packets[1]).parent_uuid, process);
    assert_eq!(description(&packets[2]).parent_uuid, process);

    let mut full = TrackWriter::new(PacketBuffer::new(1));
    assert!(full.ensure_thread_track(2, 3, None).is_err());
    assert_eq!(full.get_ref().packets().len(), 1);
}

fn stack(iid: u64) -> TraceInput {
    TraceInput::InternedData(InternedData {
        function_names: vec![
            InternedString { iid: 0, str: "main".to_string() },
            InternedString { iid: 1, str: "leaf".to_string() },
        ],
        frames: vec![
            Frame { iid: 0, function_name_id: 0, mapping_id: 1, rel_pc: 100 },
            Frame { iid: 1, function_name_id: 1, mapping_id: 1, rel_pc: 200 },
        ],
        callstacks: vec![Callstack { iid, frame_ids: vec![0, 1] }],
        mappings: vec![],
        build_ids: vec![],
    })
}

#[test]
fn samples_refer_to_interned_callstacks() {
    let mut converter = ProfilerConverter::new(PacketBuffer::new(100));
    ok(converter.convert_event(&stack(4)));
    ok(converter.convert_event(&stack(5)));
    ok(converter.convert_event(&TraceInput::Sample(Sample {
        cpu: 1,
        pid: 2,
        tid: 3,
        timestamp: 50,
        callstack_iid: 5,
        cpu_mode: SampleMode::Kernel,
    })));
    ok(converter.finish());
    let packets = converter.get_ref().packets();
    let first = packets[0].interned_data.as_ref().unwrap();
    assert_eq!(packets[0].sequence_flags, Some(SequenceFlags::IncrementalStateCleared));
    assert_eq!(first.function_names.len(), 3);
    assert_eq!(first.function_names[0].str.as_deref(), Some(&b"<unknown>"[..]));
    assert_eq!(first.callstacks[0].frame_ids, vec![0, 1]);
    assert_eq!(first.mappings.len(), 1);
    let next = packets[1].interned_data.as_ref().unwrap();
    assert_eq!(packets[1].sequence_flags, Some(SequenceFlags::IncrementalStateCleared));
    assert_eq!(next.callstacks[0].iid, Some(5));
    assert_eq!(next.callstacks[0].frame_ids, vec![0, 1]);
    assert_eq!(next.function_names[2].str.as_deref(), Some(&b"leaf"[..]));
    match &packets[packets.len() - 1].data {
        Some(PacketData::PerfSample(s)) => {
            assert_eq!(s.callstack_iid, Some(5));
            assert_eq!(s.cpu, Some(1));
            assert_eq!(s.cpu_mode, Some(CpuMode::ModeKernel));
        }
        _ => panic!("no sample"),
    }
}

#[test]
fn names_are_written_after_their_tracks() {
    let mut converter = ProfilerConverter::new(PacketBuffer::new(100));
    ok(converter.convert_event(&TraceInput::ThreadName(ThreadName {
        name: "worker".to_string(),
        tid: 3,
        pid: 2,
    })));
    let packets = converter.get_ref().packets();
    assert_eq!(packets.len(), 3);
    assert_eq!(description(&packets[1]).thread.as_ref().unwrap().thread_name, None);
    let last = description(&packets[2]);
    assert_eq!(last.uuid, Some(1002));
    assert_eq!(last.parent_uuid, Some(1000));
    assert_eq!(last.thread.as_ref().unwrap().thread_name.as_deref(), Some("worker"));
    ok(converter.convert_event(&TraceInput::ProcessName(ProcessName {
        name: "prog".to_string(),
        pid: 2,
    })));
    assert_eq!(converter.get_ref().packets().len(), 4);
}

#[test]
fn a_full_sink_is_reported() {
    let mut converter = PerfettoConverter::new(PacketBuffer::new(1));
    assert!(converter.convert_event(&counter("load", None)).is_err());
    assert_eq!(converter.get_ref().packets().len(), 1);
}

#[test]
fn writers_number_their_tracks() {
    let mut writer = PerfettoStreamWriter::new(PacketBuffer::new(100));
    match writer.write_process_descriptor(2, Some("prog".to_string())) {
        Ok(uuid) => assert_eq!(uuid, 1000),
        Err(_) => panic!("refused"),
    }
    match writer.write_thread_descriptor(2, 3, None, 1000) {
        Ok(uuid) => assert_eq!(uuid, 1001),
        Err(_) => panic!("refused"),
    }
    match writer.write_counter_track("c".to_string(), None, 1000) {
        Ok(uuid) => assert_eq!(uuid, 1002),
        Err(_) => panic!("refused"),
    }
    ok(writer.write_callstack_interned_data(4, vec![("main", "prog", 1), ("leaf", "lib", 2)]));
    ok(writer.write_callstack_interned_data(5, vec![("main", "prog", 1)]));
    ok(writer.write_counter_value(1002, -4, 9));
    ok(writer.write_instant_event(
        1001,
        "i".to_string(),
        10,
        vec![create_debug_annotation("b".to_string(), DebugValue::Bool(true))],
    ));
    ok(writer.flush());
    let packets = writer.get_ref().packets();
    assert_eq!(packets[3].sequence_flags, Some(SequenceFlags::IncrementalStateCleared));
    assert_eq!(packets[4].sequence_flags, Some(SequenceFlags::NeedsIncrementalState));
    let next = packets[4].interned_data.as_ref().unwrap();
    assert_eq!(next.callstacks[0].frame_ids, vec![2]);
    assert_eq!(next.frames[0].function_name_id, next.function_names[0].iid);
    assert_eq!(event(&packets[5]).counter_value, Some(CounterValue::Int(-4)));
    assert!(matches!(
        event(&packets[6]).debug_annotations[0].value,
        Some(DebugValue::Bool(true))
    ));
}

#[test]
fn callstacks_are_numbered_on() {
    let first = create_callstack_interned_data(7, vec![("main", "prog", 1), ("leaf", "lib", 2)]);
    assert_eq!(first.callstacks[0].iid, Some(7));
    assert_eq!(first.frames[1].function_name_id, Some(2));
    assert_eq!(first.function_names[2].str.as_deref(), Some(&b"leaf"[..]));
    let next = create_callstack_interned_next(8, 2, vec![("other", "prog", 3)]);
    assert_eq!(next.frames[0].iid, Some(2));
    assert_eq!(next.frames[0].function_name_id, next.function_names[0].iid);
    assert_eq!(next.frames[0].rel_pc, Some(3));
}

#[test]
fn interned_entries_are_found_by_number() {
    if let TraceInput::InternedData(data) = stack(1) {
        assert_eq!(find_frame(&data.frames, 1).unwrap().rel_pc, 200);
        assert!(find_frame(&data.frames, 2).is_none());
        assert_eq!(find_text(&data.function_names, 0).unwrap().str, "main");
        assert!(find_text(&data.function_names, 9).is_none());
    } else {
        panic!("no data");
    }
}
