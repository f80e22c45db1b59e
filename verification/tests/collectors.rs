use manytrace::bpf::config::{
    default_cpu_util_frequency, default_debug_syms, default_map_files, default_sample_freq,
    default_user_samples, let_through, Component, RoundStep, Wanted,
};
use manytrace::bpf::cpuutil::{CpuEvent, CpuUtil};
use manytrace::bpf::names::base_name;
use manytrace::bpf::nettrack::{create_counters, CounterIds, NetEvent, NetStats, NetTrack};
use manytrace::bpf::profiler::{
    stack_frames, Callstacks, PerfEvent, Profiler, ProfilerStep,
};
use manytrace::bpf::recorder::{reported_quantity, Recorder};
use manytrace::bpf::stream::{
    Message, MessageBuffer, Quantity, StreamCounter, StreamEvent, StreamInstant, Track, TrackId,
    TrackType,
};
use manytrace::bpf::threadtrack::{ProcEntry, TaskEntry, ThreadEvent, ThreadTracker};
use manytrace::bpf::{
    BpfConfig, BpfConsumer, BpfError, CpuUtilConfig, ProfilerConfig, SchedTraceConfig, ThreadTrackerConfig,
};
use manytrace::protocol::events::{CpuMode, TraceInput};

fn strings(list: &[&str]) -> Vec<String> {
    list.iter().map(|s| s.to_string()).collect()
}

fn track(name: &str, track_type: TrackType) -> Message {
    Message::Event(StreamEvent::Track(Track { name: name.to_string(), track_type, parent: None }))
}

#[test]
fn test_process_filtering_requires_threadtrack() {
    let config = BpfConfig {
        cpu_util: Some(CpuUtilConfig {
            filter_process: strings(&["test"]),
            ..CpuUtilConfig::default()
        }),
        ..BpfConfig::default()
    };
    let result = config.build();

    assert!(result.is_err());
    if let Err(e) = result {
        assert!(e.message().contains("Thread tracker must be enabled"));
    }
}

#[test]
fn test_process_filtering_config() {
    let config = BpfConfig {
        thread_tracker: Some(ThreadTrackerConfig {}),
        cpu_util: Some(CpuUtilConfig {
            filter_process: strings(&["chrome", "firefox"]),
            ..CpuUtilConfig::default()
        }),
        profiler: Some(ProfilerConfig {
            filter_process: strings(&["node"]),
            ..ProfilerConfig::default()
        }),
        filter_process: strings(&["global_filter"]),
        ..BpfConfig::default()
    };
    assert!(config.thread_tracker.is_some());
    assert!(config.cpu_util.is_some());
    assert!(config.profiler.is_some());
    assert_eq!(config.filter_process, vec!["global_filter"]);
    let cpu_config = config.cpu_util.as_ref().unwrap();
    assert_eq!(cpu_config.filter_process, vec!["chrome", "firefox"]);
    let profiler_config = config.profiler.as_ref().unwrap();
    assert_eq!(profiler_config.filter_process, vec!["node"]);

    match config.build() {
        Ok(object) => {
            assert_eq!(object.cpuutils.as_ref().unwrap().filter_process, vec!["global_filter"]);
            assert_eq!(object.profiler.as_ref().unwrap().filter_process, vec!["global_filter"]);
            assert!(object.cpuutil_filters.contains("global_filter"));
            assert!(!object.cpuutil_filters.contains("chrome"));
            assert!(object.wanted("/usr/bin/global_filter").cpuutil);
            assert!(!object.wanted("global_filter").schedtrace);
            assert!(!object.wanted("chrome").profiler);
        }
        Err(_) => panic!("refused"),
    }
}

#[test]
fn parts_keep_their_own_names_without_global_ones() {
    let config = BpfConfig {
        thread_tracker: Some(ThreadTrackerConfig {}),
        cpu_util: Some(CpuUtilConfig {
            filter_process: strings(&["a"]),
            ..CpuUtilConfig::default()
        }),
        schedtrace: Some(SchedTraceConfig {
            pid_filters: vec![7],
            filter_process: strings(&["b"]),
        }),
        ..BpfConfig::default()
    };
    match config.build() {
        Ok(object) => {
            let w = object.wanted("b");
            assert!(!w.cpuutil && !w.profiler && w.schedtrace);
            assert!(object.schedtrace.as_ref().unwrap().filter_enabled());
            let consumer = object.consumer();
            assert_eq!(
                consumer.consume(),
                vec![Component::ThreadTracker, Component::CpuUtil, Component::SchedTrace]
            );
            assert_eq!(consumer.poll(), consumer.consume());
            assert_eq!(
                consumer.set_up_order(),
                vec![Component::CpuUtil, Component::SchedTrace, Component::ThreadTracker]
            );
        }
        Err(_) => panic!("refused"),
    }
}

#[test]
fn threads_of_watched_processes_are_discovered() {
    let mut object = match BpfConfig::default().build() {
        Ok(o) => o,
        Err(_) => panic!("refused"),
    };
    let thread = || track("t", TrackType::Thread { tid: 8, pid: 7 });
    assert_eq!(object.observe(&thread(), false), None);
    assert_eq!(object.observe(&track("p", TrackType::Process { pid: 7 }), true), None);
    let found = object.observe(&thread(), false);
    assert_eq!(found, Some((8, 7)));
    let mut sink = MessageBuffer::new(usize::MAX, 0);
    assert_eq!(object.deliver(thread(), found, 55, &mut sink), 0);
    match &sink.messages()[1] {
        Message::Event(StreamEvent::Instant(i)) => {
            assert_eq!(i.name, "discovered");
            assert_eq!(i.timestamp, 55);
            assert_eq!(i.track_id, TrackId::Thread { tid: 8, pid: 7 });
        }
        _ => panic!("no instant"),
    }
    let mut sink = MessageBuffer::new(0, -4);
    assert_eq!(object.deliver(thread(), found, 55, &mut sink), -4);
    assert_eq!(sink.messages().len(), 1);
}

fn nothing() -> Wanted {
    Wanted { cpuutil: false, profiler: false, schedtrace: false }
}

#[test]
fn a_process_is_watched_where_a_part_wants_and_takes_it() {
    let only = |i: usize| Wanted { cpuutil: i == 0, profiler: i == 1, schedtrace: i == 2 };
    for i in 0..3 {
        for k in 0..3 {
            assert_eq!(let_through(only(i), only(k)), i == k);
        }
        assert!(!let_through(only(i), nothing()));
        assert!(!let_through(nothing(), only(i)));
    }
}

#[test]
fn threads_of_processes_that_are_taken_are_announced() {
    let config = || BpfConfig {
        thread_tracker: Some(ThreadTrackerConfig {}),
        cpu_util: Some(CpuUtilConfig {
            filter_process: strings(&["a"]),
            ..CpuUtilConfig::default()
        }),
        ..BpfConfig::default()
    };
    let process = || track("/bin/a", TrackType::Process { pid: 7 });
    let thread = || track("t", TrackType::Thread { tid: 8, pid: 7 });
    let taken = Wanted { cpuutil: true, ..nothing() };
    let elsewhere = Wanted { profiler: true, ..nothing() };
    for (took, announced) in [(taken, true), (nothing(), false), (elsewhere, false)] {
        let mut object = match config().build() {
            Ok(o) => o,
            Err(_) => panic!("refused"),
        };
        let mut sink = MessageBuffer::new(usize::MAX, 0);
        assert_eq!(object.pass_on(process(), took, 1, &mut sink), 0);
        assert_eq!(object.pass_on(thread(), nothing(), 55, &mut sink), 0);
        let messages = sink.messages();
        assert_eq!(messages.len(), if announced { 3 } else { 2 });
        assert!(matches!(&messages[0], Message::Event(StreamEvent::Track(t))
            if t.name == "/bin/a"));
        assert!(matches!(&messages[1], Message::Event(StreamEvent::Track(t)) if t.name == "t"));
        if announced {
            assert!(matches!(&messages[2], Message::Event(StreamEvent::Instant(i))
                if i.name == "discovered" && i.timestamp == 55));
        }
    }
    let mut object = match config().build() {
        Ok(o) => o,
        Err(_) => panic!("refused"),
    };
    let mut sink = MessageBuffer::new(1, 5);
    assert_eq!(object.pass_on(process(), taken, 1, &mut sink), 0);
    assert_eq!(object.pass_on(thread(), nothing(), 55, &mut sink), 5);
    assert_eq!(sink.messages().len(), 2);
}

#[test]
fn messages_are_passed_on_without_other_parts() {
    let mut object = match BpfConfig::default().build() {
        Ok(o) => o,
        Err(_) => panic!("refused"),
    };
    let mut sink = MessageBuffer::new(usize::MAX, 0);
    let all = Wanted { cpuutil: true, profiler: true, schedtrace: true };
    let process = track("a", TrackType::Process { pid: 7 });
    assert_eq!(object.pass_on(process, all, 1, &mut sink), 0);
    let thread = track("t", TrackType::Thread { tid: 8, pid: 7 });
    assert_eq!(object.pass_on(thread, all, 2, &mut sink), 0);
    assert_eq!(sink.messages().len(), 2);
}

#[test]
fn the_first_failure_ends_a_round() {
    let consumer = BpfConsumer {
        threadtrack: true,
        cpuutil: false,
        profiler: true,
        schedtrace: false,
        perfcounter: true,
    };
    let round = |fails: Option<Component>| {
        let mut taken = vec![];
        let mut last = Ok(());
        loop {
            match consumer.round_step(taken.len(), last) {
                RoundStep::Take(part) => {
                    taken.push(part);
                    last = if fails == Some(part) {
                        Err(BpfError::MapError("broken".to_string()))
                    } else {
                        Ok(())
                    };
                }
                RoundStep::Finished => return (taken, None),
                RoundStep::Failed(e) => return (taken, Some(e.message())),
            }
        }
    };
    assert_eq!(round(None), (consumer.consume(), None));
    assert_eq!(round(Some(Component::CpuUtil)), (consumer.consume(), None));
    let (taken, failure) = round(Some(Component::Profiler));
    assert_eq!(taken, vec![Component::ThreadTracker, Component::Profiler]);
    assert!(failure.unwrap().contains("broken"));
}

#[test]
fn sums_are_watched_for_room() {
    let mut net = NetTrack::new(ids(), false, 2);
    let mut sink = MessageBuffer::new(usize::MAX, 0);
    let most = NetEvent { tcp_send_bytes: u64::MAX, ..traffic(0, 1, 0) };
    assert!(net.has_room(&most));
    assert!(!net.has_room(&NetEvent { udp_send_bytes: 1, ..most }));
    assert!(net.has_room(&NetEvent { udp_recv_bytes: 1, ..most }));
    let one = NetEvent { tcp_send_bytes: 1, ..traffic(0, 1, 0) };
    assert_eq!(net.on_event(&one, &mut sink), 0);
    assert!(!net.has_room(&most));
    assert_eq!(net.on_event(&one, &mut sink), 0);
    assert!(net.has_room(&most));

    let event = |tid: u32, total_time_ns: u64| CpuEvent {
        tid,
        tgid: 1,
        total_time_ns,
        kernel_time_ns: 0,
        cpu: 0,
        timestamp: 0,
    };
    let mut util = CpuUtil::new(100, 0);
    util.on_event(&event(1, u64::MAX));
    assert!(!util.has_room(&event(1, 1)));
    assert!(util.has_room(&event(1, 0)));
    assert!(util.has_room(&event(2, u64::MAX)));
}

#[test]
fn a_round_of_all_processors_makes_one_report() {
    let mut net = NetTrack::new(ids(), false, 3);
    let mut sink = MessageBuffer::new(usize::MAX, 0);
    for cpu in 0..2 {
        assert_eq!(net.on_event(&traffic(cpu, 10, 5), &mut sink), 0);
        assert!(sink.messages().is_empty());
    }
    assert_eq!(net.on_event(&traffic(2, 12, 5), &mut sink), 0);
    assert_eq!(sink.messages().len(), 12);
    assert!(matches!(&sink.messages()[1], Message::Event(StreamEvent::Counter(c))
        if c.name == "tcp_send" && c.value == Quantity::Count(15) && c.timestamp == 12));
    for cpu in 0..3 {
        assert_eq!(net.on_event(&traffic(cpu, 20, 1), &mut sink), 0);
    }
    assert_eq!(sink.messages().len(), 18);
    assert!(matches!(&sink.messages()[12], Message::Event(StreamEvent::Counter(c))
        if c.name == "tcp_send" && c.value == Quantity::Count(3)));
}

fn counter_message(stream_id: Option<u64>, name: &str, track_id: TrackId) -> Message {
    let event = StreamEvent::Counter(StreamCounter {
        name: name.to_string(),
        value: Quantity::Count(3),
        timestamp: 40,
        track_id,
        unit: Some("ns".to_string()),
    });
    match stream_id {
        Some(stream_id) => Message::Stream { stream_id, event },
        None => Message::Event(event),
    }
}

#[test]
fn messages_become_events_of_a_trace() {
    let mut recorder = Recorder::new();
    let process = track("prog", TrackType::Process { pid: 2 });
    assert!(reported_quantity(&process).is_none());
    match recorder.record(process, 0) {
        Some(TraceInput::ProcessName(n)) => assert_eq!((n.name.as_str(), n.pid), ("prog", 2)),
        _ => panic!("no process"),
    }
    match recorder.record(track("worker", TrackType::Thread { tid: 3, pid: 2 }), 0) {
        Some(TraceInput::ThreadName(n)) => {
            assert_eq!((n.name.as_str(), n.tid, n.pid), ("worker", 3, 2))
        }
        _ => panic!("no thread"),
    }
    assert!(recorder.record(track("cpu", TrackType::Cpu { cpu: 1 }), 0).is_none());
    let thread = TrackId::Thread { tid: 3, pid: 2 };
    let message = counter_message(None, "time", thread);
    assert_eq!(reported_quantity(&message), Some(Quantity::Count(3)));
    match recorder.record(message, 3.0f64.to_bits()) {
        Some(TraceInput::Counter(c)) => {
            assert_eq!((c.name.as_str(), c.timestamp, c.tid, c.pid), ("time", 40, 3, 2));
            assert_eq!(f64::from_bits(c.value_bits), 3.0);
            assert_eq!(c.unit.as_deref(), Some("ns"));
            assert_eq!(c.labels.strings.len(), 0);
        }
        _ => panic!("no counter"),
    }
    let instant = StreamEvent::Instant(StreamInstant {
        name: "discovered".to_string(),
        timestamp: 9,
        track_id: thread,
    });
    match recorder.record(Message::Event(instant), 0) {
        Some(TraceInput::Instant(i)) => {
            assert_eq!((i.name.as_str(), i.timestamp, i.tid, i.pid), ("discovered", 9, 3, 2))
        }
        _ => panic!("no instant"),
    }
}

#[test]
fn counters_have_the_name_of_their_track() {
    let mut recorder = Recorder::new();
    let described = |stream_id: u64, name: &str| Message::Stream {
        stream_id,
        event: StreamEvent::Track(Track {
            name: name.to_string(),
            track_type: TrackType::Counter { id: 5, unit: None },
            parent: None,
        }),
    };
    let id = TrackId::Counter { id: 5 };
    let name = |recorder: &mut Recorder, stream_id: Option<u64>| {
        match recorder.record(counter_message(stream_id, "own", id), 0) {
            Some(TraceInput::Counter(c)) => {
                assert_eq!((c.tid, c.pid), (0, 0));
                c.name
            }
            _ => panic!("no counter"),
        }
    };
    assert_eq!(name(&mut recorder, Some(1)), "own");
    assert!(recorder.record(described(1, "first"), 0).is_none());
    assert!(recorder.record(described(2, "second"), 0).is_none());
    assert_eq!(name(&mut recorder, Some(1)), "first");
    assert_eq!(name(&mut recorder, Some(2)), "second");
    assert_eq!(name(&mut recorder, None), "own");
    assert!(recorder.record(described(1, "again"), 0).is_none());
    assert_eq!(name(&mut recorder, Some(1)), "again");
}

#[test]
fn streams_are_numbered_in_order() {
    let all = BpfConsumer {
        threadtrack: true,
        cpuutil: true,
        profiler: true,
        schedtrace: true,
        perfcounter: true,
    };
    let ids: Vec<Option<u64>> =
        all.set_up_order().into_iter().map(|part| all.stream_id(part)).collect();
    assert_eq!(ids, vec![None, Some(1), None, Some(2), None]);
    let counters = BpfConsumer { profiler: false, ..all };
    assert_eq!(counters.stream_id(Component::PerfCounter), Some(1));
    assert_eq!(counters.stream_id(Component::Profiler), None);
}

#[test]
fn processes_are_filtered_by_numbers_without_sign() {
    let config = BpfConfig {
        cpu_util: Some(CpuUtilConfig {
            pid_filters: vec![1234, 5678, u32::MAX],
            ..CpuUtilConfig::default()
        }),
        ..BpfConfig::default()
    };
    match config.build() {
        Ok(object) => assert_eq!(
            object.cpuutils.as_ref().unwrap().pid_filters,
            vec![1234, 5678, u32::MAX]
        ),
        Err(_) => panic!("refused"),
    }
}

#[test]
fn parts_have_defaults() {
    assert_eq!(default_cpu_util_frequency(), 9);
    assert_eq!(CpuUtilConfig::default().frequency, 9);
    assert_eq!(CpuUtilConfig::default().interval_ns(), 111_111_111);
    assert_eq!(CpuUtilConfig { frequency: 0, ..CpuUtilConfig::default() }.interval_ns(), 0);
    // Ten measurements a second are one every 100 milliseconds.
    assert_eq!(
        CpuUtilConfig { frequency: 10, ..CpuUtilConfig::default() }.interval_ns(),
        100_000_000
    );
    assert_eq!(default_sample_freq(), 99);
    assert!(default_user_samples() && default_debug_syms() && default_map_files());
    assert!(!ProfilerConfig::default().filter_enabled());
    assert_eq!(base_name("/usr/bin/node"), "node");
    assert_eq!(base_name("node"), "node");
    assert_eq!(base_name("dir/"), "");
}

#[test]
fn bpf_failures_have_words() {
    assert_eq!(
        BpfError::LoadError("a".to_string()).message(),
        "failed to load BPF program: a"
    );
    assert_eq!(
        BpfError::AttachError("b".to_string()).message(),
        "failed to attach BPF program: b"
    );
    assert_eq!(BpfError::MapError("c".to_string()).message(), "BPF map operation failed: c");
}

#[test]
fn processor_time_is_summed_per_thread() {
    let mut util = CpuUtil::new(100, 1000);
    let event = |tid: u32, total: u64, kernel: u64, timestamp: u64| CpuEvent {
        tid,
        tgid: 4,
        total_time_ns: total,
        kernel_time_ns: kernel,
        cpu: 0,
        timestamp,
    };
    util.on_event(&event(5, 10, 3, 70));
    util.on_event(&event(6, 1, 0, 60));
    util.on_event(&event(5, 20, 4, 80));
    let mut sink = MessageBuffer::new(usize::MAX, 0);
    assert!(!util.report_if_due(1050, &mut sink));
    assert!(sink.messages().is_empty());
    assert!(util.report_if_due(1100, &mut sink));
    let values: Vec<(String, Quantity, u64, TrackId)> = sink
        .messages()
        .iter()
        .map(|m| match m {
            Message::Event(StreamEvent::Counter(c)) => {
                (c.name.clone(), c.value, c.timestamp, c.track_id)
            }
            _ => panic!("no counter"),
        })
        .collect();
    assert_eq!(values.len(), 3);
    assert_eq!(values[0].0, "cpu_time_ns");
    assert_eq!(values[1].0, "kernel_time_ns");
    assert!(values.iter().all(|v| v.2 == 60));
    assert_eq!(values[0].1, Quantity::Count(30));
    assert_eq!(values[1].1, Quantity::Count(7));
    assert_eq!(values[0].3, TrackId::Thread { tid: 5, pid: 4 });
    assert_eq!(values[2].1, Quantity::Count(1));
    assert_eq!(values[2].3, TrackId::Thread { tid: 6, pid: 4 });
    let mut sink = MessageBuffer::new(usize::MAX, 0);
    util.report_interval_stats(&mut sink);
    assert!(sink.messages().is_empty());
}

fn ids() -> CounterIds {
    CounterIds {
        tcp_send: 1,
        tcp_recv: 2,
        udp_send: 3,
        udp_recv: 4,
        total_send: 5,
        total_recv: 6,
    }
}

fn traffic(cpu: u32, timestamp: u64, n: u64) -> NetEvent {
    NetEvent {
        timestamp,
        tcp_send_bytes: n,
        tcp_recv_bytes: 2 * n,
        udp_send_bytes: 3 * n,
        udp_recv_bytes: 4 * n,
        total_send_bytes: 4 * n,
        total_recv_bytes: 6 * n,
        cpu,
    }
}

#[test]
fn traffic_is_added_up() {
    let mut stats = NetStats::default();
    stats.accumulate(&traffic(0, 5, 10));
    stats.accumulate(&traffic(1, 6, 1));
    assert_eq!(stats.total_send(), 44);
    assert_eq!(stats.total_recv(), 66);
    let values = create_counters(&stats, &ids(), false, 0);
    assert_eq!(values.len(), 6);
    assert_eq!(values[0], ("tcp_send", Quantity::Count(11), 1));
    assert_eq!(values[3], ("udp_recv", Quantity::Count(44), 4));
    assert_eq!(values[5], ("total_recv", Quantity::Count(66), 6));
    let rates = create_counters(&stats, &ids(), true, 500);
    assert_eq!(
        rates[4],
        ("total_send_rate", Quantity::BitRate { bytes: 44, nanoseconds: 500 }, 5)
    );
    stats.reset();
    assert_eq!(stats.total_send(), 0);
    assert_eq!(stats.last_timestamp, 6);
}

#[test]
fn traffic_is_reported_with_its_tracks() {
    let mut net = NetTrack::new(ids(), false, 1);
    let mut sink = MessageBuffer::new(usize::MAX, 0);
    for t in 1..6u64 {
        assert_eq!(net.on_event(&traffic(0, t * 1000, 1), &mut sink), 0);
    }
    let tracks = sink
        .messages()
        .iter()
        .filter(|m| matches!(m, Message::Event(StreamEvent::Track(_))))
        .count();
    assert_eq!(tracks, 6);
    assert_eq!(sink.messages().len(), 6 + 5 * 6);
}

#[test]
fn rates_need_an_interval() {
    let mut net = NetTrack::new(ids(), true, 1);
    let mut sink = MessageBuffer::new(usize::MAX, 0);
    assert_eq!(net.on_event(&traffic(0, 1000, 1), &mut sink), 0);
    assert!(sink.messages().is_empty());
    assert_eq!(net.on_event(&traffic(0, 1500, 7), &mut sink), 0);
    match &sink.messages()[1] {
        Message::Event(StreamEvent::Counter(c)) => {
            assert_eq!(c.name, "tcp_send_rate");
            assert_eq!(c.value, Quantity::BitRate { bytes: 7, nanoseconds: 500 });
            assert_eq!(c.unit.as_deref(), Some("bits/s"));
        }
        _ => panic!("no counter"),
    }
}

#[test]
fn track_numbers_are_random() {
    let a = CounterIds::new();
    let b = CounterIds::new();
    assert_ne!(a, b);
    assert_ne!(a.tcp_send, a.tcp_recv);
}

fn sample_event() -> PerfEvent {
    PerfEvent { timestamp: 9, tgid: 4, pid: 5, cpu_id: 1, ustack_id: 0, kstack_id: -1 }
}

#[test]
fn stacks_are_cut_to_what_is_used() {
    assert_eq!(stack_frames(0, Some(vec![1, 0, 2, 0, 0])), vec![1, 0, 2]);
    assert_eq!(stack_frames(0, Some(vec![0, 0, 0])), vec![0]);
    assert_eq!(stack_frames(-1, Some(vec![1])), Vec::<u64>::new());
    assert_eq!(stack_frames(3, None), Vec::<u64>::new());
}

#[test]
fn callstacks_are_interned_once() {
    let mut profiler = Profiler::new();
    let event = sample_event();
    assert!(matches!(profiler.on_event(&event, &[], &[]), ProfilerStep::Skip));
    assert!(matches!(profiler.on_event(&event, &[10, 20], &[30]), ProfilerStep::Symbolize));
    let usyms = vec![Some("inner".to_string()), None];
    let ksyms = vec![Some("sys".to_string())];
    match profiler.on_symbols(&event, &[10, 20], &[30], &usyms, &ksyms) {
        Some((data, sample)) => {
            let names: Vec<&str> = data.function_names.iter().map(|n| n.str.as_str()).collect();
            assert_eq!(names, vec!["inner", "sys"]);
            assert_eq!(data.frames[0].rel_pc, 10);
            assert_eq!(data.frames[1].rel_pc, 30);
            assert_eq!(data.frames[1].function_name_id, 1);
            assert_eq!(data.callstacks[0].iid, 0);
            assert_eq!(data.callstacks[0].frame_ids, vec![0, 1]);
            assert_eq!(data.mappings[0].end, 0x7fff_ffff_ffff_ffff);
            assert_eq!(data.build_ids[0].str, "unknown");
            assert_eq!(sample.callstack_iid, 0);
        }
        None => panic!("nothing reported"),
    }
    match profiler.on_event(&event, &[10, 20], &[30]) {
        ProfilerStep::Report(s) => {
            assert_eq!((s.cpu, s.pid, s.tid, s.timestamp, s.callstack_iid), (1, 4, 5, 9, 0));
            assert_eq!(s.cpu_mode, CpuMode::Unknown);
        }
        _ => panic!("not known"),
    }
    match profiler.on_symbols(&event, &[11], &[], &vec![Some("f".to_string())], &vec![]) {
        Some((data, _)) => assert_eq!(data.callstacks[0].iid, 1),
        None => panic!("nothing reported"),
    }
    assert!(profiler.on_symbols(&event, &[12], &[], &vec![None], &vec![]).is_none());
    assert!(matches!(profiler.on_event(&event, &[12], &[]), ProfilerStep::Symbolize));
}

#[test]
fn frames_come_outermost_first() {
    let mut profiler = Profiler::new();
    let syms = vec![Some("leaf".to_string()), Some("root".to_string())];
    match profiler.on_symbols(&sample_event(), &[1, 2], &[], &syms, &vec![]) {
        Some((data, _)) => {
            assert_eq!(data.function_names[0].str, "root");
            assert_eq!(data.frames[0].rel_pc, 2);
            assert_eq!(data.function_names[1].str, "leaf");
        }
        None => panic!("nothing reported"),
    }
}

#[test]
fn callstack_hashes_tell_stacks_apart() {
    let a = Callstacks::compute_hash(1, &[10], &[20]);
    assert_eq!(a, Callstacks::compute_hash(1, &[10], &[20]));
    assert_ne!(a, Callstacks::compute_hash(2, &[10], &[20]));
    assert_ne!(a, Callstacks::compute_hash(1, &[10, 20], &[]));
    let mut stacks = Callstacks::new();
    assert_eq!(stacks.get(1, &[10], &[20]), None);
    assert_eq!(stacks.insert(1, &[10], &[20]), 0);
    assert_eq!(stacks.insert(-1, &[10], &[20]), 1);
    assert_eq!(stacks.get(1, &[10], &[20]), Some(0));
    assert_eq!(stacks.get(-1, &[10], &[20]), Some(1));
}

fn thread_event(comm: &str, filename: &str) -> ThreadEvent {
    let mut e = ThreadEvent { pid: 5, tgid: 4, comm: [0; 16], filename: [0; 256] };
    e.comm[..comm.len()].copy_from_slice(comm.as_bytes());
    e.filename[..filename.len()].copy_from_slice(filename.as_bytes());
    e
}

#[test]
fn names_end_at_the_first_zero() {
    let e = thread_event("worker", "/bin/prog");
    assert_eq!(e.comm_str(), "worker");
    assert_eq!(e.filename_str(), "/bin/prog");
    assert_eq!(thread_event("0123456789abcdef", "").comm_str(), "0123456789abcdef");
    assert_eq!(thread_event("caf\u{e9}", "").comm_str(), "caf\u{e9}");
    match e.name_event() {
        TraceInput::ProcessName(n) => {
            assert_eq!(n.name, "/bin/prog");
            assert_eq!(n.pid, 4);
        }
        _ => panic!("no process"),
    }
    let mut odd = e;
    odd.comm = [0xff; 16];
    assert!(matches!(odd.name_event(), TraceInput::ProcessName(n) if n.name == "/bin/prog"));
    match thread_event("worker", "").name_event() {
        TraceInput::ThreadName(n) => {
            assert_eq!(n.name, "worker");
            assert_eq!((n.tid, n.pid), (5, 4));
        }
        _ => panic!("no thread"),
    }
}

fn task(file_name: &str, comm: Option<&str>) -> TaskEntry {
    TaskEntry { file_name: Some(file_name.to_string()), comm: comm.map(|s| s.to_string()) }
}

fn listing() -> Vec<ProcEntry> {
    vec![
        ProcEntry { task: task("cpuinfo", Some("no")), threads: vec![task("9", Some("no"))] },
        ProcEntry {
            task: task("12", Some(" prog\n")),
            threads: vec![
                task("12", Some("prog")),
                task("13", Some("\u{a0}worker\n")),
                task("x", Some("no")),
                task("14", None),
            ],
        },
        ProcEntry {
            task: TaskEntry { file_name: None, comm: Some("no".to_string()) },
            threads: vec![],
        },
        ProcEntry { task: task("99999999999", Some("no")), threads: vec![] },
        ProcEntry { task: task("20", None), threads: vec![task("21", Some("t"))] },
    ]
}

#[test]
fn running_processes_are_named_once() {
    let mut tracker = ThreadTracker::new();
    assert!(tracker.scan_due());
    match tracker.before_events(Err("denied".to_string())) {
        Err(e) => assert_eq!(
            e.message(),
            "BPF map operation failed: failed to read /proc: denied"
        ),
        Ok(_) => panic!("listed"),
    }
    assert!(tracker.scan_due());
    let names = match tracker.before_events(Ok(listing())) {
        Ok(n) => n,
        Err(_) => panic!("refused"),
    };
    let shown: Vec<String> = names
        .iter()
        .map(|n| match n {
            TraceInput::ProcessName(p) => format!("{} {}", p.pid, p.name),
            TraceInput::ThreadName(t) => format!("{}/{} {}", t.pid, t.tid, t.name),
            _ => panic!("no name"),
        })
        .collect();
    assert_eq!(shown, vec!["12 prog", "12/13 worker", "20/21 t"]);
    assert!(!tracker.scan_due());
    match tracker.before_events(Ok(listing())) {
        Ok(n) => assert!(n.is_empty()),
        Err(_) => panic!("refused"),
    }
}
