use manytrace::bpf::perfcounter::{
    default_frequency, default_ringbuf_size, CounterConfig, DerivedCounter, PerfCounter,
    PerfCounterConfig, PerfCounterEvent, MAX_PERF_COUNTERS, PERF_COUNT_HW_CPU_CYCLES,
    PERF_COUNT_SW_PAGE_FAULTS, PERF_TYPE_HARDWARE, PERF_TYPE_RAW, PERF_TYPE_SOFTWARE,
};
use manytrace::bpf::stream::{
    Message, MessageBuffer, Quantity, StreamEvent, TrackId, TrackType,
};

fn named(names: &[&str]) -> PerfCounterConfig {
    let mut config = PerfCounterConfig::default();
    for name in names {
        config.counters.push(CounterConfig::Named(name.to_string()));
    }
    config
}

fn refusal(mut config: PerfCounterConfig) -> String {
    match config.validate() {
        Err(e) => e.message(),
        Ok(_) => panic!("accepted"),
    }
}

#[test]
fn test_config_validation() {
    let mut config = PerfCounterConfig::default();
    assert!(config.validate().is_err());

    config
        .counters
        .push(CounterConfig::Named("cpu-cycles".to_string()));
    let result = config.validate();
    assert!(result.is_ok());
    match result {
        Ok(derived) => assert_eq!(derived.len(), 1),
        Err(_) => unreachable!(),
    }

    let mut config2 = PerfCounterConfig::default();
    config2
        .counters
        .push(CounterConfig::Named("unknown-counter".to_string()));
    assert!(config2.validate().is_err());

    let mut config3 = PerfCounterConfig::default();
    config3.counters.push(CounterConfig::Custom {
        name: "my-custom-counter".to_string(),
        perf_type: PERF_TYPE_RAW,
        config: 0x1234,
    });
    assert!(config3.validate().is_ok());

    let mut config4 = PerfCounterConfig::default();
    for _i in 0..=MAX_PERF_COUNTERS {
        config4
            .counters
            .push(CounterConfig::Named("cpu-cycles".to_string()));
    }
    assert!(config4.validate().is_err());
}

#[test]
fn test_ipc_expansion() {
    let mut config = PerfCounterConfig::default();
    config
        .counters
        .push(CounterConfig::Named("ipc".to_string()));

    assert_eq!(config.counters.len(), 1);
    let derived_info = match config.expand_counters() {
        Ok(d) => d,
        Err(_) => panic!("refused"),
    };
    assert_eq!(config.counters.len(), 2);
    assert_eq!(derived_info.len(), 1);

    match &config.counters[0] {
        CounterConfig::Named(name) => assert_eq!(name, "cpu-cycles"),
        _ => panic!("Expected Named variant"),
    }
    match &config.counters[1] {
        CounterConfig::Named(name) => assert_eq!(name, "cpu-instructions"),
        _ => panic!("Expected Named variant"),
    }

    let (name, derived) = &derived_info[0];
    assert_eq!(name, "ipc");
    match derived {
        Some(DerivedCounter::Ipc {
            cycles_idx,
            instructions_idx,
        }) => {
            assert_eq!(*cycles_idx, 0);
            assert_eq!(*instructions_idx, 1);
        }
        _ => panic!("Expected Ipc derived counter"),
    }
}

#[test]
fn test_perfcounter_ipc_expansion() {
    let mut pc_config = named(&["ipc", "cache-misses"]);

    assert_eq!(pc_config.counters.len(), 2);
    let entries = match pc_config.expand_counters() {
        Ok(d) => d,
        Err(_) => panic!("refused"),
    };
    let derived_info: Vec<_> = entries.iter().filter(|d| d.1.is_some()).collect();
    assert_eq!(pc_config.counters.len(), 3);
    assert_eq!(derived_info.len(), 1);

    match &pc_config.counters[0] {
        CounterConfig::Named(name) => assert_eq!(name, "cpu-cycles"),
        _ => panic!("Expected Named variant"),
    }
    match &pc_config.counters[1] {
        CounterConfig::Named(name) => assert_eq!(name, "cpu-instructions"),
        _ => panic!("Expected Named variant"),
    }
    match &pc_config.counters[2] {
        CounterConfig::Named(name) => assert_eq!(name, "cache-misses"),
        _ => panic!("Expected Named variant"),
    }

    assert_eq!(derived_info[0].0, "ipc");
}

#[test]
fn test_counter_to_perf_config() {
    let counter = CounterConfig::Named("cpu-cycles".to_string());
    match counter.to_perf_config() {
        Ok((name, perf_type, config)) => {
            assert_eq!(name, "cpu-cycles");
            assert_eq!(perf_type, PERF_TYPE_HARDWARE);
            assert_eq!(config, PERF_COUNT_HW_CPU_CYCLES);
        }
        Err(_) => panic!("refused"),
    }

    let counter2 = CounterConfig::Named("page-faults".to_string());
    match counter2.to_perf_config() {
        Ok((name, perf_type, config)) => {
            assert_eq!(name, "page-faults");
            assert_eq!(perf_type, PERF_TYPE_SOFTWARE);
            assert_eq!(config, PERF_COUNT_SW_PAGE_FAULTS);
        }
        Err(_) => panic!("refused"),
    }
}

#[test]
fn counters_have_the_numbers_of_the_kernel() {
    let cases: [(&str, u32, u64); 20] = [
        ("cpu-cycles", 0, 0),
        ("cpu-instructions", 0, 1),
        ("instructions", 0, 1),
        ("cache-references", 0, 2),
        ("cache-misses", 0, 3),
        ("branch-instructions", 0, 4),
        ("branches", 0, 4),
        ("branch-misses", 0, 5),
        ("stalled-cycles-frontend", 0, 7),
        ("stalled-cycles-backend", 0, 8),
        ("cpu-clock", 1, 0),
        ("task-clock", 1, 1),
        ("page-faults", 1, 2),
        ("faults", 1, 2),
        ("context-switches", 1, 3),
        ("cs", 1, 3),
        ("cpu-migrations", 1, 4),
        ("migrations", 1, 4),
        ("minor-faults", 1, 5),
        ("major-faults", 1, 6),
    ];
    for (name, perf_type, config) in cases {
        match CounterConfig::Named(name.to_string()).to_perf_config() {
            Ok(found) => assert_eq!(found, (name.to_string(), perf_type, config)),
            Err(_) => panic!("refused"),
        }
    }
    let custom = CounterConfig::Custom { name: "mine".to_string(), perf_type: 4, config: 192 };
    assert_eq!(custom.name(), "mine");
    match custom.to_perf_config() {
        Ok(found) => assert_eq!(found, ("mine".to_string(), 4, 192)),
        Err(_) => panic!("refused"),
    }
}

#[test]
fn refusals_say_why() {
    assert_eq!(
        refusal(named(&[])),
        "failed to load BPF program: no performance counters configured"
    );
    assert_eq!(
        refusal(named(&["cs", "odd"])),
        "failed to load BPF program: unknown performance counter: odd"
    );
    assert_eq!(
        refusal(named(&["ipc", "ipc", "ipc", "ipc", "cs"])),
        "failed to load BPF program: too many performance counters: 9 (max: 8)"
    );
    assert!(PerfCounter::new(named(&["odd"]), 1, 0).is_err());
}

#[test]
fn expanding_twice_changes_nothing_more() {
    let mut config = named(&["ipc", "cs"]);
    assert!(config.expand_counters().is_ok());
    assert_eq!(config.counters.len(), 3);
    match config.expand_counters() {
        Ok(derived) => assert!(derived.iter().all(|d| d.1.is_none())),
        Err(_) => panic!("refused"),
    }
    assert_eq!(config.counters.len(), 3);
    assert_eq!(default_frequency(), 99);
    assert_eq!(default_ringbuf_size(), 262144);
}

#[test]
fn counters_are_opened_announced_and_reported() {
    let perf = match PerfCounter::new(named(&["cs", "ipc"]), 2, 5) {
        Ok(p) => p,
        Err(_) => panic!("refused"),
    };
    assert_eq!(perf.map_entries(), 6);
    let steps = perf.open_steps();
    assert_eq!(steps.len(), 6);
    assert_eq!((steps[0].counter_idx, steps[0].cpu, steps[0].map_index), (0, 0, 0));
    assert_eq!((steps[1].counter_idx, steps[1].cpu, steps[1].map_index), (0, 1, 3));
    assert_eq!((steps[5].counter_idx, steps[5].cpu, steps[5].map_index), (2, 1, 5));
    assert_eq!((steps[5].perf_type, steps[5].config), (0, 1));

    let mut sink = MessageBuffer::new(usize::MAX, 0);
    perf.announce(&mut sink);
    assert_eq!(sink.messages().len(), 8);
    match &sink.messages()[3] {
        Message::Stream { stream_id, event: StreamEvent::Track(t) } => {
            assert_eq!(*stream_id, 5);
            assert_eq!(t.name, "ipc/cpu0");
            assert!(matches!(t.track_type, TrackType::Counter { id: 4, unit: None }));
            assert!(matches!(t.parent, Some(TrackType::Cpu { cpu: 0 })));
        }
        _ => panic!("no track"),
    }
    match &sink.messages()[4] {
        Message::Stream { event: StreamEvent::Track(t), .. } => {
            assert_eq!(t.name, "cs/cpu1");
            assert!(matches!(t.track_type, TrackType::Counter { id: 0x1_0000_0000, .. }));
        }
        _ => panic!("no track"),
    }

    let mut sink = MessageBuffer::new(usize::MAX, 0);
    let mut event = PerfCounterEvent {
        timestamp: 77,
        cpu_id: 1,
        padding: 0,
        counters: [3, 100, 250, 0, 0, 0, 0, 0],
    };
    perf.on_event(&event, &mut sink);
    event.counters[1] = 0;
    perf.on_event(&event, &mut sink);
    let values: Vec<(TrackId, Quantity)> = sink
        .messages()
        .iter()
        .map(|m| match m {
            Message::Stream { stream_id: 5, event: StreamEvent::Counter(c) } => {
                assert_eq!(c.timestamp, 77);
                (c.track_id, c.value)
            }
            _ => panic!("no value"),
        })
        .collect();
    let id = |i: u64| TrackId::Counter { id: 0x1_0000_0000 + i };
    assert_eq!(
        values,
        vec![
            (id(0), Quantity::Count(3)),
            (id(1), Quantity::Count(100)),
            (id(2), Quantity::Count(250)),
            (id(4), Quantity::Ratio { dividend: 250, divisor: 100 }),
            (id(0), Quantity::Count(3)),
            (id(1), Quantity::Count(0)),
            (id(2), Quantity::Count(250)),
            (id(4), Quantity::Count(0)),
        ]
    );
}

#[test]
fn values_belong_to_announced_tracks() {
    let perf = match PerfCounter::new(named(&["ipc", "cs", "ipc"]), 3, 9) {
        Ok(p) => p,
        Err(_) => panic!("refused"),
    };
    let mut announced = MessageBuffer::new(usize::MAX, 0);
    perf.announce(&mut announced);
    let tracks: Vec<u64> = announced
        .messages()
        .iter()
        .map(|m| match m {
            Message::Stream { stream_id: 9, event: StreamEvent::Track(t) } => match t.track_type {
                TrackType::Counter { id, .. } => id,
                _ => panic!("no counter"),
            },
            _ => panic!("no track"),
        })
        .collect();
    let mut reported = MessageBuffer::new(usize::MAX, 0);
    let event = PerfCounterEvent { timestamp: 1, cpu_id: 2, padding: 0, counters: [1; 8] };
    perf.on_event(&event, &mut reported);
    assert_eq!(reported.messages().len() * 3, tracks.len());
    for m in reported.messages() {
        match m {
            Message::Stream { stream_id: 9, event: StreamEvent::Counter(c) } => match c.track_id {
                TrackId::Counter { id } => assert!(tracks.contains(&id)),
                _ => panic!("no counter"),
            },
            _ => panic!("no value"),
        }
    }
}
