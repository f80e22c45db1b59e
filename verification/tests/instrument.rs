use manytrace::agent::start::TracingArgs;
use manytrace::agent::{AgentError, Extension, ExtensionError};
use manytrace::config::{
    default_buffer_size, default_log_filter, log_level_by_name, parse_log_level, GlobalConfig,
};
use manytrace::instrument::layer::{
    on_close, on_enter, on_event, on_exit, on_new_span, process_name_due, thread_name_due,
    timestamp_ns, AnnouncedTo, Occurrence,
};
use manytrace::instrument::TracingExtension;
use manytrace::protocol::{Event, Labels, LogLevel, SpanEvent, TimestampType};

fn args(log_filter: &str, timestamp_type: TimestampType) -> TracingArgs {
    TracingArgs { log_filter: log_filter.to_string(), timestamp_type }
}

#[test]
fn tracing_starts_and_stops() {
    let mut tracing: TracingExtension<u32> = TracingExtension::new();
    assert_eq!(tracing.clock_id(), 1);
    assert!(!tracing.is_active());
    assert!(tracing.log_filter().is_none());
    assert!(matches!(tracing.submit(), Err(AgentError::NotEnabled)));
    assert!(tracing.start(&args("debug", TimestampType::Boottime), 9).is_ok());
    assert_eq!(tracing.clock_id(), 7);
    assert!(tracing.is_active());
    assert_eq!(tracing.log_filter(), Some("debug"));
    assert!(matches!(tracing.submit(), Ok(&9)));
    assert!(tracing.stop().is_ok());
    assert!(!tracing.is_active());
    assert_eq!(tracing.clock_id(), 7);
    assert_eq!(tracing.log_filter(), Some("debug"));
    assert!(tracing.start(&args("", TimestampType::Realtime), 1).is_ok());
    assert_eq!(tracing.clock_id(), 0);
}

#[test]
fn a_bad_filter_leaves_tracing_alone() {
    let mut tracing: TracingExtension<u32> = TracingExtension::new();
    match tracing.start(&args("a=b=c", TimestampType::Realtime), 9) {
        Err(ExtensionError::ValidationError(words)) => {
            assert!(words.starts_with("invalid log filter 'a=b=c': "))
        }
        Ok(()) => panic!("started"),
    }
    assert!(!tracing.is_active());
    assert_eq!(tracing.clock_id(), 1);
    match tracing.start_with(&args("x", TimestampType::Realtime), 9, Some("why".to_string())) {
        Err(e) => assert_eq!(e.message(), "validation error: invalid log filter 'x': why"),
        Ok(()) => panic!("started"),
    }
}

#[test]
fn white_space_before_other_characters_leaves_tracing_alone() {
    let mut tracing: TracingExtension<u32> = TracingExtension::new();
    match tracing.start(&args(" x\u{e9}=info", TimestampType::Realtime), 9) {
        Err(e) => assert_eq!(
            e.message(),
            "validation error: invalid log filter ' x\u{e9}=info': white space before a \
             directive with characters outside ASCII"
        ),
        Ok(()) => panic!("started"),
    }
    assert!(!tracing.is_active());
    assert!(tracing.start(&args("x\u{e9}=info", TimestampType::Realtime), 9).is_ok());
    assert!(tracing.start(&args(" x\u{e9}", TimestampType::Realtime), 9).is_ok());
}

#[test]
fn names_are_told_once_per_client() {
    let mut process = AnnouncedTo::new();
    assert!(process_name_due(&mut process, None, Some("prog"), 5).is_none());
    match process_name_due(&mut process, Some(1), Some("prog"), 5) {
        Some(Event::ProcessName(n)) => {
            assert_eq!(n.name, "prog");
            assert_eq!(n.pid, 5);
        }
        _ => panic!("no name"),
    }
    assert!(process_name_due(&mut process, Some(1), Some("prog"), 5).is_none());
    assert!(process_name_due(&mut process, None, Some("prog"), 5).is_none());
    match process_name_due(&mut process, Some(2), None, -5) {
        Some(Event::ProcessName(n)) => assert_eq!(n.name, "process--5"),
        _ => panic!("no name"),
    }
    let mut thread = AnnouncedTo::new();
    match thread_name_due(&mut thread, Some(1), None, 17, 5) {
        Some(Event::ThreadName(n)) => {
            assert_eq!(n.name, "thread-17");
            assert_eq!(n.tid, 17);
            assert_eq!(n.pid, 5);
        }
        _ => panic!("no name"),
    }
    assert!(thread_name_due(&mut thread, Some(1), None, 17, 5).is_none());
}

fn here() -> Occurrence<'static> {
    Occurrence { name: "my_span", timestamp: 99, tid: 3, pid: 2 }
}

#[test]
fn spans_are_submitted_with_their_labels() {
    let mut labels = Labels::new();
    labels.record_i64("answer", 42);
    labels.record_str("name", "test");
    let stored = on_new_span(true, labels);
    let cases = [
        (on_enter(8, &here(), stored.as_ref()), SpanEvent::Start),
        (on_exit(8, &here(), stored.as_ref()), SpanEvent::Stop),
        (on_close(8, &here(), stored.as_ref()), SpanEvent::End),
    ];
    for (event, what) in cases {
        match event {
            Some(Event::Span(s)) => {
                assert_eq!(s.name, "my_span");
                assert_eq!(s.span_id, 8);
                assert_eq!(s.event, what);
                assert_eq!((s.timestamp, s.tid, s.pid), (99, 3, 2));
                assert_eq!(s.labels.ints.entry(0), ("answer", &42));
                assert_eq!(s.labels.strings.entry(0), ("name", &"test".to_string()));
            }
            _ => panic!("no span"),
        }
    }
    assert!(on_new_span(false, Labels::new()).is_none());
    assert!(on_enter(8, &here(), None).is_none());
    assert!(on_exit(8, &here(), None).is_none());
    assert!(on_close(8, &here(), None).is_none());
}

#[test]
fn log_events_are_submitted_while_wanted() {
    let mut labels = Labels::new();
    labels.record_bool("ok", true);
    match on_event(true, &here(), labels) {
        Some(Event::Instant(i)) => {
            assert_eq!(i.name, "my_span");
            assert_eq!((i.timestamp, i.tid, i.pid), (99, 3, 2));
            assert_eq!(i.labels.bools.entry(0), ("ok", &true));
        }
        _ => panic!("no event"),
    }
    assert!(on_event(false, &here(), Labels::new()).is_none());
}

#[test]
fn fields_become_labels() {
    let mut labels = Labels::new();
    labels.record_u64("small", i64::MAX as u64, 0);
    labels.record_u64("large", u64::MAX, (u64::MAX as f64).to_bits());
    labels.record_f64("half", 0.5f64.to_bits());
    labels.record_debug("list", format!("{:?}", vec![1, 2]));
    labels.record_i64("small", -1);
    assert_eq!(labels.ints.len(), 1);
    assert_eq!(labels.ints.entry(0), ("small", &-1));
    assert_eq!(labels.floats.len(), 2);
    assert_eq!(
        labels.floats.entry(0),
        ("large", &18446744073709551615.0f64.to_bits())
    );
    assert_eq!(labels.floats.entry(1), ("half", &0.5f64.to_bits()));
    assert_eq!(labels.strings.entry(0), ("list", &"[1, 2]".to_string()));
}

#[test]
fn clock_readings_are_nanoseconds() {
    assert_eq!(timestamp_ns(0, 0), 0);
    assert_eq!(timestamp_ns(2, 5), 2_000_000_005);
}

#[test]
fn log_levels_are_read_in_any_case() {
    let cases = [
        ("error", LogLevel::Error),
        ("Warn", LogLevel::Warn),
        ("INFO", LogLevel::Info),
        ("dEbUg", LogLevel::Debug),
        ("trace", LogLevel::Trace),
    ];
    for (name, level) in cases {
        match parse_log_level(name) {
            Ok(l) => assert_eq!(l, level),
            Err(_) => panic!("not read"),
        }
    }
    match parse_log_level("Loud") {
        Err(e) => assert_eq!(e.message(), "Invalid log level: Loud"),
        Ok(_) => panic!("read"),
    }
    assert_eq!(log_level_by_name("warn"), Some(LogLevel::Warn));
    assert_eq!(log_level_by_name("WARN"), None);
}

#[test]
fn configuration_has_defaults() {
    assert_eq!(default_log_filter(), "DEBUG");
    assert_eq!(default_buffer_size(), 8388608);
    assert_eq!(GlobalConfig::default().buffer_size, 0);
}

#[test]
fn levels_have_names() {
    for (level, name) in [
        (LogLevel::Error, "error"),
        (LogLevel::Warn, "warn"),
        (LogLevel::Info, "info"),
        (LogLevel::Debug, "debug"),
        (LogLevel::Trace, "trace"),
    ] {
        assert_eq!(level.name(), name);
        assert_eq!(log_level_by_name(level.name()), Some(level));
    }
}
