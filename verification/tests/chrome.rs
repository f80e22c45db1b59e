use manytrace::chrome::{
    ArgValue, Args, InstantScope, MetadataName, Phase, TraceConverter, TraceEvent,
};
use manytrace::protocol::events::{
    CompleteSpan, Counter, Instant, ProcessName, ThreadName, UserEvent,
};
use manytrace::protocol::Labels;

fn span(start: u64, end: u64, labels: Labels) -> UserEvent {
    UserEvent::Span(CompleteSpan {
        name: "work".to_string(),
        start_timestamp: start,
        end_timestamp: end,
        tid: 7,
        pid: -1,
        labels,
    })
}

fn integer(args: &Args, name: &str) -> i64 {
    match args.get(name) {
        Some(ArgValue::Int(n)) => *n,
        _ => panic!("no integer"),
    }
}

fn text(args: &Args, name: &str) -> String {
    match args.get(name) {
        Some(ArgValue::Text(t)) => t.clone(),
        _ => panic!("no text"),
    }
}

#[test]
fn counters_show_their_value_and_labels() {
    let mut labels = Labels::new();
    labels.record_str("host", "a");
    let mut converter = TraceConverter::new();
    converter.convert_event(&UserEvent::Counter(Counter {
        name: "load".to_string(),
        value_bits: 1.5f64.to_bits(),
        timestamp: 11,
        tid: 3,
        pid: 2,
        labels,
        unit: None,
    }));
    let trace = converter.into_chrome_trace();
    match &trace.trace_events.unwrap()[0] {
        TraceEvent::Counter(c) => {
            assert_eq!(c.name, "load");
            assert_eq!(c.cat.as_deref(), Some("counter"));
            assert_eq!(c.ph, Phase::Counter);
            assert_eq!((c.ts, c.pid, c.tid), (11, 2, 3));
            assert_eq!(c.args.len(), 2);
            match c.args.get("load") {
                Some(ArgValue::Float(bits)) => assert_eq!(f64::from_bits(*bits), 1.5),
                _ => panic!("no value"),
            }
            assert_eq!(text(&c.args, "host"), "a");
        }
        _ => panic!("no counter"),
    }
}

#[test]
fn spans_show_their_length() {
    let mut converter = TraceConverter::new();
    converter.convert_event(&span(10, 25, Labels::new()));
    converter.convert_event(&span(10, 10, Labels::new()));
    converter.convert_event(&span(10, 9, Labels::new()));
    assert_eq!(converter.len(), 1);
    let trace = converter.into_chrome_trace();
    match &trace.trace_events.unwrap()[0] {
        TraceEvent::Complete(c) => {
            assert_eq!(c.name, "work");
            assert_eq!(c.cat.as_deref(), Some("span"));
            assert_eq!((c.ts, c.dur), (10, 15));
            assert_eq!((c.pid, c.tid), (u32::MAX, 7));
            assert!(c.args.is_none());
        }
        _ => panic!("no span"),
    }
}

#[test]
fn later_kinds_of_labels_win() {
    let mut labels = Labels::new();
    labels.record_str("x", "text");
    labels.record_i64("x", 4);
    labels.record_str("y", "only");
    let mut converter = TraceConverter::new();
    converter.convert_event(&span(0, 1, labels));
    match &converter.into_chrome_trace().trace_events.unwrap()[0] {
        TraceEvent::Complete(c) => {
            let args = c.args.as_ref().unwrap();
            assert_eq!(args.len(), 2);
            assert_eq!(integer(args, "x"), 4);
            assert_eq!(text(args, "y"), "only");
            assert!(args.get("z").is_none());
        }
        _ => panic!("no span"),
    }
    let mut labels = Labels::new();
    labels.record_i64("x", 4);
    labels.record_f64("x", 0);
    labels.record_bool("x", true);
    let mut converter = TraceConverter::new();
    converter.convert_event(&span(0, 1, labels));
    match &converter.into_chrome_trace().trace_events.unwrap()[0] {
        TraceEvent::Complete(c) => assert!(matches!(
            c.args.as_ref().unwrap().get("x"),
            Some(ArgValue::Bool(true))
        )),
        _ => panic!("no span"),
    }
}

#[test]
fn instants_and_names_are_shown_in_order() {
    let mut converter = TraceConverter::new();
    converter.convert_event(&UserEvent::ProcessName(ProcessName {
        name: "prog".to_string(),
        pid: 2,
    }));
    converter.convert_event(&UserEvent::ThreadName(ThreadName {
        name: "worker".to_string(),
        tid: 3,
        pid: 2,
    }));
    converter.convert_event(&UserEvent::Instant(Instant {
        name: "tick".to_string(),
        timestamp: 5,
        tid: 3,
        pid: 2,
        labels: Labels::new(),
    }));
    let trace = converter.into_chrome_trace();
    assert_eq!(trace.display_time_unit.as_deref(), Some("ns"));
    let metadata = trace.metadata.unwrap();
    assert_eq!(text(&metadata, "generator"), "usertrace");
    assert_eq!(text(&metadata, "version"), "0.1.0");
    let events = trace.trace_events.unwrap();
    assert_eq!(events.len(), 3);
    match &events[0] {
        TraceEvent::Metadata(m) => {
            assert_eq!(m.name, MetadataName::ProcessName);
            assert_eq!((m.pid, m.tid), (2, None));
            assert_eq!(text(&m.args, "name"), "prog");
            assert_eq!(m.ph, Phase::Metadata);
        }
        _ => panic!("no process"),
    }
    match &events[1] {
        TraceEvent::Metadata(m) => {
            assert_eq!(m.name, MetadataName::ThreadName);
            assert_eq!((m.pid, m.tid), (2, Some(3)));
            assert_eq!(text(&m.args, "name"), "worker");
        }
        _ => panic!("no thread"),
    }
    match &events[2] {
        TraceEvent::Instant(i) => {
            assert_eq!(i.name, "tick");
            assert_eq!(i.cat.as_deref(), Some("instant"));
            assert_eq!(i.s, InstantScope::Thread);
            assert_eq!(i.ts, 5);
            assert!(i.args.is_none());
        }
        _ => panic!("no instant"),
    }
}

#[test]
fn arguments_are_walked_by_their_places() {
    let mut args = Args::new();
    args.insert("a", ArgValue::Int(1));
    args.insert("b", ArgValue::Bool(true));
    args.insert("a", ArgValue::Int(2));
    assert_eq!(args.len(), 2);
    let mut names: Vec<&str> = (0..args.len()).map(|i| args.entry(i).0).collect();
    names.sort();
    assert_eq!(names, vec!["a", "b"]);
    for i in 0..args.len() {
        match args.entry(i) {
            ("a", ArgValue::Int(n)) => assert_eq!(*n, 2),
            ("b", ArgValue::Bool(b)) => assert!(*b),
            _ => panic!("another argument"),
        }
    }
    assert!(args.get("c").is_none());
}
