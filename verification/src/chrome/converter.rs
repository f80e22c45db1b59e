//! From what an instrumented process submits to a trace.

use crate::chrome::args;
use crate::chrome::args::{add_labels, ArgValue, ArgView, Args};
use crate::chrome::types::{
    ChromeTrace, CompleteEvent, CounterEvent, InstantEvent, InstantScope, MetadataEvent,
    MetadataName, Phase, TraceEvent,
};
use crate::protocol::events::{
    CompleteSpan, Counter, Instant, ProcessName, ThreadName, UserEvent,
};
use crate::protocol::labels::Labels;
use vstd::prelude::*;
use vstd::string::*;

verus! {

/// No arguments.
pub open spec fn no_args() -> Map<Seq<char>, ArgView> {
    Map::empty()
}

/// The arguments that labels make: nothing at all where there are none.
pub open spec fn are_label_args(a: Option<Args>, l: Labels) -> bool {
    let m = args::with_labels(no_args(), l);
    match a {
        Some(given) => m != no_args() && given@ == m && given.wf(),
        None => m == no_args(),
    }
}

/// `t` is there and is `text`.
pub open spec fn is_text(t: Option<String>, text: Seq<char>) -> bool {
    t matches Some(s) && s@ == text
}

/// `e` shows the counter `c`: its value under its own name, and its labels.
pub open spec fn shows_counter(e: TraceEvent, c: Counter) -> bool {
    &&& e matches TraceEvent::Counter(t)
    &&& t.name@ == c.name@
    &&& is_text(t.cat, "counter"@)
    &&& t.ph == Phase::Counter
    &&& t.ts == c.timestamp
    &&& t.pid == c.pid as u32
    &&& t.tid == c.tid as u32
    &&& t.args.wf()
    &&& t.args@ == args::with_labels(
        no_args().insert(c.name@, ArgView::Float(c.value_bits)),
        c.labels,
    )
    &&& t.id is None
    &&& t.tts is None
    &&& t.cname is None
}

/// `e` shows the span `s` as a whole.
pub open spec fn shows_span(e: TraceEvent, s: CompleteSpan) -> bool {
    &&& e matches TraceEvent::Complete(t)
    &&& t.name@ == s.name@
    &&& is_text(t.cat, "span"@)
    &&& t.ph == Phase::Complete
    &&& t.ts == s.start_timestamp
    &&& t.ts + t.dur == s.end_timestamp
    &&& t.pid == s.pid as u32
    &&& t.tid == s.tid as u32
    &&& are_label_args(t.args, s.labels)
    &&& t.tdur is None
    &&& t.tts is None
    &&& t.cname is None
    &&& t.bind_id is None
    &&& t.flow_in is None
    &&& t.flow_out is None
    &&& t.id is None
    &&& t.id2 is None
    &&& t.scope is None
    &&& t.sf is None
    &&& t.esf is None
}

/// `e` shows the point in time `i`.
pub open spec fn shows_instant(e: TraceEvent, i: Instant) -> bool {
    &&& e matches TraceEvent::Instant(t)
    &&& t.name@ == i.name@
    &&& is_text(t.cat, "instant"@)
    &&& t.ph == Phase::Instant
    &&& t.ts == i.timestamp
    &&& t.pid == i.pid as u32
    &&& t.tid == i.tid as u32
    &&& t.s == InstantScope::Thread
    &&& are_label_args(t.args, i.labels)
    &&& t.tts is None
    &&& t.cname is None
    &&& t.bind_id is None
    &&& t.flow_in is None
    &&& t.flow_out is None
    &&& t.id is None
    &&& t.id2 is None
    &&& t.scope is None
    &&& t.sf is None
    &&& t.esf is None
}

/// The argument `name` and nothing else.
pub open spec fn name_args(name: Seq<char>) -> Map<Seq<char>, ArgView> {
    no_args().insert("name"@, ArgView::Text(name))
}

/// `e` names the thread `n`.
pub open spec fn shows_thread_name(e: TraceEvent, n: ThreadName) -> bool {
    &&& e matches TraceEvent::Metadata(t)
    &&& t.ph == Phase::Metadata
    &&& t.pid == n.pid as u32
    &&& t.tid == Some(n.tid as u32)
    &&& t.name == MetadataName::ThreadName
    &&& t.args.wf()
    &&& t.args@ == name_args(n.name@)
}

/// `e` names the process `n`.
pub open spec fn shows_process_name(e: TraceEvent, n: ProcessName) -> bool {
    &&& e matches TraceEvent::Metadata(t)
    &&& t.ph == Phase::Metadata
    &&& t.pid == n.pid as u32
    &&& t.tid is None
    &&& t.name == MetadataName::ProcessName
    &&& t.args.wf()
    &&& t.args@ == name_args(n.name@)
}

/// `e` shows `event`.
pub open spec fn shows(e: TraceEvent, event: UserEvent) -> bool {
    match event {
        UserEvent::Counter(c) => shows_counter(e, c),
        UserEvent::Span(s) => shows_span(e, s),
        UserEvent::Instant(i) => shows_instant(e, i),
        UserEvent::ThreadName(n) => shows_thread_name(e, n),
        UserEvent::ProcessName(n) => shows_process_name(e, n),
    }
}

/// Whether `event` is shown: all are but spans that take no time.
pub open spec fn is_shown(event: UserEvent) -> bool {
    match event {
        UserEvent::Span(s) => s.end_timestamp > s.start_timestamp,
        _ => true,
    }
}

/// `after` is `before` and one event more.
pub open spec fn one_more(before: Seq<TraceEvent>, after: Seq<TraceEvent>) -> bool {
    after.len() == before.len() + 1 && after.drop_last() == before
}

/// Makes a trace of what an instrumented process submits.
pub struct TraceConverter {
    events: Vec<TraceEvent>,
}

fn label_args(l: &Labels) -> (a: Option<Args>)
    ensures
        are_label_args(a, *l),
{
    let mut args = Args::new();
    add_labels(&mut args, l);
    if args.is_empty() {
        None
    } else {
        Some(args)
    }
}

fn with_name(name: &str) -> (a: Args)
    ensures
        a.wf(),
        a@ == name_args(name@),
{
    let mut args = Args::new();
    args.insert("name", ArgValue::Text(name.to_owned()));
    args
}

impl TraceConverter {
    /// The events of the trace so far.
    pub closed spec fn events(self) -> Seq<TraceEvent> {
        self.events@
    }

    /// A trace without events.
    pub fn new() -> (c: TraceConverter)
        ensures
            c.events() == Seq::<TraceEvent>::empty(),
    {
        TraceConverter { events: Vec::new() }
    }

    /// How many events the trace has.
    pub fn len(&self) -> (n: usize)
        ensures
            n == self.events().len(),
    {
        self.events.len()
    }

    /// Adds what shows `event`; nothing for a span that takes no time.
    pub fn convert_event(&mut self, event: &UserEvent)
        ensures
            is_shown(*event) ==> one_more(old(self).events(), final(self).events()) && shows(
                final(self).events().last(),
                *event,
            ),
            !is_shown(*event) ==> final(self).events() == old(self).events(),
    {
        match event {
            UserEvent::Counter(counter) => self.add_counter(counter),
            UserEvent::Span(span) => self.add_span(span),
            UserEvent::Instant(instant) => self.add_instant(instant),
            UserEvent::ThreadName(thread_name) => self.add_thread_name(thread_name),
            UserEvent::ProcessName(process_name) => self.add_process_name(process_name),
        }
    }

    fn add_counter(&mut self, counter: &Counter)
        ensures
            one_more(old(self).events(), final(self).events()),
            shows_counter(final(self).events().last(), *counter),
    {
        let mut args = Args::new();
        args.insert(counter.name.as_str(), ArgValue::Float(counter.value_bits));
        add_labels(&mut args, &counter.labels);
        self.events.push(
            TraceEvent::Counter(
                CounterEvent {
                    name: counter.name.clone(),
                    cat: Some("counter".to_owned()),
                    ph: Phase::Counter,
                    ts: counter.timestamp,
                    pid: counter.pid as u32,
                    tid: counter.tid as u32,
                    args,
                    id: None,
                    tts: None,
                    cname: None,
                },
            ),
        );
        assert(self.events().drop_last() =~= old(self).events());
    }

    fn add_span(&mut self, span: &CompleteSpan)
        ensures
            span.end_timestamp > span.start_timestamp ==> one_more(
                old(self).events(),
                final(self).events(),
            ) && shows_span(final(self).events().last(), *span),
            span.end_timestamp <= span.start_timestamp ==> final(self).events() == old(
                self,
            ).events(),
    {
        let args = label_args(&span.labels);
        let start_ts: u64 = span.start_timestamp;
        let end_ts: u64 = span.end_timestamp;
        if end_ts > start_ts {
            self.events.push(
                TraceEvent::Complete(
                    CompleteEvent {
                        name: span.name.clone(),
                        cat: Some("span".to_owned()),
                        ph: Phase::Complete,
                        ts: start_ts,
                        dur: end_ts - start_ts,
                        pid: span.pid as u32,
                        tid: span.tid as u32,
                        args,
                        tdur: None,
                        tts: None,
                        cname: None,
                        bind_id: None,
                        flow_in: None,
                        flow_out: None,
                        id: None,
                        id2: None,
                        scope: None,
                        sf: None,
                        esf: None,
                    },
                ),
            );
            assert(self.events().drop_last() =~= old(self).events());
        }
    }

    fn add_instant(&mut self, instant: &Instant)
        ensures
            one_more(old(self).events(), final(self).events()),
            shows_instant(final(self).events().last(), *instant),
    {
        let args = label_args(&instant.labels);
        self.events.push(
            TraceEvent::Instant(
                InstantEvent {
                    name: instant.name.clone(),
                    cat: Some("instant".to_owned()),
                    ph: Phase::Instant,
                    ts: instant.timestamp,
                    pid: instant.pid as u32,
                    tid: instant.tid as u32,
                    s: InstantScope::Thread,
                    args,
                    tts: None,
                    cname: None,
                    bind_id: None,
                    flow_in: None,
                    flow_out: None,
                    id: None,
                    id2: None,
                    scope: None,
                    sf: None,
                    esf: None,
                },
            ),
        );
        assert(self.events().drop_last() =~= old(self).events());
    }

    fn add_thread_name(&mut self, thread_name: &ThreadName)
        ensures
            one_more(old(self).events(), final(self).events()),
            shows_thread_name(final(self).events().last(), *thread_name),
    {
        self.events.push(
            TraceEvent::Metadata(
                MetadataEvent {
                    ph: Phase::Metadata,
                    pid: thread_name.pid as u32,
                    tid: Some(thread_name.tid as u32),
                    name: MetadataName::ThreadName,
                    args: with_name(thread_name.name.as_str()),
                },
            ),
        );
        assert(self.events().drop_last() =~= old(self).events());
    }

    fn add_process_name(&mut self, process_name: &ProcessName)
        ensures
            one_more(old(self).events(), final(self).events()),
            shows_process_name(final(self).events().last(), *process_name),
    {
        self.events.push(
            TraceEvent::Metadata(
                MetadataEvent {
                    ph: Phase::Metadata,
                    pid: process_name.pid as u32,
                    tid: None,
                    name: MetadataName::ProcessName,
                    args: with_name(process_name.name.as_str()),
                },
            ),
        );
        assert(self.events().drop_last() =~= old(self).events());
    }

    /// The trace, with times shown in nanoseconds.
    pub fn into_chrome_trace(self) -> (t: ChromeTrace)
        ensures
            t.trace_events matches Some(events) && events@ == self.events(),
            is_text(t.display_time_unit, "ns"@),
            t.metadata matches Some(m) && m.wf() && m@ == no_args().insert(
                "generator"@,
                ArgView::Text("usertrace"@),
            ).insert("version"@, ArgView::Text("0.1.0"@)),
            t.system_trace_events is None,
            t.stack_frames is None,
            t.samples is None,
    {
        let mut metadata = Args::new();
        metadata.insert("generator", ArgValue::Text("usertrace".to_owned()));
        metadata.insert("version", ArgValue::Text("0.1.0".to_owned()));
        ChromeTrace {
            trace_events: Some(self.events),
            display_time_unit: Some("ns".to_owned()),
            system_trace_events: None,
            stack_frames: None,
            samples: None,
            metadata: Some(metadata),
        }
    }
}

/// The events among the first `n` that are shown.
pub open spec fn shown_events(events: Seq<UserEvent>, n: int) -> Seq<UserEvent>
    decreases n,
{
    if n <= 0 {
        seq![]
    } else if is_shown(events[n - 1]) {
        shown_events(events, n - 1).push(events[n - 1])
    } else {
        shown_events(events, n - 1)
    }
}

/// `trace` shows `events` one by one, in their order.
pub open spec fn shows_all(trace: Seq<TraceEvent>, events: Seq<UserEvent>) -> bool {
    &&& trace.len() == events.len()
    &&& forall|i: int| 0 <= i < trace.len() ==> #[trigger] shows(trace[i], events[i])
}

/// A trace shows what went into it, in its order: where it shows the first `n` events and one
/// more is added, it shows the first `n + 1`.
pub proof fn trace_keeps_order(
    before: Seq<TraceEvent>,
    after: Seq<TraceEvent>,
    events: Seq<UserEvent>,
    n: int,
)
    requires
        0 <= n < events.len(),
        shows_all(before, shown_events(events, n)),
        is_shown(events[n]) ==> one_more(before, after) && shows(after.last(), events[n]),
        !is_shown(events[n]) ==> after == before,
    ensures
        shows_all(after, shown_events(events, n + 1)),
{
    let shown = shown_events(events, n + 1);
    if is_shown(events[n]) {
        assert forall|i: int| 0 <= i < after.len() implies #[trigger] shows(after[i], shown[i]) by {
            if i < before.len() {
                assert(after.drop_last()[i] == after[i]);
                assert(shows(before[i], shown_events(events, n)[i]));
            }
        }
    }
}

} // verus!
