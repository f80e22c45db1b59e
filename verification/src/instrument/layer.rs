//! From spans and log events to what is submitted.

use crate::protocol::events::{Event, Instant, ProcessName, Span, SpanEvent, ThreadName};
use crate::protocol::labels::Labels;
use crate::text;
use crate::text::push_signed_decimal;
use vstd::prelude::*;
use vstd::string::*;

verus! {

/// Whether a name that was last submitted to `last` is due for the client `current`, and the
/// client that it was last submitted to then.
pub open spec fn announced(last: Option<u64>, current: Option<u64>) -> (bool, Option<u64>) {
    if current is Some && current != last {
        (true, current)
    } else {
        (false, last)
    }
}

/// The client that the name of a process or thread was last submitted to.
pub struct AnnouncedTo {
    client: Option<u64>,
}

impl AnnouncedTo {
    pub closed spec fn client(self) -> Option<u64> {
        self.client
    }

    /// The name was not submitted.
    pub fn new() -> (a: AnnouncedTo)
        ensures
            a.client() is None,
    {
        AnnouncedTo { client: None }
    }

    /// Whether the name is to be submitted to the client `current`: there is one and it is
    /// another than the last. The name then counts as submitted to it.
    pub fn due(&mut self, current: Option<u64>) -> (b: bool)
        ensures
            (b, final(self).client()) == announced(old(self).client(), current),
    {
        let due: bool = match (current, self.client) {
            (None, _) => false,
            (Some(_), None) => true,
            (Some(c), Some(last)) => c != last,
        };
        if due {
            self.client = current;
        }
        due
    }
}

/// The name of a process, with its number in place of a name where it has none.
pub open spec fn process_name_spec(file_name: Option<Seq<char>>, pid: i32) -> Seq<char> {
    match file_name {
        Some(n) => n,
        None => "process-"@ + text::signed_decimal(pid as int),
    }
}

/// The name of a thread, with its number in place of a name where it has none.
pub open spec fn thread_name_spec(name: Option<Seq<char>>, tid: i32) -> Seq<char> {
    match name {
        Some(n) => n,
        None => "thread-"@ + text::signed_decimal(tid as int),
    }
}

/// A text that may be missing, as what it says.
pub open spec fn said(t: Option<&str>) -> Option<Seq<char>> {
    match t {
        Some(s) => Some(s@),
        None => None,
    }
}

/// `name`, or `prefix` and `number` where there is none.
fn name_or_number(name: Option<&str>, prefix: &str, number: i32) -> (s: String)
    ensures
        s@ == match name {
            Some(n) => n@,
            None => prefix@ + text::signed_decimal(number as int),
        },
{
    match name {
        Some(n) => n.to_owned(),
        None => {
            let mut s = prefix.to_owned();
            push_signed_decimal(&mut s, number as i64);
            s
        },
    }
}

/// The name of the process, where it is to be submitted to the client `current`.
pub fn process_name_due(
    announced: &mut AnnouncedTo,
    current: Option<u64>,
    file_name: Option<&str>,
    pid: i32,
) -> (e: Option<Event>)
    ensures
        match e {
            Some(Event::ProcessName(n)) => {
                &&& current is Some && current != old(announced).client()
                &&& final(announced).client() == current
                &&& n.name@ == process_name_spec(said(file_name), pid)
                &&& n.pid == pid
            },
            Some(_) => false,
            None => {
                &&& current is None || current == old(announced).client()
                &&& final(announced).client() == old(announced).client()
            },
        },
{
    if announced.due(current) {
        let name = name_or_number(file_name, "process-", pid);
        Some(Event::ProcessName(ProcessName { name, pid }))
    } else {
        None
    }
}

/// The name of the thread, where it is to be submitted to the client `current`.
pub fn thread_name_due(
    announced: &mut AnnouncedTo,
    current: Option<u64>,
    name: Option<&str>,
    tid: i32,
    pid: i32,
) -> (e: Option<Event>)
    ensures
        match e {
            Some(Event::ThreadName(n)) => {
                &&& current is Some && current != old(announced).client()
                &&& final(announced).client() == current
                &&& n.name@ == thread_name_spec(said(name), tid)
                &&& n.tid == tid
                &&& n.pid == pid
            },
            Some(_) => false,
            None => {
                &&& current is None || current == old(announced).client()
                &&& final(announced).client() == old(announced).client()
            },
        },
{
    if announced.due(current) {
        let name = name_or_number(name, "thread-", tid);
        Some(Event::ThreadName(ThreadName { name, tid, pid }))
    } else {
        None
    }
}

/// Where and when something happens.
pub struct Occurrence<'a> {
    pub name: &'a str,
    pub timestamp: u64,
    pub tid: i32,
    pub pid: i32,
}

/// `e` says that `what` happened to the span `span_id`.
pub open spec fn is_span_event(
    e: Event,
    what: SpanEvent,
    span_id: u64,
    at: Occurrence,
    labels: Labels,
) -> bool {
    &&& e matches Event::Span(s)
    &&& s.name@ == at.name@
    &&& s.span_id == span_id
    &&& s.event == what
    &&& s.timestamp == at.timestamp
    &&& s.tid == at.tid
    &&& s.pid == at.pid
    &&& s.labels.same(labels)
}

/// What is submitted where `what` happens to the span `span_id`, of which the labels were kept
/// while a client wanted them.
fn span_event(what: SpanEvent, span_id: u64, at: &Occurrence, stored: Option<&Labels>) -> (e:
    Option<Event>)
    ensures
        e is Some <==> stored is Some,
        e matches Some(event) ==> is_span_event(event, what, span_id, *at, *stored->Some_0),
{
    match stored {
        None => None,
        Some(labels) => Some(
            Event::Span(
                Span {
                    name: at.name.to_owned(),
                    span_id,
                    event: what,
                    timestamp: at.timestamp,
                    tid: at.tid,
                    pid: at.pid,
                    labels: labels.copied(),
                },
            ),
        ),
    }
}

/// The labels to keep with a new span: those that were recorded, where a client wants events.
pub fn on_new_span(enabled: bool, recorded: Labels) -> (stored: Option<Labels>)
    ensures
        stored == if enabled {
            Some(recorded)
        } else {
            None
        },
{
    if enabled {
        Some(recorded)
    } else {
        None
    }
}

/// What is submitted where a span is entered. A span that began while no client wanted events is
/// passed over.
pub fn on_enter(span_id: u64, at: &Occurrence, stored: Option<&Labels>) -> (e: Option<Event>)
    ensures
        e is Some <==> stored is Some,
        e matches Some(event) ==> is_span_event(
            event,
            SpanEvent::Start,
            span_id,
            *at,
            *stored->Some_0,
        ),
{
    span_event(SpanEvent::Start, span_id, at, stored)
}

/// What is submitted where a span is left. A span that began while no client wanted events is
/// passed over.
pub fn on_exit(span_id: u64, at: &Occurrence, stored: Option<&Labels>) -> (e: Option<Event>)
    ensures
        e is Some <==> stored is Some,
        e matches Some(event) ==> is_span_event(
            event,
            SpanEvent::Stop,
            span_id,
            *at,
            *stored->Some_0,
        ),
{
    span_event(SpanEvent::Stop, span_id, at, stored)
}

/// What is submitted where a span is over. A span that began while no client wanted events is
/// passed over.
pub fn on_close(span_id: u64, at: &Occurrence, stored: Option<&Labels>) -> (e: Option<Event>)
    ensures
        e is Some <==> stored is Some,
        e matches Some(event) ==> is_span_event(
            event,
            SpanEvent::End,
            span_id,
            *at,
            *stored->Some_0,
        ),
{
    span_event(SpanEvent::End, span_id, at, stored)
}

/// What is submitted for a log event with the labels `recorded`; nothing where no client wants
/// events.
pub fn on_event(enabled: bool, at: &Occurrence, recorded: Labels) -> (e: Option<Event>)
    ensures
        e is Some <==> enabled,
        e matches Some(event) ==> (event matches Event::Instant(i) && i.name@ == at.name@
            && i.timestamp == at.timestamp && i.tid == at.tid && i.pid == at.pid && i.labels
            == recorded),
{
    if !enabled {
        return None;
    }
    Some(
        Event::Instant(
            Instant {
                name: at.name.to_owned(),
                timestamp: at.timestamp,
                tid: at.tid,
                pid: at.pid,
                labels: recorded,
            },
        ),
    )
}

/// A time of the system's clock as nanoseconds.
pub fn timestamp_ns(seconds: i64, nanoseconds: i64) -> (t: u64)
    requires
        0 <= seconds,
        0 <= nanoseconds,
        seconds * 1_000_000_000 + nanoseconds <= u64::MAX,
    ensures
        t == seconds * 1_000_000_000 + nanoseconds,
{
    seconds as u64 * 1_000_000_000 + nanoseconds as u64
}

/// A client is told the name once: after it was, it is not due again for the same client, and it
/// is due as soon as there is another one.
pub proof fn name_is_announced_once(last: Option<u64>, current: Option<u64>, next: Option<u64>)
    ensures
        ({
            let after = announced(last, current).1;
            &&& !announced(after, current).0
            &&& current is Some && next is Some && next != current ==> announced(after, next).0
        }),
{
}

} // verus!
