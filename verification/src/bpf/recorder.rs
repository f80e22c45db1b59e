//! What the reports of the BPF programs are in a trace.

use crate::bpf::stream::{
    Message, Quantity, StreamCounter, StreamEvent, Track, TrackId, TrackType,
};
use crate::protocol::events::{Counter, Instant, ProcessName, ThreadName, TraceInput};
use crate::protocol::labels::Labels;
use std::collections::HashMap;
use vstd::prelude::*;
use vstd::string::*;

verus! {

broadcast use vstd::std_specs::hash::group_hash_axioms;

/// The stream of a message; reports by themselves are in the stream zero.
pub open spec fn stream_of(message: Message) -> u64 {
    match message {
        Message::Event(_) => 0,
        Message::Stream { stream_id, event: _ } => stream_id,
    }
}

/// The report of a message.
pub open spec fn event_of(message: Message) -> StreamEvent {
    match message {
        Message::Event(event) => event,
        Message::Stream { stream_id: _, event } => event,
    }
}

/// Thread and process that a report belongs to; counters by themselves belong to none.
pub open spec fn owner(track_id: TrackId) -> (i32, i32) {
    match track_id {
        TrackId::Thread { tid, pid } => (tid, pid),
        TrackId::Counter { id: _ } => (0, 0),
    }
}

/// The quantity that a message reports, where it reports one.
pub fn reported_quantity(message: &Message) -> (q: Option<Quantity>)
    ensures
        q == match event_of(*message) {
            StreamEvent::Counter(c) => Some(c.value),
            _ => None,
        },
{
    let event = match message {
        Message::Event(event) => event,
        Message::Stream { stream_id: _, event } => event,
    };
    match event {
        StreamEvent::Counter(c) => Some(c.value),
        _ => None,
    }
}

/// The names of counters by stream and number.
pub type CounterNames = Map<(u64, u64), Seq<char>>;

/// The names of counters that are known after a message.
pub open spec fn names_after(names: CounterNames, message: Message) -> CounterNames {
    match event_of(message) {
        StreamEvent::Track(track) => match track.track_type {
            TrackType::Counter { id, unit: _ } => names.insert(
                (stream_of(message), id),
                track.name@,
            ),
            _ => names,
        },
        _ => names,
    }
}

/// The name of a counter: that of its track, where that was described, else its own.
pub open spec fn counter_name(names: CounterNames, stream_id: u64, c: StreamCounter) -> Seq<char> {
    match c.track_id {
        TrackId::Counter { id } if names.contains_key((stream_id, id)) => names[(stream_id, id)],
        _ => c.name@,
    }
}

/// `input` is what the message is in a trace: a name for the description of a process or thread,
/// the value for a counter, and nothing for the description of other tracks. `value_bits` is the
/// quantity that the message reports, as the bit pattern of a floating-point number.
pub open spec fn recorded(
    names: CounterNames,
    message: Message,
    value_bits: u64,
    input: Option<TraceInput>,
) -> bool {
    match event_of(message) {
        StreamEvent::Track(track) => match track.track_type {
            TrackType::Process { pid } => {
                &&& input matches Some(TraceInput::ProcessName(n))
                &&& n.name@ == track.name@
                &&& n.pid == pid
            },
            TrackType::Thread { tid, pid } => {
                &&& input matches Some(TraceInput::ThreadName(n))
                &&& n.name@ == track.name@
                &&& n.tid == tid
                &&& n.pid == pid
            },
            _ => input is None,
        },
        StreamEvent::Counter(c) => {
            &&& input matches Some(TraceInput::Counter(v))
            &&& v.name@ == counter_name(names, stream_of(message), c)
            &&& v.value_bits == value_bits
            &&& v.timestamp == c.timestamp
            &&& (v.tid, v.pid) == owner(c.track_id)
            &&& v.unit == c.unit
            &&& v.labels.wf()
            &&& v.labels.is_empty()
        },
        StreamEvent::Instant(i) => {
            &&& input matches Some(TraceInput::Instant(v))
            &&& v.name@ == i.name@
            &&& v.timestamp == i.timestamp
            &&& (v.tid, v.pid) == owner(i.track_id)
            &&& v.labels.wf()
            &&& v.labels.is_empty()
        },
    }
}

spec fn key_spec(k: (u64, u64)) -> int {
    k.0 * 0x1_0000_0000_0000_0000 + k.1
}

fn key(stream_id: u64, id: u64) -> (k: u128)
    ensures
        k == key_spec((stream_id, id)),
{
    stream_id as u128 * 0x1_0000_0000_0000_0000 + id as u128
}

fn place(track_id: TrackId) -> (p: (i32, i32))
    ensures
        p == owner(track_id),
{
    match track_id {
        TrackId::Thread { tid, pid } => (tid, pid),
        TrackId::Counter { id: _ } => (0, 0),
    }
}

/// Turns messages into what they are in a trace. Counters get the name of their track.
pub struct Recorder {
    names: HashMap<u128, String>,
}

impl View for Recorder {
    type V = CounterNames;

    closed spec fn view(&self) -> CounterNames {
        Map::new(
            |k: (u64, u64)| self.names@.contains_key(key_spec(k) as u128),
            |k: (u64, u64)| self.names@[key_spec(k) as u128]@,
        )
    }
}

impl Recorder {
    /// No track was described yet.
    pub fn new() -> (r: Recorder)
        ensures
            r@ == CounterNames::empty(),
    {
        let r = Recorder { names: HashMap::new() };
        assert(r@ =~= CounterNames::empty());
        r
    }

    /// What `message` is in a trace, where it is anything. `value_bits` is the quantity that it
    /// reports, as the bit pattern of a floating-point number.
    pub fn record(&mut self, message: Message, value_bits: u64) -> (input: Option<TraceInput>)
        ensures
            final(self)@ == names_after(old(self)@, message),
            recorded(old(self)@, message, value_bits, input),
    {
        let (stream_id, event) = match message {
            Message::Event(event) => (0, event),
            Message::Stream { stream_id, event } => (stream_id, event),
        };
        match event {
            StreamEvent::Track(track) => self.on_track(stream_id, track),
            StreamEvent::Counter(counter) => {
                let (tid, pid) = place(counter.track_id);
                let name = self.name_of(stream_id, &counter);
                Some(
                    TraceInput::Counter(
                        Counter {
                            name,
                            value_bits,
                            timestamp: counter.timestamp,
                            tid,
                            pid,
                            labels: Labels::new(),
                            unit: counter.unit,
                        },
                    ),
                )
            },
            StreamEvent::Instant(instant) => {
                let (tid, pid) = place(instant.track_id);
                Some(
                    TraceInput::Instant(
                        Instant {
                            name: instant.name,
                            timestamp: instant.timestamp,
                            tid,
                            pid,
                            labels: Labels::new(),
                        },
                    ),
                )
            },
        }
    }

    fn on_track(&mut self, stream_id: u64, track: Track) -> (input: Option<TraceInput>)
        ensures
            final(self)@ == (match track.track_type {
                TrackType::Counter { id, unit: _ } => old(self)@.insert(
                    (stream_id, id),
                    track.name@,
                ),
                _ => old(self)@,
            }),
            recorded(
                old(self)@,
                Message::Event(StreamEvent::Track(track)),
                0,
                input,
            ),
    {
        match track.track_type {
            TrackType::Process { pid } => Some(
                TraceInput::ProcessName(ProcessName { name: track.name, pid }),
            ),
            TrackType::Thread { tid, pid } => Some(
                TraceInput::ThreadName(ThreadName { name: track.name, tid, pid }),
            ),
            TrackType::Counter { id, unit: _ } => {
                self.names.insert(key(stream_id, id), track.name);
                proof {
                    let now = old(self)@.insert((stream_id, id), track.name@);
                    assert forall|k: (u64, u64)|
                        #[trigger] self@.contains_key(k) == now.contains_key(k) && (
                        self@.contains_key(k) ==> self@[k] == now[k]) by {
                        if key_spec(k) == key_spec((stream_id, id)) {
                            assert(k == (stream_id, id));
                        }
                    }
                    assert(self@ =~= now);
                }
                None
            },
            TrackType::Cpu { cpu: _ } => None,
        }
    }

    fn name_of(&self, stream_id: u64, counter: &StreamCounter) -> (name: String)
        ensures
            name@ == counter_name(self@, stream_id, *counter),
    {
        match counter.track_id {
            TrackId::Counter { id } => match self.names.get(&key(stream_id, id)) {
                Some(name) => name.clone(),
                None => counter.name.clone(),
            },
            TrackId::Thread { tid: _, pid: _ } => counter.name.clone(),
        }
    }
}

/// A counter is recorded under the name of its track from when that was described, and no other
/// report changes that: only another description of the same track does.
pub proof fn counters_are_named_by_their_track(
    names: CounterNames,
    track: Message,
    others: Seq<Message>,
    c: StreamCounter,
    id: u64,
)
    requires
        event_of(track) matches StreamEvent::Track(t) && t.track_type matches TrackType::Counter {
            id: described,
            unit: _,
        } && described == id,
        c.track_id == (TrackId::Counter { id }),
        forall|i: int|
            0 <= i < others.len() ==> !redescribes(#[trigger] others[i], stream_of(track), id),
    ensures
        counter_name(names_after_all(names_after(names, track), others), stream_of(track), c)
            == event_of(track)->Track_0.name@,
    decreases others.len(),
{
    if others.len() > 0 {
        let before = others.drop_last();
        assert forall|i: int| 0 <= i < before.len() implies !redescribes(
            #[trigger] before[i],
            stream_of(track),
            id,
        ) by {
            assert(others[i] == before[i]);
        }
        counters_are_named_by_their_track(names, track, before, c, id);
        assert(!redescribes(others[others.len() - 1], stream_of(track), id));
    }
}

/// Whether `message` describes the track of the counter `id` in the stream `stream_id`.
pub open spec fn redescribes(message: Message, stream_id: u64, id: u64) -> bool {
    stream_of(message) == stream_id && match event_of(message) {
        StreamEvent::Track(track) => match track.track_type {
            TrackType::Counter { id: described, unit: _ } => described == id,
            _ => false,
        },
        _ => false,
    }
}

/// The names of counters that are known after all `messages`.
pub open spec fn names_after_all(names: CounterNames, messages: Seq<Message>) -> CounterNames
    decreases messages.len(),
{
    if messages.len() == 0 {
        names
    } else {
        names_after(names_after_all(names, messages.drop_last()), messages.last())
    }
}

} // verus!
