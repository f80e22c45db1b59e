//! What the BPF programs report.

use vstd::prelude::*;

verus! {

/// A measured quantity. What is a floating-point number in the end is kept as the integers that
/// it is computed from.
#[derive(Debug, Clone, Copy, PartialEq, Eq, Structural)]
pub enum Quantity {
    /// A number of things.
    Count(u64),
    /// The one divided by the other.
    Ratio { dividend: u64, divisor: u64 },
    /// Bits per second: so many bytes in so many nanoseconds.
    BitRate { bytes: u64, nanoseconds: u64 },
}

/// What a track belongs to.
pub enum TrackType {
    Process { pid: i32 },
    Thread { tid: i32, pid: i32 },
    Cpu { cpu: u32 },
    Counter { id: u64, unit: Option<String> },
}

#[verifier::ext_equal]
pub enum TrackTypeView {
    Process { pid: i32 },
    Thread { tid: i32, pid: i32 },
    Cpu { cpu: u32 },
    Counter { id: u64, unit: Option<Seq<char>> },
}

impl DeepView for TrackType {
    type V = TrackTypeView;

    open spec fn deep_view(&self) -> TrackTypeView {
        match self {
            TrackType::Process { pid } => TrackTypeView::Process { pid: *pid },
            TrackType::Thread { tid, pid } => TrackTypeView::Thread { tid: *tid, pid: *pid },
            TrackType::Cpu { cpu } => TrackTypeView::Cpu { cpu: *cpu },
            TrackType::Counter { id, unit } => TrackTypeView::Counter {
                id: *id,
                unit: unit.deep_view(),
            },
        }
    }
}

/// The name of a track in events.
#[derive(Debug, Clone, Copy, PartialEq, Eq, Structural)]
pub enum TrackId {
    Thread { tid: i32, pid: i32 },
    Counter { id: u64 },
}

/// The description of a track.
pub struct Track {
    pub name: String,
    pub track_type: TrackType,
    pub parent: Option<TrackType>,
}

#[verifier::ext_equal]
pub struct TrackView {
    pub name: Seq<char>,
    pub track_type: TrackTypeView,
    pub parent: Option<TrackTypeView>,
}

impl DeepView for Track {
    type V = TrackView;

    open spec fn deep_view(&self) -> TrackView {
        TrackView {
            name: self.name@,
            track_type: self.track_type.deep_view(),
            parent: self.parent.deep_view(),
        }
    }
}

/// A value of a counter.
pub struct StreamCounter {
    pub name: String,
    pub value: Quantity,
    pub timestamp: u64,
    pub track_id: TrackId,
    pub unit: Option<String>,
}

#[verifier::ext_equal]
pub struct StreamCounterView {
    pub name: Seq<char>,
    pub value: Quantity,
    pub timestamp: u64,
    pub track_id: TrackId,
    pub unit: Option<Seq<char>>,
}

impl DeepView for StreamCounter {
    type V = StreamCounterView;

    open spec fn deep_view(&self) -> StreamCounterView {
        StreamCounterView {
            name: self.name@,
            value: self.value,
            timestamp: self.timestamp,
            track_id: self.track_id,
            unit: self.unit.deep_view(),
        }
    }
}

/// Something that happened at a point in time.
pub struct StreamInstant {
    pub name: String,
    pub timestamp: u64,
    pub track_id: TrackId,
}

#[verifier::ext_equal]
pub struct StreamInstantView {
    pub name: Seq<char>,
    pub timestamp: u64,
    pub track_id: TrackId,
}

impl DeepView for StreamInstant {
    type V = StreamInstantView;

    open spec fn deep_view(&self) -> StreamInstantView {
        StreamInstantView {
            name: self.name@,
            timestamp: self.timestamp,
            track_id: self.track_id,
        }
    }
}

/// A report.
pub enum StreamEvent {
    Track(Track),
    Counter(StreamCounter),
    Instant(StreamInstant),
}

#[verifier::ext_equal]
pub enum StreamEventView {
    Track(TrackView),
    Counter(StreamCounterView),
    Instant(StreamInstantView),
}

impl DeepView for StreamEvent {
    type V = StreamEventView;

    open spec fn deep_view(&self) -> StreamEventView {
        match self {
            StreamEvent::Track(t) => StreamEventView::Track(t.deep_view()),
            StreamEvent::Counter(c) => StreamEventView::Counter(c.deep_view()),
            StreamEvent::Instant(i) => StreamEventView::Instant(i.deep_view()),
        }
    }
}

/// A report by itself, or one that belongs to a numbered stream.
pub enum Message {
    Event(StreamEvent),
    Stream { stream_id: u64, event: StreamEvent },
}

#[verifier::ext_equal]
pub enum MessageView {
    Event(StreamEventView),
    Stream { stream_id: u64, event: StreamEventView },
}

impl DeepView for Message {
    type V = MessageView;

    open spec fn deep_view(&self) -> MessageView {
        match self {
            Message::Event(e) => MessageView::Event(e.deep_view()),
            Message::Stream { stream_id, event } => MessageView::Stream {
                stream_id: *stream_id,
                event: event.deep_view(),
            },
        }
    }
}

/// Receives messages. What it answers is zero to go on, anything else to stop.
pub trait MessageSink: Sized {
    /// The messages that were received, oldest first. Each sink that is verified says which; code
    /// that is not verified has no need to.
    open spec fn log(&self) -> Seq<MessageView> {
        arbitrary()
    }

    /// The answers that were given, oldest first, one to each message.
    open spec fn answers(&self) -> Seq<i32> {
        arbitrary()
    }

    /// Receives a message.
    fn send(&mut self, message: Message) -> (answer: i32)
        ensures
            final(self).log() == old(self).log().push(message.deep_view()),
            final(self).answers() == old(self).answers().push(answer),
    ;
}

/// What went through a sink: the messages, and the answer to each.
#[verifier::ext_equal]
pub struct Exchange {
    pub log: Seq<MessageView>,
    pub answers: Seq<i32>,
}

impl Exchange {
    /// With one more message and the answer to it.
    pub open spec fn with(self, message: MessageView, answer: i32) -> Exchange {
        Exchange { log: self.log.push(message), answers: self.answers.push(answer) }
    }

    /// With more messages, each of which was answered to go on.
    pub open spec fn with_all(self, messages: Seq<MessageView>) -> Exchange {
        Exchange {
            log: self.log + messages,
            answers: self.answers + Seq::new(messages.len(), |i: int| 0i32),
        }
    }

    /// Whether all that was answered since `before` was to go on.
    pub open spec fn willing_since(self, before: Exchange) -> bool {
        forall|i: int|
            before.answers.len() <= i < self.answers.len() ==> #[trigger] self.answers[i] == 0
    }
}

/// What went through a sink so far.
pub open spec fn exchange<C: MessageSink>(sink: C) -> Exchange {
    Exchange { log: sink.log(), answers: sink.answers() }
}

/// Keeps messages in memory. It answers one message, given by its place, with a stop.
pub struct MessageBuffer {
    messages: Vec<Message>,
    stop_at: usize,
    stop: i32,
}

impl MessageBuffer {
    /// The place of the message that is answered with a stop.
    pub closed spec fn stop_place(self) -> nat {
        self.stop_at as nat
    }

    /// The answer to that message.
    pub closed spec fn stop_answer(self) -> i32 {
        self.stop
    }

    /// An empty buffer that answers the message at `stop_at` with `stop`.
    pub fn new(stop_at: usize, stop: i32) -> (b: MessageBuffer)
        ensures
            b.log() == Seq::<MessageView>::empty(),
            b.answers() == Seq::<i32>::empty(),
            b.stop_place() == stop_at,
            b.stop_answer() == stop,
    {
        let b = MessageBuffer { messages: Vec::new(), stop_at, stop };
        assert(b.log() =~= Seq::<MessageView>::empty());
        assert(b.answers() =~= Seq::<i32>::empty());
        b
    }

    /// The messages, oldest first.
    pub fn messages(&self) -> (m: &Vec<Message>)
        ensures
            m.deep_view() == self.log(),
    {
        &self.messages
    }
}

impl MessageSink for MessageBuffer {
    closed spec fn log(&self) -> Seq<MessageView> {
        self.messages.deep_view()
    }

    closed spec fn answers(&self) -> Seq<i32> {
        Seq::new(
            self.messages@.len(),
            |i: int|
                if i == self.stop_at {
                    self.stop
                } else {
                    0
                },
        )
    }

    fn send(&mut self, message: Message) -> (answer: i32)
        ensures
            answer == if old(self).log().len() == old(self).stop_place() {
                old(self).stop_answer()
            } else {
                0
            },
            final(self).stop_place() == old(self).stop_place(),
            final(self).stop_answer() == old(self).stop_answer(),
    {
        let at: usize = self.messages.len();
        self.messages.push(message);
        let answer: i32 = if at == self.stop_at {
            self.stop
        } else {
            0
        };
        assert(self.log() =~= old(self).log().push(message.deep_view()));
        assert(self.answers() =~= old(self).answers().push(answer));
        answer
    }
}

/// `messages` were sent one after the other, up to the first one that was answered with a stop.
/// `answer` is the answer to the last one that was sent.
pub open spec fn sent(
    before: Exchange,
    messages: Seq<MessageView>,
    answer: i32,
    after: Exchange,
) -> bool {
    if answer == 0 {
        after == before.with_all(messages)
    } else {
        exists|n: int| #[trigger] stopped_after(before, messages, n, answer, after)
    }
}

/// The first `n` of `messages` were sent, and the last of them, and no other, was answered with a
/// stop.
pub open spec fn stopped_after(
    before: Exchange,
    messages: Seq<MessageView>,
    n: int,
    answer: i32,
    after: Exchange,
) -> bool {
    &&& 0 < n <= messages.len()
    &&& after == before.with_all(messages.take(n - 1)).with(messages[n - 1], answer)
}

/// A sink that never stops receives all messages that are sent to it, and the answer is to go on.
pub proof fn willing_sink_receives_all(
    before: Exchange,
    messages: Seq<MessageView>,
    answer: i32,
    after: Exchange,
)
    requires
        sent(before, messages, answer, after),
        after.willing_since(before),
    ensures
        answer == 0,
        after == before.with_all(messages),
{
    if answer != 0 {
        let n = choose|n: int| #[trigger] stopped_after(before, messages, n, answer, after);
        assert(after.answers[before.answers.len() + n - 1] == answer);
    }
}

/// What went through a sink before stays, whatever is sent to it.
pub proof fn sent_extends(
    before: Exchange,
    messages: Seq<MessageView>,
    answer: i32,
    after: Exchange,
)
    requires
        sent(before, messages, answer, after),
    ensures
        before.log.is_prefix_of(after.log),
        before.answers.is_prefix_of(after.answers),
{
}

/// Nothing to send.
pub proof fn sent_nothing(before: Exchange)
    ensures
        sent(before, seq![], 0, before),
{
    assert(before.with_all(seq![]) =~= before);
}

/// One message was sent.
pub proof fn sent_one(before: Exchange, m: MessageView, answer: i32)
    ensures
        sent(before, seq![m], answer, before.with(m, answer)),
{
    if answer == 0 {
        assert(before.with_all(seq![m]) =~= before.with(m, answer));
    } else {
        assert(before.with_all(seq![m].take(0)) =~= before);
        assert(stopped_after(before, seq![m], 1, answer, before.with(m, answer)));
    }
}

/// What was stopped among the first messages was stopped among all of them.
pub proof fn sent_prefix(
    before: Exchange,
    a: Seq<MessageView>,
    b: Seq<MessageView>,
    answer: i32,
    after: Exchange,
)
    requires
        answer != 0,
        sent(before, a, answer, after),
    ensures
        sent(before, a + b, answer, after),
{
    let n = choose|n: int| #[trigger] stopped_after(before, a, n, answer, after);
    assert((a + b).take(n - 1) =~= a.take(n - 1));
    assert(stopped_after(before, a + b, n, answer, after));
}

/// More messages were sent after the first ones.
pub proof fn sent_both(
    before: Exchange,
    a: Seq<MessageView>,
    between: Exchange,
    b: Seq<MessageView>,
    answer: i32,
    after: Exchange,
)
    requires
        sent(before, a, 0, between),
        sent(between, b, answer, after),
    ensures
        sent(before, a + b, answer, after),
{
    if answer == 0 {
        assert(before.with_all(a + b) =~= before.with_all(a).with_all(b));
    } else {
        let n = choose|n: int| #[trigger] stopped_after(between, b, n, answer, after);
        assert((a + b).take(a.len() + n - 1) =~= a + b.take(n - 1));
        assert(before.with_all(a + b.take(n - 1)) =~= before.with_all(a).with_all(b.take(n - 1)));
        assert(stopped_after(before, a + b, a.len() + n, answer, after));
    }
}

} // verus!
