//! Where packets go.

use crate::perfetto::model::{TracePacket, TracePacketView};
use vstd::prelude::*;

verus! {

/// What a sink was asked for, and how it answered.
pub enum SinkCall<E> {
    /// To take a packet.
    Write { packet: TracePacketView, answer: Result<(), E> },
    /// To pass on what it still holds back.
    Flush { answer: Result<(), E> },
}

/// What became of a sink.
#[verifier::ext_equal]
pub struct History<E> {
    /// What the sink was asked for, oldest first.
    pub calls: Seq<SinkCall<E>>,
    /// The packets that it took, oldest first.
    pub log: Seq<TracePacketView>,
}

impl<E> History<E> {
    /// What becomes of the sink where it is asked to take `packet` and gives `answer`.
    pub open spec fn written(self, packet: TracePacketView, answer: Result<(), E>) -> History<E> {
        History {
            calls: self.calls.push(SinkCall::Write { packet, answer }),
            log: if answer is Ok {
                self.log.push(packet)
            } else {
                self.log
            },
        }
    }

    /// What becomes of the sink where it is asked to pass on what it holds back and gives
    /// `answer`.
    pub open spec fn flushed(self, answer: Result<(), E>) -> History<E> {
        History { calls: self.calls.push(SinkCall::Flush { answer }), log: self.log }
    }
}

/// What became of the sink `w`.
pub open spec fn history<W: PacketSink>(w: W) -> History<W::Error> {
    History { calls: w.calls(), log: w.log() }
}

/// The answer of a sink behind the result `r`.
pub open spec fn answer<T, E>(r: Result<T, E>) -> Result<(), E> {
    match r {
        Ok(_) => Ok(()),
        Err(e) => Err(e),
    }
}

/// Takes the packets of a trace, one after the other.
pub trait PacketSink: Sized {
    /// Why a packet was not taken.
    type Error;

    /// The packets that were taken, oldest first. Each sink that is verified says which; code that
    /// is not verified has no need to.
    open spec fn log(&self) -> Seq<TracePacketView> {
        arbitrary()
    }

    /// What the sink was asked for, oldest first, under the same terms.
    open spec fn calls(&self) -> Seq<SinkCall<Self::Error>> {
        arbitrary()
    }

    /// Takes `packet`, or tells why it could not.
    fn write_packet(&mut self, packet: TracePacket) -> (r: Result<(), Self::Error>)
        ensures
            r is Ok ==> final(self).log() == old(self).log().push(packet.deep_view()),
            r is Err ==> final(self).log() == old(self).log(),
            final(self).calls() == old(self).calls().push(
                SinkCall::Write { packet: packet.deep_view(), answer: r },
            ),
    ;

    /// Passes on what is still held back.
    fn flush(&mut self) -> (r: Result<(), Self::Error>)
        ensures
            final(self).log() == old(self).log(),
            final(self).calls() == old(self).calls().push(SinkCall::Flush { answer: r }),
    ;
}

/// A packet buffer is full.
pub struct BufferFull {}

/// Keeps packets in memory, up to a limit.
pub struct PacketBuffer {
    packets: Vec<TracePacket>,
    limit: usize,
    calls: Ghost<Seq<SinkCall<BufferFull>>>,
}

impl PacketBuffer {
    /// How many packets there is room for.
    pub closed spec fn limit(self) -> nat {
        self.limit as nat
    }

    /// An empty buffer for up to `limit` packets.
    pub fn new(limit: usize) -> (b: PacketBuffer)
        ensures
            b.log() == Seq::<TracePacketView>::empty(),
            b.calls() == Seq::<SinkCall<BufferFull>>::empty(),
            b.limit() == limit,
    {
        let packets: Vec<TracePacket> = Vec::new();
        let b = PacketBuffer { packets, limit, calls: Ghost(Seq::empty()) };
        assert(b.log() =~= Seq::<TracePacketView>::empty());
        b
    }

    /// The packets in the buffer, oldest first.
    pub fn packets(&self) -> (p: &Vec<TracePacket>)
        ensures
            p.deep_view() == self.log(),
    {
        &self.packets
    }
}

impl PacketSink for PacketBuffer {
    type Error = BufferFull;

    closed spec fn log(&self) -> Seq<TracePacketView> {
        self.packets.deep_view()
    }

    closed spec fn calls(&self) -> Seq<SinkCall<BufferFull>> {
        self.calls@
    }

    fn write_packet(&mut self, packet: TracePacket) -> (r: Result<(), BufferFull>)
        ensures
            r is Ok <==> old(self).log().len() < old(self).limit(),
            final(self).limit() == old(self).limit(),
    {
        let ghost view = packet.deep_view();
        let r: Result<(), BufferFull> = if self.packets.len() >= self.limit {
            Err(BufferFull {  })
        } else {
            self.packets.push(packet);
            assert(self.log() =~= old(self).log().push(view));
            Ok(())
        };
        self.calls = Ghost(self.calls@.push(SinkCall::Write { packet: view, answer: r }));
        r
    }

    fn flush(&mut self) -> (r: Result<(), BufferFull>)
        ensures
            r is Ok,
            final(self).limit() == old(self).limit(),
    {
        self.calls = Ghost(self.calls@.push(SinkCall::Flush { answer: Ok(()) }));
        Ok(())
    }
}

} // verus!
