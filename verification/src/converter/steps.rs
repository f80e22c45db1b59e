//! Writing several packets where each write may fail.
//!
//! What a conversion writes is a sequence of steps. It ends after the last one, or at the first
//! one whose packet is not taken.

use crate::perfetto::model::TracePacketView;
use crate::perfetto::sink::{History, SinkCall};
use crate::perfetto::writer::Counters;
use vstd::prelude::*;

verus! {

/// The tracks that a trace has so far.
#[verifier::ext_equal]
pub struct Tracks {
    /// The tracks of the processes, by process.
    pub processes: Map<i32, u64>,
    /// The tracks of the threads, by process and thread.
    pub threads: Map<(i32, i32), u64>,
    /// The tracks of the counters, by `counter_key`.
    pub counters: Map<Seq<char>, u64>,
    /// The numbers that were handed out.
    pub numbers: Counters,
}

/// One packet to write.
pub struct Step {
    /// The tracks where the packet is not taken.
    pub failed: Tracks,
    /// The packet.
    pub packet: TracePacketView,
    /// The tracks where the packet is taken.
    pub done: Tracks,
}

/// The packets of `steps`.
pub open spec fn packets(steps: Seq<Step>) -> Seq<TracePacketView> {
    Seq::new(steps.len(), |i: int| steps[i].packet)
}

/// The tracks after all of `steps`.
pub open spec fn end(tracks: Tracks, steps: Seq<Step>) -> Tracks {
    if steps.len() == 0 {
        tracks
    } else {
        steps.last().done
    }
}

/// A sink that was asked to take the packets of `steps` and took them all.
pub open spec fn taken<E>(h: History<E>, steps: Seq<Step>) -> History<E> {
    History {
        calls: h.calls + Seq::new(
            steps.len(),
            |i: int| SinkCall::Write { packet: steps[i].packet, answer: Ok(()) },
        ),
        log: h.log + packets(steps),
    }
}

/// The packets before step `n` were taken, the one of step `n` was refused because of `e`, and
/// the sink was asked for nothing else.
pub open spec fn stopped_at<E>(
    h: History<E>,
    steps: Seq<Step>,
    n: int,
    e: E,
    after: History<E>,
    tracks_after: Tracks,
) -> bool {
    &&& 0 <= n < steps.len()
    &&& after == taken(h, steps.take(n)).written(steps[n].packet, Err(e))
    &&& tracks_after == steps[n].failed
}

/// `steps` were run: the sink was asked to take their packets, one after the other, and took all
/// of them where `r` is `Ok`, else all up to one that it refused, with the error that `r` holds.
pub open spec fn ran<E>(
    h: History<E>,
    tracks: Tracks,
    steps: Seq<Step>,
    r: Result<(), E>,
    after: History<E>,
    tracks_after: Tracks,
) -> bool {
    match r {
        Ok(_) => after == taken(h, steps) && tracks_after == end(tracks, steps),
        Err(e) => exists|n: int| stopped_at(h, steps, n, e, after, tracks_after),
    }
}

/// Nothing to run.
pub proof fn ran_nothing<E>(h: History<E>, tracks: Tracks)
    ensures
        ran(h, tracks, seq![], Ok(()), h, tracks),
{
    assert(taken(h, seq![]) =~= h);
}

/// One step was run.
pub proof fn ran_one<E>(
    h: History<E>,
    tracks: Tracks,
    step: Step,
    r: Result<(), E>,
    after: History<E>,
    tracks_after: Tracks,
)
    requires
        after == h.written(step.packet, r),
        tracks_after == if r is Ok {
            step.done
        } else {
            step.failed
        },
    ensures
        ran(h, tracks, seq![step], r, after, tracks_after),
{
    let steps = seq![step];
    match r {
        Ok(u) => {
            assert(u == ());
            assert(taken(h, steps) =~= after);
        },
        Err(e) => {
            assert(taken(h, steps.take(0)) =~= h);
            assert(stopped_at(h, steps, 0, e, after, tracks_after));
        },
    }
}

/// What stopped in a first part has stopped in the whole.
pub proof fn ran_prefix<E>(
    h: History<E>,
    tracks: Tracks,
    a: Seq<Step>,
    b: Seq<Step>,
    e: E,
    after: History<E>,
    tracks_after: Tracks,
)
    requires
        ran(h, tracks, a, Err(e), after, tracks_after),
    ensures
        ran(h, tracks, a + b, Err(e), after, tracks_after),
{
    let n = choose|n: int| stopped_at(h, a, n, e, after, tracks_after);
    assert((a + b).take(n) =~= a.take(n));
    assert(stopped_at(h, a + b, n, e, after, tracks_after));
}

/// A second part was run after a first one.
pub proof fn ran_both<E>(
    h: History<E>,
    tracks: Tracks,
    a: Seq<Step>,
    between: History<E>,
    tracks_between: Tracks,
    b: Seq<Step>,
    r: Result<(), E>,
    after: History<E>,
    tracks_after: Tracks,
)
    requires
        ran(h, tracks, a, Ok(()), between, tracks_between),
        ran(between, tracks_between, b, r, after, tracks_after),
    ensures
        ran(h, tracks, a + b, r, after, tracks_after),
{
    match r {
        Ok(_) => {
            assert(taken(h, a + b) =~= taken(between, b));
        },
        Err(e) => {
            let n = choose|n: int| stopped_at(between, b, n, e, after, tracks_after);
            assert((a + b).take(a.len() + n) =~= a + b.take(n));
            assert(taken(h, a + b.take(n)) =~= taken(between, b.take(n)));
            assert(stopped_at(h, a + b, a.len() + n, e, after, tracks_after));
        },
    }
}

/// Whatever came of it, what was in the log stays there, and nothing but packets of the steps, in
/// their order, was added to it.
pub proof fn ran_extends_log<E>(
    h: History<E>,
    tracks: Tracks,
    steps: Seq<Step>,
    r: Result<(), E>,
    after: History<E>,
    tracks_after: Tracks,
)
    requires
        ran(h, tracks, steps, r, after, tracks_after),
    ensures
        h.log.is_prefix_of(after.log),
        after.log.is_prefix_of(h.log + packets(steps)),
        r is Ok <==> after.log.len() == h.log.len() + steps.len(),
{
    if let Err(e) = r {
        let n = choose|n: int| stopped_at(h, steps, n, e, after, tracks_after);
        assert(after.log =~= (h.log + packets(steps)).take(h.log.len() + n));
    }
}

} // verus!
