//! What the reports on network traffic tell.

use crate::bpf::nettrack;
use crate::bpf::nettrack::{
    create_counters, CounterIds, NamedValue, NetEvent, NetStats, NetTrack, NetTrackView,
};
use crate::bpf::stream;
use crate::bpf::stream::{
    MessageSink, MessageView, Quantity, StreamEventView, TrackId, TrackTypeView,
};
use vstd::prelude::*;

verus! {

/// The bytes that `events` tell were sent over TCP.
pub open spec fn tcp_sent(events: Seq<NetEvent>) -> int
    decreases events.len(),
{
    if events.len() == 0 {
        0
    } else {
        tcp_sent(events.drop_last()) + events.last().tcp_send_bytes
    }
}

/// The bytes that `events` tell were received over TCP.
pub open spec fn tcp_received(events: Seq<NetEvent>) -> int
    decreases events.len(),
{
    if events.len() == 0 {
        0
    } else {
        tcp_received(events.drop_last()) + events.last().tcp_recv_bytes
    }
}

/// The bytes that `events` tell were sent over UDP.
pub open spec fn udp_sent(events: Seq<NetEvent>) -> int
    decreases events.len(),
{
    if events.len() == 0 {
        0
    } else {
        udp_sent(events.drop_last()) + events.last().udp_send_bytes
    }
}

/// The bytes that `events` tell were received over UDP.
pub open spec fn udp_received(events: Seq<NetEvent>) -> int
    decreases events.len(),
{
    if events.len() == 0 {
        0
    } else {
        udp_received(events.drop_last()) + events.last().udp_recv_bytes
    }
}

/// The traffic of `events`, and no other, was added up.
pub open spec fn adds_up(s: NetStats, events: Seq<NetEvent>) -> bool {
    &&& s.tcp_send_total == tcp_sent(events)
    &&& s.tcp_recv_total == tcp_received(events)
    &&& s.udp_send_total == udp_sent(events)
    &&& s.udp_recv_total == udp_received(events)
}

/// The traffic of `events` can be told.
pub open spec fn can_be_told(events: Seq<NetEvent>) -> bool {
    &&& tcp_sent(events) + udp_sent(events) <= u64::MAX
    &&& tcp_received(events) + udp_received(events) <= u64::MAX
}

/// A number of bytes, as a report of `t` at `timestamp` tells it: as it is, or as a rate over the
/// time since the last report, over a second where no time has passed.
pub open spec fn tells_bytes(t: NetTrackView, timestamp: u64, q: Quantity, bytes: int) -> bool {
    if t.scaled {
        q matches Quantity::BitRate { bytes: b, nanoseconds: ns } && b == bytes && ns == if timestamp
            > t.prev_timestamp {
            timestamp - t.prev_timestamp
        } else {
            1_000_000_000
        }
    } else {
        q matches Quantity::Count(b) && b == bytes
    }
}

/// The message tells a number of bytes under the name `name` on the track `id`.
pub open spec fn is_value(
    m: MessageView,
    t: NetTrackView,
    timestamp: u64,
    name: Seq<char>,
    id: u64,
    bytes: int,
) -> bool {
    m matches MessageView::Event(StreamEventView::Counter(c)) && {
        &&& c.name == name
        &&& c.track_id == (TrackId::Counter { id })
        &&& c.timestamp == timestamp
        &&& c.unit == Some(
            if t.scaled {
                "bits/s"@
            } else {
                "bytes"@
            },
        )
        &&& tells_bytes(t, timestamp, c.value, bytes)
    }
}

/// The message describes the track `id` under the name `name`.
pub open spec fn is_description(m: MessageView, t: NetTrackView, name: Seq<char>, id: u64) -> bool {
    m matches MessageView::Event(StreamEventView::Track(d)) && {
        &&& d.name == name
        &&& d.parent is None
        &&& d.track_type == (TrackTypeView::Counter {
            id,
            unit: Some(
                if t.scaled {
                    "bits/s"@
                } else {
                    "bytes"@
                },
            ),
        })
    }
}

/// The name of a value, as it is or as a rate.
pub open spec fn name_of(t: NetTrackView, plain: Seq<char>, rate: Seq<char>) -> Seq<char> {
    if t.scaled {
        rate
    } else {
        plain
    }
}

/// A number of bytes is told under a name on a track.
pub open spec fn tells(
    messages: Seq<MessageView>,
    t: NetTrackView,
    timestamp: u64,
    name: Seq<char>,
    id: u64,
    bytes: int,
) -> bool {
    exists|i: int|
        0 <= i < messages.len() && #[trigger] is_value(messages[i], t, timestamp, name, id, bytes)
}

/// A track is described under a name.
pub open spec fn describes(
    messages: Seq<MessageView>,
    t: NetTrackView,
    name: Seq<char>,
    id: u64,
) -> bool {
    exists|i: int|
        0 <= i < messages.len() && #[trigger] is_description(messages[i], t, name, id)
}

/// No two tracks have the same number.
pub open spec fn apart(ids: CounterIds) -> bool {
    let all = seq![
        ids.tcp_send,
        ids.tcp_recv,
        ids.udp_send,
        ids.udp_recv,
        ids.total_send,
        ids.total_recv,
    ];
    forall|i: int, j: int| 0 <= i < j < 6 ==> #[trigger] all[i] != #[trigger] all[j]
}

/// Each value is under its own name and with the number of its own track what was added up for
/// it, and the totals are the sums of the values for TCP and UDP.
pub proof fn values_tell_their_field(
    stats: &NetStats,
    ids: &CounterIds,
    nanoseconds: u64,
    v: Vec<(&'static str, Quantity, u64)>,
)
    requires
        call_ensures(create_counters, (stats, ids, false, nanoseconds), v),
        stats.tcp_send_total + stats.udp_send_total <= u64::MAX,
        stats.tcp_recv_total + stats.udp_recv_total <= u64::MAX,
    ensures
        v@.len() == 6,
        v@[0].0@ == "tcp_send"@ && v@[0].1 == Quantity::Count(stats.tcp_send_total) && v@[0].2
            == ids.tcp_send,
        v@[1].0@ == "tcp_recv"@ && v@[1].1 == Quantity::Count(stats.tcp_recv_total) && v@[1].2
            == ids.tcp_recv,
        v@[2].0@ == "udp_send"@ && v@[2].1 == Quantity::Count(stats.udp_send_total) && v@[2].2
            == ids.udp_send,
        v@[3].0@ == "udp_recv"@ && v@[3].1 == Quantity::Count(stats.udp_recv_total) && v@[3].2
            == ids.udp_recv,
        v@[4].0@ == "total_send"@ && v@[4].1->Count_0 == v@[0].1->Count_0 + v@[2].1->Count_0,
        v@[4].1 is Count && v@[4].2 == ids.total_send,
        v@[5].0@ == "total_recv"@ && v@[5].1->Count_0 == v@[1].1->Count_0 + v@[3].1->Count_0,
        v@[5].1 is Count && v@[5].2 == ids.total_recv,
{
    let all = nettrack::values_view(v@);
    assert forall|i: int| 0 <= i < v@.len() implies #[trigger] all[i] == (
        v@[i].0@,
        v@[i].1,
        v@[i].2,
    ) by {}
    assert(all.len() == v@.len());
    assert(all[0].2 == v@[0].2 && all[1].2 == v@[1].2 && all[2].2 == v@[2].2);
    assert(all[3].2 == v@[3].2 && all[4].2 == v@[4].2 && all[5].2 == v@[5].2);
}

/// As rates, the values are the same numbers of bytes over the given time, in the same order and
/// with the same tracks.
pub proof fn rates_tell_the_same_bytes(
    stats: &NetStats,
    ids: &CounterIds,
    nanoseconds: u64,
    plain: Vec<(&'static str, Quantity, u64)>,
    rates: Vec<(&'static str, Quantity, u64)>,
    i: int,
)
    requires
        call_ensures(create_counters, (stats, ids, false, nanoseconds), plain),
        call_ensures(create_counters, (stats, ids, true, nanoseconds), rates),
        stats.tcp_send_total + stats.udp_send_total <= u64::MAX,
        stats.tcp_recv_total + stats.udp_recv_total <= u64::MAX,
        0 <= i < 6,
    ensures
        rates@.len() == plain@.len(),
        rates@[i].2 == plain@[i].2,
        rates@[i].0@ == plain@[i].0@ + "_rate"@,
        rates@[i].1 == (Quantity::BitRate { bytes: plain@[i].1->Count_0, nanoseconds }),
{
    let all = nettrack::values_view(plain@);
    let scaled = nettrack::values_view(rates@);
    assert(all.len() == plain@.len() && scaled.len() == rates@.len());
    assert(all[i] == (plain@[i].0@, plain@[i].1, plain@[i].2));
    assert(scaled[i] == (rates@[i].0@, rates@[i].1, rates@[i].2));
    reveal_strlit("tcp_send");
    reveal_strlit("tcp_recv");
    reveal_strlit("udp_send");
    reveal_strlit("udp_recv");
    reveal_strlit("total_send");
    reveal_strlit("total_recv");
    reveal_strlit("tcp_send_rate");
    reveal_strlit("tcp_recv_rate");
    reveal_strlit("udp_send_rate");
    reveal_strlit("udp_recv_rate");
    reveal_strlit("total_send_rate");
    reveal_strlit("total_recv_rate");
    reveal_strlit("_rate");
    assert(rates@[i].0@ =~= plain@[i].0@ + "_rate"@);
}

proof fn more_events(events: Seq<NetEvent>, e: NetEvent)
    ensures
        tcp_sent(events.push(e)) == tcp_sent(events) + e.tcp_send_bytes,
        tcp_received(events.push(e)) == tcp_received(events) + e.tcp_recv_bytes,
        udp_sent(events.push(e)) == udp_sent(events) + e.udp_send_bytes,
        udp_received(events.push(e)) == udp_received(events) + e.udp_recv_bytes,
{
    assert(events.push(e).drop_last() =~= events);
}

/// While not all processors have reported, nothing is sent, and each event adds each kind of
/// traffic to that kind.
pub proof fn events_add_up<C: MessageSink>(
    t: &mut NetTrack,
    e: &NetEvent,
    c: &mut C,
    answer: i32,
    events: Seq<NetEvent>,
)
    requires
        call_ensures(NetTrack::on_event::<C>, (t, e, c), answer),
        adds_up(old(t)@.stats, events),
        can_be_told(events.push(*e)),
        old(t)@.boundaries + 1 != old(t)@.nprocs,
    ensures
        answer == 0,
        final(c).log() == old(c).log(),
        adds_up(final(t)@.stats, events.push(*e)),
        final(t)@.boundaries == old(t)@.boundaries + 1,
        final(t)@.prev_timestamp == old(t)@.prev_timestamp,
        final(t)@.submitted == old(t)@.submitted,
        final(t)@.ids == old(t)@.ids,
        final(t)@.scaled == old(t)@.scaled,
        final(t)@.nprocs == old(t)@.nprocs,
{
    more_events(events, *e);
    let exchanges = (stream::exchange(*old(c)), stream::exchange(*final(c)));
}

/// With the last processor all traffic of the round is told: under the name and on the track of
/// each kind of traffic the sum of that kind over the events of the round, and on those of the
/// totals the sums of both kinds. Then the next round begins with none.
#[verifier::spinoff_prover]
#[verifier::rlimit(40)]
pub proof fn round_is_told<C: MessageSink>(
    t: &mut NetTrack,
    e: &NetEvent,
    c: &mut C,
    answer: i32,
    events: Seq<NetEvent>,
)
    requires
        call_ensures(NetTrack::on_event::<C>, (t, e, c), answer),
        adds_up(old(t)@.stats, events),
        can_be_told(events.push(*e)),
        old(t)@.boundaries + 1 == old(t)@.nprocs,
        old(t)@.scaled ==> old(t)@.prev_timestamp > 0,
        answer == 0,
    ensures
        ({
            let before = old(t)@;
            let round = events.push(*e);
            let at = e.timestamp;
            let ids = before.ids;
            let n = old(c).log().len();
            let told = final(c).log().skip(n as int);
            &&& old(c).log().is_prefix_of(final(c).log())
            &&& tells(told, before, at, name_of(before, "tcp_send"@, "tcp_send_rate"@), ids.tcp_send, tcp_sent(round))
            &&& tells(
                told,
                before,
                at,
                name_of(before, "tcp_recv"@, "tcp_recv_rate"@),
                ids.tcp_recv,
                tcp_received(round),
            )
            &&& tells(told, before, at, name_of(before, "udp_send"@, "udp_send_rate"@), ids.udp_send, udp_sent(round))
            &&& tells(
                told,
                before,
                at,
                name_of(before, "udp_recv"@, "udp_recv_rate"@),
                ids.udp_recv,
                udp_received(round),
            )
            &&& tells(
                told,
                before,
                at,
                name_of(before, "total_send"@, "total_send_rate"@),
                ids.total_send,
                tcp_sent(round) + udp_sent(round),
            )
            &&& tells(
                told,
                before,
                at,
                name_of(before, "total_recv"@, "total_recv_rate"@),
                ids.total_recv,
                tcp_received(round) + udp_received(round),
            )
        }),
        adds_up(final(t)@.stats, seq![]),
        final(t)@.boundaries == 0,
        final(t)@.prev_timestamp == e.timestamp,
        final(t)@.ids == old(t)@.ids,
        final(t)@.scaled == old(t)@.scaled,
        final(t)@.nprocs == old(t)@.nprocs,
{
    more_events(events, *e);
    let counted = old(t)@.counted(*e);
    let vs = counted.values();
    let unit = nettrack::unit_spec(counted.scaled);
    let before = stream::exchange(*old(c));
    let after = stream::exchange(*final(c));
    let sent = nettrack::report_messages(counted.submitted, vs, unit, e.timestamp, 6);
    assert(vs.len() == 6);
    assert(after == before.with_all(sent));
    assert(final(c).log() == old(c).log() + sent);
    assert(final(c).log().skip(old(c).log().len() as int) =~= sent);
    value_is_told(old(t)@, *e, 0, tcp_sent(events.push(*e)));
    value_is_told(old(t)@, *e, 1, tcp_received(events.push(*e)));
    value_is_told(old(t)@, *e, 2, udp_sent(events.push(*e)));
    value_is_told(old(t)@, *e, 3, udp_received(events.push(*e)));
    value_is_told(
        old(t)@,
        *e,
        4,
        tcp_sent(events.push(*e)) + udp_sent(events.push(*e)),
    );
    value_is_told(
        old(t)@,
        *e,
        5,
        tcp_received(events.push(*e)) + udp_received(events.push(*e)),
    );
}

/// Before a value is told for the first time, its track is described under the name of the value.
#[verifier::spinoff_prover]
#[verifier::rlimit(40)]
pub proof fn tracks_are_described<C: MessageSink>(
    t: &mut NetTrack,
    e: &NetEvent,
    c: &mut C,
)
    requires
        call_ensures(NetTrack::on_event::<C>, (t, e, c), 0i32),
        old(t)@.boundaries + 1 == old(t)@.nprocs,
        old(t)@.scaled ==> old(t)@.prev_timestamp > 0,
        old(t)@.submitted == Set::<u64>::empty(),
        apart(old(t)@.ids),
    ensures
        ({
            let before = old(t)@;
            let ids = before.ids;
            let n = old(c).log().len();
            let told = final(c).log().skip(n as int);
            &&& describes(told, before, name_of(before, "tcp_send"@, "tcp_send_rate"@), ids.tcp_send)
            &&& describes(told, before, name_of(before, "tcp_recv"@, "tcp_recv_rate"@), ids.tcp_recv)
            &&& describes(told, before, name_of(before, "udp_send"@, "udp_send_rate"@), ids.udp_send)
            &&& describes(told, before, name_of(before, "udp_recv"@, "udp_recv_rate"@), ids.udp_recv)
            &&& describes(told, before, name_of(before, "total_send"@, "total_send_rate"@), ids.total_send)
            &&& describes(told, before, name_of(before, "total_recv"@, "total_recv_rate"@), ids.total_recv)
        }),
{
    let counted = old(t)@.counted(*e);
    let vs = counted.values();
    let unit = nettrack::unit_spec(counted.scaled);
    let before = stream::exchange(*old(c));
    let after = stream::exchange(*final(c));
    let sent = nettrack::report_messages(counted.submitted, vs, unit, e.timestamp, 6);
    let ids = old(t)@.ids;
    let all = seq![
        ids.tcp_send,
        ids.tcp_recv,
        ids.udp_send,
        ids.udp_recv,
        ids.total_send,
        ids.total_recv,
    ];
    assert(vs.len() == 6);
    assert(after == before.with_all(sent));
    assert(final(c).log().skip(old(c).log().len() as int) =~= sent);
    assert forall|i: int, j: int| 0 <= i < j < 6 implies (#[trigger] vs[i]).2 != (#[trigger] vs[
        j]).2 by {
        assert(all[i] == vs[i].2 && all[j] == vs[j].2);
        assert(all[i] != all[j]);
    }
    nettrack::first_report_describes_tracks(counted.submitted, vs, unit, e.timestamp, 6);
    assert(is_description(sent[0], old(t)@, vs[0].0, vs[0].2));
    assert(is_description(sent[2], old(t)@, vs[1].0, vs[1].2));
    assert(is_description(sent[4], old(t)@, vs[2].0, vs[2].2));
    assert(is_description(sent[6], old(t)@, vs[3].0, vs[3].2));
    assert(is_description(sent[8], old(t)@, vs[4].0, vs[4].2));
    assert(is_description(sent[10], old(t)@, vs[5].0, vs[5].2));
}

/// A report that is stopped loses no traffic: it stays, with that of the last event, for the next
/// report, which tells rates over the time since the last one that was not stopped.
pub proof fn stopped_report_keeps_traffic<C: MessageSink>(
    t: &mut NetTrack,
    e: &NetEvent,
    c: &mut C,
    answer: i32,
    events: Seq<NetEvent>,
)
    requires
        call_ensures(NetTrack::on_event::<C>, (t, e, c), answer),
        adds_up(old(t)@.stats, events),
        can_be_told(events.push(*e)),
        answer != 0,
    ensures
        old(t)@.boundaries + 1 == old(t)@.nprocs,
        adds_up(final(t)@.stats, events.push(*e)),
        final(t)@.boundaries == 0,
        final(t)@.prev_timestamp == old(t)@.prev_timestamp,
{
    more_events(events, *e);
    let exchanges = (stream::exchange(*old(c)), stream::exchange(*final(c)));
}

/// The first round of rates is not told: it only gives the time that the next one is measured
/// from.
pub proof fn first_round_of_rates_is_not_told<C: MessageSink>(
    t: &mut NetTrack,
    e: &NetEvent,
    c: &mut C,
    answer: i32,
)
    requires
        call_ensures(NetTrack::on_event::<C>, (t, e, c), answer),
        old(t)@.boundaries + 1 == old(t)@.nprocs,
        old(t)@.scaled,
        old(t)@.prev_timestamp == 0,
    ensures
        answer == 0,
        final(c).log() == old(c).log(),
        adds_up(final(t)@.stats, seq![]),
        final(t)@.boundaries == 0,
        final(t)@.prev_timestamp == e.timestamp,
{
    let exchanges = (stream::exchange(*old(c)), stream::exchange(*final(c)));
}

proof fn value_is_told(t: NetTrackView, e: NetEvent, k: int, bytes: int)
    requires
        0 <= k < 6,
        t.scaled ==> t.prev_timestamp > 0,
        ({
            let q = t.counted(e).values()[k].1;
            if t.scaled {
                q matches Quantity::BitRate { bytes: b, nanoseconds: ns } && b == bytes
            } else {
                q matches Quantity::Count(b) && b == bytes
            }
        }),
    ensures
        ({
            let counted = t.counted(e);
            let vs = counted.values();
            tells(
                nettrack::report_messages(
                    counted.submitted,
                    vs,
                    nettrack::unit_spec(counted.scaled),
                    e.timestamp,
                    6,
                ),
                t,
                e.timestamp,
                vs[k].0,
                vs[k].2,
                bytes,
            )
        }),
{
    let counted = t.counted(e);
    let vs = counted.values();
    let unit = nettrack::unit_spec(counted.scaled);
    value_is_sent(counted.submitted, vs, unit, e.timestamp, 6, k);
    let sent = nettrack::report_messages(counted.submitted, vs, unit, e.timestamp, 6);
    let i = choose|i: int|
        0 <= i < sent.len() && #[trigger] sent[i] == nettrack::counter_of(
            vs[k],
            unit,
            e.timestamp,
        );
    assert(is_value(sent[i], t, e.timestamp, vs[k].0, vs[k].2, bytes));
}

proof fn value_is_sent(
    submitted: Set<u64>,
    values: Seq<NamedValue>,
    unit: Seq<char>,
    timestamp: u64,
    n: int,
    k: int,
)
    requires
        0 <= k < n <= values.len(),
    ensures
        exists|i: int|
            0 <= i < nettrack::report_messages(submitted, values, unit, timestamp, n).len()
                && #[trigger] nettrack::report_messages(submitted, values, unit, timestamp, n)[i]
                == nettrack::counter_of(values[k], unit, timestamp),
    decreases n,
{
    let sent = nettrack::report_messages(submitted, values, unit, timestamp, n);
    if k == n - 1 {
        assert(sent.last() == nettrack::counter_of(values[k], unit, timestamp));
        assert(sent[sent.len() - 1] == nettrack::counter_of(values[k], unit, timestamp));
    } else {
        value_is_sent(submitted, values, unit, timestamp, n - 1, k);
        let before = nettrack::report_messages(submitted, values, unit, timestamp, n - 1);
        let i = choose|i: int|
            0 <= i < before.len() && #[trigger] before[i] == nettrack::counter_of(
                values[k],
                unit,
                timestamp,
            );
        assert(sent[i] == before[i]);
    }
}

/// There is room for an event where both sums of traffic can still be told with it.
pub proof fn room_is_for_both_sums(t: &NetTrack, e: &NetEvent, b: bool, events: Seq<NetEvent>)
    requires
        call_ensures(NetTrack::has_room, (t, e), b),
        adds_up(t@.stats, events),
        t@.boundaries < usize::MAX,
    ensures
        b <==> can_be_told(events.push(*e)),
{
    more_events(events, *e);
}

} // verus!
