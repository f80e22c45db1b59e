//! Network traffic, summed up over all processors.

use crate::bpf::stream;
use crate::bpf::stream::{
    Exchange, Message, MessageSink, MessageView, Quantity, StreamCounter, StreamCounterView, StreamEvent,
    StreamEventView, Track, TrackId, TrackType, TrackTypeView, TrackView,
};
use std::collections::HashSet;
use vstd::prelude::*;
use vstd::string::*;

verus! {

broadcast use vstd::std_specs::hash::group_hash_axioms;

/// How network traffic is measured.
#[derive(Debug, Clone, Copy, PartialEq, Eq, Structural)]
pub struct NetTrackConfig {
    pub frequency: u64,
    pub ringbuf: usize,
    pub scaled: bool,
}

/// How often network traffic is measured where nothing else is asked for.
pub fn default_frequency() -> (f: u64)
    ensures
        f == 9,
{
    9
}

/// Bytes of the buffer for network traffic where nothing else is asked for.
pub fn default_ringbuf_size() -> (n: usize)
    ensures
        n == 1048576,
{
    1024 * 1024
}

/// What the BPF program reports: the traffic of one processor.
#[derive(Debug, Clone, Copy, PartialEq, Eq, Structural)]
pub struct NetEvent {
    pub timestamp: u64,
    pub tcp_send_bytes: u64,
    pub tcp_recv_bytes: u64,
    pub udp_send_bytes: u64,
    pub udp_recv_bytes: u64,
    pub total_send_bytes: u64,
    pub total_recv_bytes: u64,
    pub cpu: u32,
}

/// The numbers of the tracks.
#[derive(Debug, Clone, Copy, PartialEq, Eq, Structural)]
pub struct CounterIds {
    pub tcp_send: u64,
    pub tcp_recv: u64,
    pub udp_send: u64,
    pub udp_recv: u64,
    pub total_send: u64,
    pub total_recv: u64,
}

/// Calls `rand::Rng::gen` on `rand::thread_rng`: some number, nothing is known of it.
#[verifier::external_body]
fn random_number() -> (n: u64) {
    rand::Rng::gen::<u64>(&mut rand::thread_rng())
}

impl CounterIds {
    /// Random numbers for the tracks.
    pub fn new() -> (ids: CounterIds) {
        CounterIds {
            tcp_send: random_number(),
            tcp_recv: random_number(),
            udp_send: random_number(),
            udp_recv: random_number(),
            total_send: random_number(),
            total_recv: random_number(),
        }
    }
}

/// Traffic that was added up.
#[derive(Debug, Clone, Copy, PartialEq, Eq, Structural)]
pub struct NetStats {
    pub tcp_send_total: u64,
    pub tcp_recv_total: u64,
    pub udp_send_total: u64,
    pub udp_recv_total: u64,
    pub last_timestamp: u64,
}

impl NetStats {
    /// The sums do not overflow where `e` is added.
    pub open spec fn fits(self, e: NetEvent) -> bool {
        &&& self.tcp_send_total + e.tcp_send_bytes + self.udp_send_total + e.udp_send_bytes
            <= u64::MAX
        &&& self.tcp_recv_total + e.tcp_recv_bytes + self.udp_recv_total + e.udp_recv_bytes
            <= u64::MAX
    }

    /// The traffic once that of `e` is added.
    pub open spec fn with(self, e: NetEvent) -> NetStats {
        NetStats {
            tcp_send_total: (self.tcp_send_total + e.tcp_send_bytes) as u64,
            tcp_recv_total: (self.tcp_recv_total + e.tcp_recv_bytes) as u64,
            udp_send_total: (self.udp_send_total + e.udp_send_bytes) as u64,
            udp_recv_total: (self.udp_recv_total + e.udp_recv_bytes) as u64,
            last_timestamp: e.timestamp,
        }
    }

    /// No traffic, with the same time.
    pub open spec fn emptied(self) -> NetStats {
        NetStats {
            tcp_send_total: 0,
            tcp_recv_total: 0,
            udp_send_total: 0,
            udp_recv_total: 0,
            ..self
        }
    }

    /// Adds the traffic of `event`.
    pub fn accumulate(&mut self, event: &NetEvent)
        requires
            old(self).tcp_send_total + event.tcp_send_bytes <= u64::MAX,
            old(self).tcp_recv_total + event.tcp_recv_bytes <= u64::MAX,
            old(self).udp_send_total + event.udp_send_bytes <= u64::MAX,
            old(self).udp_recv_total + event.udp_recv_bytes <= u64::MAX,
        ensures
            *final(self) == old(self).with(*event),
    {
        self.tcp_send_total = self.tcp_send_total + event.tcp_send_bytes;
        self.tcp_recv_total = self.tcp_recv_total + event.tcp_recv_bytes;
        self.udp_send_total = self.udp_send_total + event.udp_send_bytes;
        self.udp_recv_total = self.udp_recv_total + event.udp_recv_bytes;
        self.last_timestamp = event.timestamp;
    }

    /// Starts over with no traffic.
    pub fn reset(&mut self)
        ensures
            *final(self) == old(self).emptied(),
    {
        self.tcp_send_total = 0;
        self.tcp_recv_total = 0;
        self.udp_send_total = 0;
        self.udp_recv_total = 0;
    }

    /// All that was sent.
    pub fn total_send(&self) -> (n: u64)
        requires
            self.tcp_send_total + self.udp_send_total <= u64::MAX,
        ensures
            n == self.tcp_send_total + self.udp_send_total,
    {
        self.tcp_send_total + self.udp_send_total
    }

    /// All that was received.
    pub fn total_recv(&self) -> (n: u64)
        requires
            self.tcp_recv_total + self.udp_recv_total <= u64::MAX,
        ensures
            n == self.tcp_recv_total + self.udp_recv_total,
    {
        self.tcp_recv_total + self.udp_recv_total
    }
}

impl Default for NetStats {
    fn default() -> (s: NetStats)
        ensures
            s == (NetStats {
                tcp_send_total: 0,
                tcp_recv_total: 0,
                udp_send_total: 0,
                udp_recv_total: 0,
                last_timestamp: 0,
            }),
    {
        NetStats {
            tcp_send_total: 0,
            tcp_recv_total: 0,
            udp_send_total: 0,
            udp_recv_total: 0,
            last_timestamp: 0,
        }
    }
}

/// A value to report: its name, the quantity, and the number of its track.
pub type NamedValue = (Seq<char>, Quantity, u64);

/// A number of bytes, as it is reported: as a rate over `nanoseconds`, where `scaled` holds.
pub open spec fn quantity(bytes: u64, scaled: bool, nanoseconds: u64) -> Quantity {
    if scaled {
        Quantity::BitRate { bytes, nanoseconds }
    } else {
        Quantity::Count(bytes)
    }
}

/// A value to report.
pub open spec fn named(
    plain: Seq<char>,
    rate: Seq<char>,
    bytes: int,
    scaled: bool,
    nanoseconds: u64,
    id: u64,
) -> NamedValue {
    (
        if scaled {
            rate
        } else {
            plain
        },
        quantity(bytes as u64, scaled, nanoseconds),
        id,
    )
}

/// The values to report, as bytes or as rates over `nanoseconds`.
pub open spec fn counters_spec(
    s: NetStats,
    ids: CounterIds,
    scaled: bool,
    nanoseconds: u64,
) -> Seq<NamedValue> {
    seq![
        named("tcp_send"@, "tcp_send_rate"@, s.tcp_send_total as int, scaled, nanoseconds, ids.tcp_send),
        named("tcp_recv"@, "tcp_recv_rate"@, s.tcp_recv_total as int, scaled, nanoseconds, ids.tcp_recv),
        named("udp_send"@, "udp_send_rate"@, s.udp_send_total as int, scaled, nanoseconds, ids.udp_send),
        named("udp_recv"@, "udp_recv_rate"@, s.udp_recv_total as int, scaled, nanoseconds, ids.udp_recv),
        named(
            "total_send"@,
            "total_send_rate"@,
            s.tcp_send_total + s.udp_send_total,
            scaled,
            nanoseconds,
            ids.total_send,
        ),
        named(
            "total_recv"@,
            "total_recv_rate"@,
            s.tcp_recv_total + s.udp_recv_total,
            scaled,
            nanoseconds,
            ids.total_recv,
        ),
    ]
}

/// The unit of the values.
pub open spec fn unit_spec(scaled: bool) -> Seq<char> {
    if scaled {
        "bits/s"@
    } else {
        "bytes"@
    }
}

/// What a list of values says.
pub open spec fn values_view(v: Seq<(&'static str, Quantity, u64)>) -> Seq<NamedValue> {
    Seq::new(v.len(), |i: int| (v[i].0@, v[i].1, v[i].2))
}

/// One value to report.
fn one(
    plain: &'static str,
    rate: &'static str,
    bytes: u64,
    scaled: bool,
    nanoseconds: u64,
    id: u64,
) -> (v: (&'static str, Quantity, u64))
    ensures
        (v.0@, v.1, v.2) == named(plain@, rate@, bytes as int, scaled, nanoseconds, id),
{
    if scaled {
        (rate, Quantity::BitRate { bytes, nanoseconds }, id)
    } else {
        (plain, Quantity::Count(bytes), id)
    }
}

/// The values to report, as bytes or as rates over `nanoseconds`.
pub fn create_counters(
    stats: &NetStats,
    ids: &CounterIds,
    scaled: bool,
    nanoseconds: u64,
) -> (v: Vec<(&'static str, Quantity, u64)>)
    requires
        stats.tcp_send_total + stats.udp_send_total <= u64::MAX,
        stats.tcp_recv_total + stats.udp_recv_total <= u64::MAX,
    ensures
        values_view(v@) == counters_spec(*stats, *ids, scaled, nanoseconds),
{
    let mut v: Vec<(&'static str, Quantity, u64)> = Vec::new();
    v.push(one("tcp_send", "tcp_send_rate", stats.tcp_send_total, scaled, nanoseconds, ids.tcp_send));
    v.push(one("tcp_recv", "tcp_recv_rate", stats.tcp_recv_total, scaled, nanoseconds, ids.tcp_recv));
    v.push(one("udp_send", "udp_send_rate", stats.udp_send_total, scaled, nanoseconds, ids.udp_send));
    v.push(one("udp_recv", "udp_recv_rate", stats.udp_recv_total, scaled, nanoseconds, ids.udp_recv));
    v.push(
        one("total_send", "total_send_rate", stats.total_send(), scaled, nanoseconds, ids.total_send),
    );
    v.push(
        one("total_recv", "total_recv_rate", stats.total_recv(), scaled, nanoseconds, ids.total_recv),
    );
    assert(values_view(v@) =~= counters_spec(*stats, *ids, scaled, nanoseconds));
    v
}

/// The message that describes the track of a value.
pub open spec fn track_of(v: NamedValue, unit: Seq<char>) -> MessageView {
    MessageView::Event(
        StreamEventView::Track(
            TrackView {
                name: v.0,
                track_type: TrackTypeView::Counter { id: v.2, unit: Some(unit) },
                parent: None,
            },
        ),
    )
}

/// The message with a value.
pub open spec fn counter_of(v: NamedValue, unit: Seq<char>, timestamp: u64) -> MessageView {
    MessageView::Event(
        StreamEventView::Counter(
            StreamCounterView {
                name: v.0,
                value: v.1,
                timestamp,
                track_id: TrackId::Counter { id: v.2 },
                unit: Some(unit),
            },
        ),
    )
}

/// The messages that report a value: its track first, where that was not described yet.
pub open spec fn value_messages(
    submitted: Set<u64>,
    v: NamedValue,
    unit: Seq<char>,
    timestamp: u64,
) -> Seq<MessageView> {
    if submitted.contains(v.2) {
        seq![counter_of(v, unit, timestamp)]
    } else {
        seq![track_of(v, unit), counter_of(v, unit, timestamp)]
    }
}

/// The tracks that count as described after the first `n` values.
pub open spec fn submitted_after(submitted: Set<u64>, values: Seq<NamedValue>, n: int) -> Set<u64>
    decreases n,
{
    if n <= 0 {
        submitted
    } else {
        submitted_after(submitted, values, n - 1).insert(values[n - 1].2)
    }
}

/// The messages that report the first `n` values.
pub open spec fn report_messages(
    submitted: Set<u64>,
    values: Seq<NamedValue>,
    unit: Seq<char>,
    timestamp: u64,
    n: int,
) -> Seq<MessageView>
    decreases n,
{
    if n <= 0 {
        seq![]
    } else {
        report_messages(submitted, values, unit, timestamp, n - 1) + value_messages(
            submitted_after(submitted, values, n - 1),
            values[n - 1],
            unit,
            timestamp,
        )
    }
}

/// Reporting was stopped at the value `k`: those before it were reported, and its track counts
/// as described.
pub open spec fn stopped_in(
    before: Exchange,
    submitted: Set<u64>,
    values: Seq<NamedValue>,
    unit: Seq<char>,
    timestamp: u64,
    k: int,
    answer: i32,
    after: Exchange,
    submitted_now: Set<u64>,
) -> bool {
    &&& 0 <= k < values.len()
    &&& stream::sent(
        before.with_all(report_messages(submitted, values, unit, timestamp, k)),
        value_messages(submitted_after(submitted, values, k), values[k], unit, timestamp),
        answer,
        after,
    )
    &&& submitted_now == submitted_after(submitted, values, k + 1)
}

/// The values were reported: all of them where the answer is zero, else up to a stop.
pub open spec fn reported(
    before: Exchange,
    submitted: Set<u64>,
    values: Seq<NamedValue>,
    unit: Seq<char>,
    timestamp: u64,
    answer: i32,
    after: Exchange,
    submitted_now: Set<u64>,
) -> bool {
    if answer == 0 {
        &&& after == before.with_all(
            report_messages(submitted, values, unit, timestamp, values.len() as int),
        )
        &&& submitted_now == submitted_after(submitted, values, values.len() as int)
    } else {
        exists|k: int| #[trigger]
            stopped_in(
                before,
                submitted,
                values,
                unit,
                timestamp,
                k,
                answer,
                after,
                submitted_now,
            )
    }
}

/// The state between two reports.
#[verifier::ext_equal]
pub struct NetTrackView {
    pub stats: NetStats,
    /// How many processors have reported since the last report.
    pub boundaries: nat,
    /// The time of the last report; zero before the first.
    pub prev_timestamp: u64,
    /// The tracks that were described.
    pub submitted: Set<u64>,
    pub ids: CounterIds,
    pub scaled: bool,
    pub nprocs: nat,
}

impl NetTrackView {
    /// The time that rates refer to: that between the reports, or a second where none has
    /// passed.
    pub open spec fn rate_time(self) -> u64 {
        if self.scaled && self.prev_timestamp > 0 && self.stats.last_timestamp
            > self.prev_timestamp {
            (self.stats.last_timestamp - self.prev_timestamp) as u64
        } else {
            1_000_000_000
        }
    }

    /// The values to report.
    pub open spec fn values(self) -> Seq<NamedValue> {
        counters_spec(self.stats, self.ids, self.scaled, self.rate_time())
    }

    /// With the traffic of `e` added.
    pub open spec fn counted(self, e: NetEvent) -> NetTrackView {
        NetTrackView {
            stats: self.stats.with(e),
            boundaries: if self.boundaries + 1 == self.nprocs {
                0
            } else {
                self.boundaries + 1
            },
            ..self
        }
    }

    /// Whether all processors have reported with `e`.
    pub open spec fn complete(self) -> bool {
        self.boundaries + 1 == self.nprocs
    }

    /// Whether a report is only the start of the first interval: rates need a time before.
    pub open spec fn first_of_rates(self) -> bool {
        self.scaled && self.prev_timestamp == 0
    }

    /// Whether a report falls due with `e`.
    pub open spec fn reports(self, e: NetEvent) -> bool {
        self.complete() && !self.counted(e).first_of_rates()
    }

    /// What is sent for `e` to a sink that never stops.
    pub open spec fn messages(self, e: NetEvent) -> Seq<MessageView> {
        let counted = self.counted(e);
        if self.reports(e) {
            report_messages(
                counted.submitted,
                counted.values(),
                unit_spec(counted.scaled),
                e.timestamp,
                counted.values().len() as int,
            )
        } else {
            seq![]
        }
    }

    /// The state after `e`, with a sink that never stops.
    pub open spec fn next(self, e: NetEvent) -> NetTrackView {
        let counted = self.counted(e);
        if !self.complete() {
            counted
        } else if counted.first_of_rates() {
            counted.restarted()
        } else {
            NetTrackView {
                submitted: submitted_after(
                    counted.submitted,
                    counted.values(),
                    counted.values().len() as int,
                ),
                ..counted.restarted()
            }
        }
    }

    /// The state after all `events`, with a sink that never stops.
    pub open spec fn next_all(self, events: Seq<NetEvent>) -> NetTrackView
        decreases events.len(),
    {
        if events.len() == 0 {
            self
        } else {
            self.next_all(events.drop_last()).next(events.last())
        }
    }

    /// What is sent for all `events` to a sink that never stops.
    pub open spec fn messages_all(self, events: Seq<NetEvent>) -> Seq<MessageView>
        decreases events.len(),
    {
        if events.len() == 0 {
            seq![]
        } else {
            self.messages_all(events.drop_last()) + self.next_all(events.drop_last()).messages(
                events.last(),
            )
        }
    }

    /// Ready for the next interval.
    pub open spec fn restarted(self) -> NetTrackView {
        NetTrackView {
            prev_timestamp: self.stats.last_timestamp,
            stats: self.stats.emptied(),
            ..self
        }
    }
}

/// The event `e` was taken in. Once all processors have reported, the traffic is reported and a
/// new interval begins; where the report is stopped, the traffic stays for the next one. The first
/// interval of rates is only waited for.
pub open spec fn took_in(
    track: NetTrackView,
    e: NetEvent,
    before: Exchange,
    answer: i32,
    track_after: NetTrackView,
    after: Exchange,
) -> bool {
    let counted = track.counted(e);
    if !track.complete() {
        &&& answer == 0
        &&& track_after == counted
        &&& after == before
    } else if counted.first_of_rates() {
        &&& answer == 0
        &&& track_after == counted.restarted()
        &&& after == before
    } else {
        &&& reported(
            before,
            counted.submitted,
            counted.values(),
            unit_spec(counted.scaled),
            e.timestamp,
            answer,
            after,
            track_after.submitted,
        )
        &&& track_after == (NetTrackView {
            submitted: track_after.submitted,
            ..(if answer == 0 {
                counted.restarted()
            } else {
                counted
            })
        })
    }
}

/// Whether the sum of four numbers can be told.
fn sum_fits(a: u64, b: u64, c: u64, d: u64) -> (r: bool)
    ensures
        r <==> a + b + c + d <= u64::MAX,
{
    match a.checked_add(b) {
        None => false,
        Some(ab) => match ab.checked_add(c) {
            None => false,
            Some(abc) => abc.checked_add(d).is_some(),
        },
    }
}

/// Sums up network traffic.
pub struct NetTrack {
    stats: NetStats,
    boundaries_reported: usize,
    prev_timestamp: u64,
    submitted_tracks: HashSet<u64>,
    ids: CounterIds,
    scaled: bool,
    nprocs: usize,
}

impl View for NetTrack {
    type V = NetTrackView;

    closed spec fn view(&self) -> NetTrackView {
        NetTrackView {
            stats: self.stats,
            boundaries: self.boundaries_reported as nat,
            prev_timestamp: self.prev_timestamp,
            submitted: self.submitted_tracks@,
            ids: self.ids,
            scaled: self.scaled,
            nprocs: self.nprocs as nat,
        }
    }
}

impl NetTrack {
    /// No traffic yet.
    pub fn new(ids: CounterIds, scaled: bool, nprocs: usize) -> (t: NetTrack)
        ensures
            t@ == (NetTrackView {
                stats: NetStats {
                    tcp_send_total: 0,
                    tcp_recv_total: 0,
                    udp_send_total: 0,
                    udp_recv_total: 0,
                    last_timestamp: 0,
                },
                boundaries: 0,
                prev_timestamp: 0,
                submitted: Set::empty(),
                ids,
                scaled,
                nprocs: nprocs as nat,
            }),
    {
        NetTrack {
            stats: NetStats::default(),
            boundaries_reported: 0,
            prev_timestamp: 0,
            submitted_tracks: HashSet::new(),
            ids,
            scaled,
            nprocs,
        }
    }

    /// Reports one value, its track first where that was not described yet.
    fn submit_counter<C: MessageSink>(
        &mut self,
        value: (&'static str, Quantity, u64),
        timestamp: u64,
        unit: &str,
        callback: &mut C,
    ) -> (answer: i32)
        ensures
            final(self)@ == (NetTrackView {
                submitted: old(self)@.submitted.insert(value.2),
                ..old(self)@
            }),
            stream::sent(
                stream::exchange(*old(callback)),
                value_messages(
                    old(self)@.submitted,
                    (value.0@, value.1, value.2),
                    unit@,
                    timestamp,
                ),
                answer,
                stream::exchange(*final(callback)),
            ),
    {
        let ghost v: NamedValue = (value.0@, value.1, value.2);
        let ghost before = stream::exchange(*callback);
        let id: u64 = value.2;
        let ghost track = track_of(v, unit@);
        let ghost last = counter_of(v, unit@, timestamp);
        let known: bool = self.submitted_tracks.contains(&id);
        self.submitted_tracks.insert(id);
        proof {
            stream::sent_nothing(before);
        }
        if !known {
            assert(seq![track, last] =~= seq![track] + seq![last]);
            let result: i32 = callback.send(
                Message::Event(
                    StreamEvent::Track(
                        Track {
                            name: value.0.to_owned(),
                            track_type: TrackType::Counter { id, unit: Some(unit.to_owned()) },
                            parent: None,
                        },
                    ),
                ),
            );
            proof {
                stream::sent_one(before, track, result);
            }
            if result != 0 {
                proof {
                    stream::sent_prefix(
                        before,
                        seq![track],
                        seq![last],
                        result,
                        stream::exchange(*callback),
                    );
                }
                return result;
            }
        }
        let ghost between = stream::exchange(*callback);
        let counter = StreamCounter {
            name: value.0.to_owned(),
            value: value.1,
            timestamp,
            track_id: TrackId::Counter { id },
            unit: Some(unit.to_owned()),
        };
        let answer: i32 = callback.send(Message::Event(StreamEvent::Counter(counter)));
        proof {
            stream::sent_one(between, last, answer);
            if !known {
                stream::sent_both(
                    before,
                    seq![track],
                    between,
                    seq![last],
                    answer,
                    stream::exchange(*callback),
                );
            }
        }
        answer
    }

    /// Whether the sums do not overflow where the traffic of `event` is added.
    pub fn has_room(&self, event: &NetEvent) -> (b: bool)
        ensures
            b <==> self@.stats.fits(*event) && self@.boundaries < usize::MAX,
    {
        self.boundaries_reported < usize::MAX && sum_fits(
            self.stats.tcp_send_total,
            event.tcp_send_bytes,
            self.stats.udp_send_total,
            event.udp_send_bytes,
        ) && sum_fits(
            self.stats.tcp_recv_total,
            event.tcp_recv_bytes,
            self.stats.udp_recv_total,
            event.udp_recv_bytes,
        )
    }

    /// Takes an event in. Once all processors have reported, the traffic is reported and a new
    /// interval begins; where the report is stopped, the traffic stays for the next one. The
    /// first interval of rates is only waited for.
    pub fn on_event<C: MessageSink>(&mut self, event: &NetEvent, callback: &mut C) -> (answer: i32)
        requires
            old(self)@.stats.fits(*event),
            old(self)@.boundaries < usize::MAX,
        ensures
            took_in(
                old(self)@,
                *event,
                stream::exchange(*old(callback)),
                answer,
                final(self)@,
                stream::exchange(*final(callback)),
            ),
    {
        self.stats.accumulate(event);
        self.boundaries_reported = self.boundaries_reported + 1;
        if self.boundaries_reported != self.nprocs {
            return 0;
        }
        self.boundaries_reported = 0;
        let ghost counted = old(self)@.counted(*event);
        assert(self@ =~= counted);
        if self.scaled && self.prev_timestamp == 0 {
            self.prev_timestamp = self.stats.last_timestamp;
            self.stats.reset();
            return 0;
        }
        let nanoseconds: u64 = if self.scaled && self.prev_timestamp > 0
            && self.stats.last_timestamp > self.prev_timestamp {
            self.stats.last_timestamp - self.prev_timestamp
        } else {
            1_000_000_000
        };
        let values = create_counters(&self.stats, &self.ids, self.scaled, nanoseconds);
        let unit: &str = if self.scaled {
            "bits/s"
        } else {
            "bytes"
        };
        let timestamp: u64 = self.stats.last_timestamp;
        let ghost vs = counted.values();
        let ghost before = stream::exchange(*callback);
        let mut k: usize = 0;
        assert(values_view(values@) == vs);
        assert(values@.len() == vs.len());
        assert(before.with_all(seq![]) =~= before);
        while k < values.len()
            invariant
                k <= values@.len(),
                values_view(values@) == vs,
                values@.len() == vs.len(),
                unit@ == unit_spec(counted.scaled),
                vs == counted.values(),
                before == stream::exchange(*old(callback)),
                counted == old(self)@.counted(*event),
                old(self)@.complete(),
                !counted.first_of_rates(),
                timestamp == event.timestamp,
                self@ == (NetTrackView {
                    submitted: submitted_after(counted.submitted, vs, k as int),
                    ..counted
                }),
                stream::exchange(*callback) == before.with_all(
                    report_messages(counted.submitted, vs, unit@, timestamp, k as int),
                ),
            decreases values@.len() - k,
        {
            let ghost between = stream::exchange(*callback);
            assert((values@[k as int].0@, values@[k as int].1, values@[k as int].2) == vs[k as int]);
            let result: i32 = self.submit_counter(values[k], timestamp, unit, callback);
            if result != 0 {
                proof {
                    assert(stopped_in(
                        before,
                        counted.submitted,
                        vs,
                        unit@,
                        timestamp,
                        k as int,
                        result,
                        stream::exchange(*callback),
                        self@.submitted,
                    ));
                }
                return result;
            }
            k += 1;
            assert(stream::exchange(*callback) =~= before.with_all(
                report_messages(counted.submitted, vs, unit@, timestamp, k as int),
            ));
        }
        self.prev_timestamp = self.stats.last_timestamp;
        self.stats.reset();
        0
    }
}

/// The traffic once that of all `events` is added.
pub open spec fn with_all(s: NetStats, events: Seq<NetEvent>) -> NetStats
    decreases events.len(),
{
    if events.len() == 0 {
        s
    } else {
        with_all(s, events.drop_last()).with(events.last())
    }
}

/// The sum of what `part` picks out of `events`.
pub open spec fn sum_of(events: Seq<NetEvent>, part: spec_fn(NetEvent) -> u64) -> int
    decreases events.len(),
{
    if events.len() == 0 {
        0
    } else {
        sum_of(events.drop_last(), part) + part(events.last())
    }
}

proof fn sum_is_nonnegative(events: Seq<NetEvent>, part: spec_fn(NetEvent) -> u64)
    ensures
        0 <= sum_of(events, part),
    decreases events.len(),
{
    if events.len() > 0 {
        sum_is_nonnegative(events.drop_last(), part);
    }
}

/// No traffic is lost or counted twice: what is added up over an interval is what its events
/// carried, as long as the sums do not overflow.
pub proof fn traffic_adds_up(s: NetStats, events: Seq<NetEvent>)
    requires
        sum_of(events, |e: NetEvent| e.tcp_send_bytes) <= u64::MAX,
        sum_of(events, |e: NetEvent| e.tcp_recv_bytes) <= u64::MAX,
        sum_of(events, |e: NetEvent| e.udp_send_bytes) <= u64::MAX,
        sum_of(events, |e: NetEvent| e.udp_recv_bytes) <= u64::MAX,
    ensures
        ({
            let t = with_all(s.emptied(), events);
            &&& t.tcp_send_total == sum_of(events, |e: NetEvent| e.tcp_send_bytes)
            &&& t.tcp_recv_total == sum_of(events, |e: NetEvent| e.tcp_recv_bytes)
            &&& t.udp_send_total == sum_of(events, |e: NetEvent| e.udp_send_bytes)
            &&& t.udp_recv_total == sum_of(events, |e: NetEvent| e.udp_recv_bytes)
        }),
    decreases events.len(),
{
    if events.len() > 0 {
        sum_is_nonnegative(events.drop_last(), |e: NetEvent| e.tcp_send_bytes);
        sum_is_nonnegative(events.drop_last(), |e: NetEvent| e.tcp_recv_bytes);
        sum_is_nonnegative(events.drop_last(), |e: NetEvent| e.udp_send_bytes);
        sum_is_nonnegative(events.drop_last(), |e: NetEvent| e.udp_recv_bytes);
        traffic_adds_up(s, events.drop_last());
    }
}

/// A sink that never stops is sent all that there is to report.
pub proof fn willing_sink_is_sent_reports(
    track: NetTrackView,
    e: NetEvent,
    before: Exchange,
    answer: i32,
    track_after: NetTrackView,
    after: Exchange,
)
    requires
        took_in(track, e, before, answer, track_after, after),
        after.willing_since(before),
    ensures
        answer == 0,
        track_after == track.next(e),
        after == before.with_all(track.messages(e)),
{
    let counted = track.counted(e);
    if track.reports(e) {
        if answer != 0 {
            let vs = counted.values();
            let unit = unit_spec(counted.scaled);
            let k = choose|k: int| #[trigger]
                stopped_in(
                    before,
                    counted.submitted,
                    vs,
                    unit,
                    e.timestamp,
                    k,
                    answer,
                    after,
                    track_after.submitted,
                );
            let reached = before.with_all(
                report_messages(counted.submitted, vs, unit, e.timestamp, k),
            );
            let rest = value_messages(
                submitted_after(counted.submitted, vs, k),
                vs[k],
                unit,
                e.timestamp,
            );
            assert(after.willing_since(reached));
            stream::willing_sink_receives_all(reached, rest, answer, after);
        }
    } else {
        assert(before.with_all(seq![]) =~= before);
    }
}

/// One report for each round of the processors: while not all of them have reported, nothing is
/// sent and the traffic is added up; with the last one the traffic of exactly this round is sent,
/// and the next round starts with none. A first round of rates is not sent.
pub proof fn each_round_is_reported_once(track: NetTrackView, events: Seq<NetEvent>)
    requires
        track.nprocs > 0,
        track.boundaries == 0,
        track.stats == track.stats.emptied(),
        events.len() == track.nprocs,
        sum_of(events, |e: NetEvent| e.tcp_send_bytes) <= u64::MAX,
        sum_of(events, |e: NetEvent| e.tcp_recv_bytes) <= u64::MAX,
        sum_of(events, |e: NetEvent| e.udp_send_bytes) <= u64::MAX,
        sum_of(events, |e: NetEvent| e.udp_recv_bytes) <= u64::MAX,
    ensures
        ({
            let round = NetTrackView { stats: with_all(track.stats, events), ..track };
            let values = round.values();
            let s = round.stats;
            &&& s.tcp_send_total == sum_of(events, |e: NetEvent| e.tcp_send_bytes)
            &&& s.tcp_recv_total == sum_of(events, |e: NetEvent| e.tcp_recv_bytes)
            &&& s.udp_send_total == sum_of(events, |e: NetEvent| e.udp_send_bytes)
            &&& s.udp_recv_total == sum_of(events, |e: NetEvent| e.udp_recv_bytes)
            &&& s.last_timestamp == events.last().timestamp
            &&& track.messages_all(events) == if track.first_of_rates() {
                seq![]
            } else {
                report_messages(
                    track.submitted,
                    values,
                    unit_spec(track.scaled),
                    events.last().timestamp,
                    values.len() as int,
                )
            }
            &&& track.next_all(events) == (NetTrackView {
                stats: s.emptied(),
                prev_timestamp: events.last().timestamp,
                submitted: if track.first_of_rates() {
                    track.submitted
                } else {
                    submitted_after(track.submitted, values, values.len() as int)
                },
                ..track
            })
        }),
        forall|n: int|
            0 <= n < events.len() ==> (#[trigger] track.messages_all(events.take(n))).len() == 0,
{
    traffic_adds_up(track.stats, events);
    assert forall|n: int| 0 <= n < events.len() implies (#[trigger] track.messages_all(
        events.take(n),
    )).len() == 0 by {
        round_in_progress(track, events.take(n));
    }
    let before = events.drop_last();
    round_in_progress(track, before);
    let round = NetTrackView { stats: with_all(track.stats, events), ..track };
    let last = track.next_all(before);
    assert(last.complete());
    assert(last.counted(events.last()) =~= round);
    assert(track.messages_all(events) =~= last.messages(events.last()));
}

proof fn round_in_progress(track: NetTrackView, events: Seq<NetEvent>)
    requires
        track.boundaries == 0,
        events.len() < track.nprocs,
    ensures
        track.next_all(events) == (NetTrackView {
            stats: with_all(track.stats, events),
            boundaries: events.len(),
            ..track
        }),
        track.messages_all(events) == Seq::<MessageView>::empty(),
    decreases events.len(),
{
    if events.len() > 0 {
        round_in_progress(track, events.drop_last());
        assert(!track.next_all(events.drop_last()).complete());
    }
}

/// A track is described once: where values with the same numbers were reported before, a report
/// is the values alone.
pub proof fn tracks_are_described_once(
    submitted: Set<u64>,
    first: Seq<NamedValue>,
    next: Seq<NamedValue>,
    unit: Seq<char>,
    timestamp: u64,
)
    requires
        first.len() == next.len(),
        forall|i: int| 0 <= i < next.len() ==> (#[trigger] next[i]).2 == first[i].2,
    ensures
        report_messages(
            submitted_after(submitted, first, first.len() as int),
            next,
            unit,
            timestamp,
            next.len() as int,
        ) == Seq::new(next.len(), |i: int| counter_of(next[i], unit, timestamp)),
{
    let known = submitted_after(submitted, first, first.len() as int);
    assert forall|i: int| 0 <= i < next.len() implies known.contains((#[trigger] next[i]).2) by {
        described_stays(submitted, first, i, first.len() as int);
    }
    known_tracks_are_left_out(known, next, unit, timestamp, next.len() as int);
}

/// A first report of values with different numbers describes the track of each right before its
/// value.
pub proof fn first_report_describes_tracks(
    submitted: Set<u64>,
    values: Seq<NamedValue>,
    unit: Seq<char>,
    timestamp: u64,
    n: int,
)
    requires
        0 <= n <= values.len(),
        forall|i: int| 0 <= i < values.len() ==> !submitted.contains((#[trigger] values[i]).2),
        forall|i: int, j: int|
            0 <= i < j < values.len() ==> (#[trigger] values[i]).2 != (#[trigger] values[j]).2,
    ensures
        report_messages(submitted, values, unit, timestamp, n) == Seq::new(
            (2 * n) as nat,
            |i: int|
                if i % 2 == 0 {
                    track_of(values[i / 2], unit)
                } else {
                    counter_of(values[i / 2], unit, timestamp)
                },
        ),
    decreases n,
{
    if n > 0 {
        first_report_describes_tracks(submitted, values, unit, timestamp, n - 1);
        others_stay_undescribed(submitted, values, n - 1, n - 1);
    }
    assert(report_messages(submitted, values, unit, timestamp, n) =~= Seq::new(
        (2 * n) as nat,
        |i: int|
            if i % 2 == 0 {
                track_of(values[i / 2], unit)
            } else {
                counter_of(values[i / 2], unit, timestamp)
            },
    ));
}

proof fn others_stay_undescribed(submitted: Set<u64>, values: Seq<NamedValue>, k: int, n: int)
    requires
        0 <= n <= k < values.len(),
        !submitted.contains(values[k].2),
        forall|i: int, j: int|
            0 <= i < j < values.len() ==> (#[trigger] values[i]).2 != (#[trigger] values[j]).2,
    ensures
        !submitted_after(submitted, values, n).contains(values[k].2),
    decreases n,
{
    if n > 0 {
        others_stay_undescribed(submitted, values, k, n - 1);
        assert(values[n - 1].2 != values[k].2);
    }
}

proof fn described_stays(submitted: Set<u64>, values: Seq<NamedValue>, i: int, n: int)
    requires
        0 <= i < n <= values.len(),
    ensures
        submitted_after(submitted, values, n).contains(values[i].2),
    decreases n,
{
    if i < n - 1 {
        described_stays(submitted, values, i, n - 1);
    }
}

proof fn known_tracks_are_left_out(
    known: Set<u64>,
    values: Seq<NamedValue>,
    unit: Seq<char>,
    timestamp: u64,
    n: int,
)
    requires
        0 <= n <= values.len(),
        forall|i: int| 0 <= i < values.len() ==> known.contains((#[trigger] values[i]).2),
    ensures
        report_messages(known, values, unit, timestamp, n) == Seq::new(
            n as nat,
            |i: int| counter_of(values[i], unit, timestamp),
        ),
        submitted_after(known, values, n) == known,
    decreases n,
{
    if n > 0 {
        known_tracks_are_left_out(known, values, unit, timestamp, n - 1);
        assert(known.contains(values[n - 1].2));
        assert(known.insert(values[n - 1].2) =~= known);
    }
    assert(report_messages(known, values, unit, timestamp, n) =~= Seq::new(
        n as nat,
        |i: int| counter_of(values[i], unit, timestamp),
    ));
}

} // verus!
