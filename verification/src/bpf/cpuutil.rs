//! The processor time of threads, summed up over an interval.

use crate::bpf::stream::{
    Message, MessageSink, MessageView, Quantity, StreamCounter, StreamCounterView, StreamEvent,
    StreamEventView, TrackId,
};
use std::collections::HashMap;
use vstd::prelude::*;
use vstd::string::*;

verus! {

broadcast use vstd::std_specs::hash::group_hash_axioms;

/// What the BPF program reports: the time that a thread had on a processor.
#[derive(Debug, Clone, Copy, PartialEq, Eq, Structural)]
pub struct CpuEvent {
    pub tid: u32,
    pub tgid: u32,
    pub total_time_ns: u64,
    pub kernel_time_ns: u64,
    pub cpu: u32,
    pub timestamp: u64,
}

/// The time that a thread had in an interval.
#[derive(Debug, Clone, Copy, PartialEq, Eq, Structural)]
pub struct ThreadStats {
    pub pid: i32,
    pub tid: i32,
    pub cpu_time_ns: u64,
    pub kernel_time_ns: u64,
}

/// Whether `threads` has the thread `tid` of the process `pid`.
pub open spec fn has_thread(threads: Seq<ThreadStats>, pid: i32, tid: i32) -> bool {
    exists|i: int|
        0 <= i < threads.len() && (#[trigger] threads[i]).pid == pid && threads[i].tid == tid
}

/// The place of the thread `tid` of the process `pid`.
pub open spec fn thread_at(threads: Seq<ThreadStats>, pid: i32, tid: i32) -> int {
    choose|i: int|
        0 <= i < threads.len() && (#[trigger] threads[i]).pid == pid && threads[i].tid == tid
}

/// No thread occurs twice.
pub open spec fn distinct_threads(threads: Seq<ThreadStats>) -> bool {
    forall|i: int, j: int|
        #![trigger threads[i], threads[j]]
        0 <= i < j < threads.len() ==> threads[i].pid != threads[j].pid || threads[i].tid
            != threads[j].tid
}

/// The threads once the times of `e` are added, a new thread at the end.
pub open spec fn added(threads: Seq<ThreadStats>, e: CpuEvent) -> Seq<ThreadStats> {
    let pid = e.tgid as i32;
    let tid = e.tid as i32;
    if has_thread(threads, pid, tid) {
        let i = thread_at(threads, pid, tid);
        threads.update(
            i,
            ThreadStats {
                cpu_time_ns: (threads[i].cpu_time_ns + e.total_time_ns) as u64,
                kernel_time_ns: (threads[i].kernel_time_ns + e.kernel_time_ns) as u64,
                ..threads[i]
            },
        )
    } else {
        threads.push(
            ThreadStats {
                pid,
                tid,
                cpu_time_ns: e.total_time_ns,
                kernel_time_ns: e.kernel_time_ns,
            },
        )
    }
}

/// The sums that `e` adds to do not overflow.
pub open spec fn fits(threads: Seq<ThreadStats>, e: CpuEvent) -> bool {
    forall|i: int|
        0 <= i < threads.len() && (#[trigger] threads[i]).pid == e.tgid as i32 && threads[i].tid
            == e.tid as i32 ==> threads[i].cpu_time_ns + e.total_time_ns <= u64::MAX
            && threads[i].kernel_time_ns + e.kernel_time_ns <= u64::MAX
}

/// The message with a time of a thread.
pub open spec fn time_message(
    name: Seq<char>,
    value: u64,
    timestamp: u64,
    t: ThreadStats,
) -> MessageView {
    MessageView::Event(
        StreamEventView::Counter(
            StreamCounterView {
                name,
                value: Quantity::Count(value),
                timestamp,
                track_id: TrackId::Thread { tid: t.tid, pid: t.pid },
                unit: None,
            },
        ),
    )
}

/// The messages with the times of a thread, those that are not zero.
pub open spec fn thread_messages(t: ThreadStats, timestamp: u64) -> Seq<MessageView> {
    (if t.cpu_time_ns > 0 {
        seq![time_message("cpu_time_ns"@, t.cpu_time_ns, timestamp, t)]
    } else {
        seq![]
    }) + (if t.kernel_time_ns > 0 {
        seq![time_message("kernel_time_ns"@, t.kernel_time_ns, timestamp, t)]
    } else {
        seq![]
    })
}

/// The messages with the times of the first `n` threads.
pub open spec fn interval_messages(threads: Seq<ThreadStats>, timestamp: u64, n: int) -> Seq<
    MessageView,
>
    decreases n,
{
    if n <= 0 {
        seq![]
    } else {
        interval_messages(threads, timestamp, n - 1) + thread_messages(threads[n - 1], timestamp)
    }
}

/// What was measured since the last report.
#[verifier::ext_equal]
pub struct CpuUtilView {
    /// The threads, in the order in which they were first seen.
    pub threads: Seq<ThreadStats>,
    /// The earliest time of an event.
    pub min_timestamp: Option<u64>,
    /// When the last report was made.
    pub last_report_ns: u64,
    /// The time between two reports.
    pub interval_ns: u64,
}

impl CpuUtilView {
    /// The time that a report is given: the earliest of the events, or zero.
    pub open spec fn report_time(self) -> u64 {
        match self.min_timestamp {
            Some(t) => t,
            None => 0,
        }
    }
}

/// The earlier of two times.
pub open spec fn earlier(a: Option<u64>, b: u64) -> Option<u64> {
    match a {
        Some(t) => if t <= b {
            Some(t)
        } else {
            Some(b)
        },
        None => Some(b),
    }
}

/// Sums up the processor time of threads.
pub struct CpuUtil {
    threads: Vec<ThreadStats>,
    index: HashMap<i64, usize>,
    min_timestamp: Option<u64>,
    last_report_ns: u64,
    interval_ns: u64,
}

/// One number for a process and a thread of it, different for different pairs.
spec fn key_spec(pid: i32, tid: i32) -> int {
    pid * 0x1_0000_0000 + (tid + 0x8000_0000)
}

fn key(pid: i32, tid: i32) -> (k: i64)
    ensures
        k == key_spec(pid, tid),
{
    pid as i64 * 0x1_0000_0000 + (tid as i64 + 0x8000_0000)
}

impl View for CpuUtil {
    type V = CpuUtilView;

    closed spec fn view(&self) -> CpuUtilView {
        CpuUtilView {
            threads: self.threads@,
            min_timestamp: self.min_timestamp,
            last_report_ns: self.last_report_ns,
            interval_ns: self.interval_ns,
        }
    }
}

impl CpuUtil {
    pub closed spec fn wf(self) -> bool {
        &&& distinct_threads(self.threads@)
        &&& forall|i: int|
            #![trigger self.threads@[i]]
            0 <= i < self.threads@.len() ==> {
                let k = key_spec(self.threads@[i].pid, self.threads@[i].tid) as i64;
                self.index@.contains_key(k) && self.index@[k] == i
            }
        &&& forall|k: i64| #[trigger]
            self.index@.contains_key(k) ==> self.index@[k] < self.threads@.len() && key_spec(
                self.threads@[self.index@[k] as int].pid,
                self.threads@[self.index@[k] as int].tid,
            ) == k
    }

    /// Nothing measured yet; reports every `interval_ns` from `now_ns` on.
    pub fn new(interval_ns: u64, now_ns: u64) -> (c: CpuUtil)
        ensures
            c.wf(),
            c@ == (CpuUtilView {
                threads: seq![],
                min_timestamp: None,
                last_report_ns: now_ns,
                interval_ns,
            }),
    {
        let c = CpuUtil {
            threads: Vec::new(),
            index: HashMap::new(),
            min_timestamp: None,
            last_report_ns: now_ns,
            interval_ns,
        };
        assert(c@.threads =~= seq![]);
        c
    }

    /// Whether the times of the thread do not overflow where those of `event` are added.
    pub fn has_room(&self, event: &CpuEvent) -> (b: bool)
        requires
            self.wf(),
        ensures
            b <==> fits(self@.threads, *event),
    {
        let pid: i32 = event.tgid as i32;
        let tid: i32 = event.tid as i32;
        match self.index.get(&key(pid, tid)) {
            Some(i) => {
                let t = self.threads[*i];
                assert(t.pid == pid && t.tid == tid);
                assert(self@.threads[*i as int] == t);
                t.cpu_time_ns.checked_add(event.total_time_ns).is_some()
                    && t.kernel_time_ns.checked_add(event.kernel_time_ns).is_some()
            },
            None => {
                proof {
                    if has_thread(self.threads@, pid, tid) {
                        let at = thread_at(self.threads@, pid, tid);
                        assert(self.index@.contains_key(
                            key_spec(self.threads@[at].pid, self.threads@[at].tid) as i64,
                        ));
                    }
                }
                true
            },
        }
    }

    /// Takes an event in.
    pub fn on_event(&mut self, event: &CpuEvent)
        requires
            old(self).wf(),
            fits(old(self)@.threads, *event),
        ensures
            final(self).wf(),
            final(self)@ == (CpuUtilView {
                threads: added(old(self)@.threads, *event),
                min_timestamp: earlier(old(self)@.min_timestamp, event.timestamp),
                ..old(self)@
            }),
    {
        let pid: i32 = event.tgid as i32;
        let tid: i32 = event.tid as i32;
        let k: i64 = key(pid, tid);
        let known: Option<usize> = match self.index.get(&k) {
            Some(i) => Some(*i),
            None => None,
        };
        match known {
            Some(i) => {
                let t = self.threads[i];
                proof {
                    assert(t.pid == pid && t.tid == tid);
                    let at = thread_at(self.threads@, pid, tid);
                    assert(has_thread(self.threads@, pid, tid));
                    assert(at == i);
                }
                self.threads.set(
                    i,
                    ThreadStats {
                        pid: t.pid,
                        tid: t.tid,
                        cpu_time_ns: t.cpu_time_ns + event.total_time_ns,
                        kernel_time_ns: t.kernel_time_ns + event.kernel_time_ns,
                    },
                );
            },
            None => {
                proof {
                    if has_thread(self.threads@, pid, tid) {
                        let at = thread_at(self.threads@, pid, tid);
                        assert(self.index@.contains_key(
                            key_spec(self.threads@[at].pid, self.threads@[at].tid) as i64,
                        ));
                    }
                }
                self.index.insert(k, self.threads.len());
                self.threads.push(
                    ThreadStats {
                        pid,
                        tid,
                        cpu_time_ns: event.total_time_ns,
                        kernel_time_ns: event.kernel_time_ns,
                    },
                );
            },
        }
        self.min_timestamp = match self.min_timestamp {
            Some(t) => if t <= event.timestamp {
                Some(t)
            } else {
                Some(event.timestamp)
            },
            None => Some(event.timestamp),
        };
        assert(self@.threads =~= added(old(self)@.threads, *event));
    }

    fn send_time<C: MessageSink>(
        name: &str,
        value: u64,
        timestamp: u64,
        t: ThreadStats,
        callback: &mut C,
    )
        ensures
            final(callback).log() == old(callback).log().push(
                time_message(name@, value, timestamp, t),
            ),
    {
        let counter = StreamCounter {
            name: name.to_owned(),
            value: Quantity::Count(value),
            timestamp,
            track_id: TrackId::Thread { tid: t.tid, pid: t.pid },
            unit: None,
        };
        let _ = callback.send(Message::Event(StreamEvent::Counter(counter)));
    }

    /// Reports the times of all threads, whatever is answered, and starts over.
    pub fn report_interval_stats<C: MessageSink>(&mut self, callback: &mut C)
        requires
            old(self).wf(),
        ensures
            final(self).wf(),
            final(self)@ == (CpuUtilView { threads: seq![], min_timestamp: None, ..old(self)@ }),
            final(callback).log() == old(callback).log() + interval_messages(
                old(self)@.threads,
                old(self)@.report_time(),
                old(self)@.threads.len() as int,
            ),
    {
        let timestamp: u64 = match self.min_timestamp {
            Some(t) => t,
            None => 0,
        };
        let ghost log = callback.log();
        let mut i: usize = 0;
        assert(log + Seq::<MessageView>::empty() =~= log);
        while i < self.threads.len()
            invariant
                *self == *old(self),
                i <= self.threads@.len(),
                callback.log() == log + interval_messages(self.threads@, timestamp, i as int),
            decreases self.threads@.len() - i,
        {
            let ghost before = callback.log();
            let t = self.threads[i];
            if t.cpu_time_ns > 0 {
                Self::send_time("cpu_time_ns", t.cpu_time_ns, timestamp, t, callback);
            }
            if t.kernel_time_ns > 0 {
                Self::send_time("kernel_time_ns", t.kernel_time_ns, timestamp, t, callback);
            }
            i += 1;
            assert(callback.log() =~= before + thread_messages(t, timestamp));
            assert(callback.log() =~= log + interval_messages(self.threads@, timestamp, i as int));
        }
        self.threads.clear();
        self.index.clear();
        self.min_timestamp = None;
        assert(self@.threads =~= seq![]);
    }

    /// Reports where an interval is over at `now_ns`, and does nothing else.
    pub fn report_if_due<C: MessageSink>(&mut self, now_ns: u64, callback: &mut C) -> (reported: bool)
        requires
            old(self).wf(),
        ensures
            final(self).wf(),
            reported <==> now_ns - old(self)@.last_report_ns >= old(self)@.interval_ns || (
            old(self)@.interval_ns == 0),
            reported ==> final(self)@ == (CpuUtilView {
                threads: seq![],
                min_timestamp: None,
                last_report_ns: now_ns,
                ..old(self)@
            }) && final(callback).log() == old(callback).log() + interval_messages(
                old(self)@.threads,
                old(self)@.report_time(),
                old(self)@.threads.len() as int,
            ),
            !reported ==> final(self)@ == old(self)@ && final(callback).log() == old(
                callback,
            ).log(),
    {
        let elapsed: u64 = now_ns.saturating_sub(self.last_report_ns);
        if elapsed < self.interval_ns {
            return false;
        }
        self.report_interval_stats(callback);
        self.last_report_ns = now_ns;
        true
    }
}

/// The threads once the times of all `events` are added.
pub open spec fn added_all(threads: Seq<ThreadStats>, events: Seq<CpuEvent>) -> Seq<ThreadStats>
    decreases events.len(),
{
    if events.len() == 0 {
        threads
    } else {
        added(added_all(threads, events.drop_last()), events.last())
    }
}

/// Whether `e` is about the thread `tid` of the process `pid`.
pub open spec fn is_of(e: CpuEvent, pid: i32, tid: i32) -> bool {
    e.tgid as i32 == pid && e.tid as i32 == tid
}

/// The sum of what `part` picks out of the events of the thread `tid` of the process `pid`.
pub open spec fn thread_sum(
    events: Seq<CpuEvent>,
    pid: i32,
    tid: i32,
    part: spec_fn(CpuEvent) -> u64,
) -> int
    decreases events.len(),
{
    if events.len() == 0 {
        0
    } else {
        thread_sum(events.drop_last(), pid, tid, part) + if is_of(events.last(), pid, tid) {
            part(events.last()) as int
        } else {
            0
        }
    }
}

/// What is reported of a thread in an interval is the sum of its times in the events of the
/// interval, and the threads that were listed are those with an event.
pub proof fn times_add_up(events: Seq<CpuEvent>, pid: i32, tid: i32)
    requires
        thread_sum(events, pid, tid, |e: CpuEvent| e.total_time_ns) <= u64::MAX,
        thread_sum(events, pid, tid, |e: CpuEvent| e.kernel_time_ns) <= u64::MAX,
    ensures
        distinct_threads(added_all(seq![], events)),
        has_thread(added_all(seq![], events), pid, tid) <==> exists|i: int|
            0 <= i < events.len() && is_of(#[trigger] events[i], pid, tid),
        has_thread(added_all(seq![], events), pid, tid) ==> {
            let threads = added_all(seq![], events);
            let t = threads[thread_at(threads, pid, tid)];
            &&& t.cpu_time_ns == thread_sum(events, pid, tid, |e: CpuEvent| e.total_time_ns)
            &&& t.kernel_time_ns == thread_sum(events, pid, tid, |e: CpuEvent| e.kernel_time_ns)
        },
    decreases events.len(),
{
    if events.len() > 0 {
        let before = events.drop_last();
        let e = events.last();
        let total = |e: CpuEvent| e.total_time_ns;
        let kernel = |e: CpuEvent| e.kernel_time_ns;
        thread_sum_is_positive(before, pid, tid, total);
        thread_sum_is_positive(before, pid, tid, kernel);
        times_add_up(before, pid, tid);
        let threads = added_all(seq![], before);
        let after = added(threads, e);
        assert(added_all(seq![], events) == after);
        added_keeps_distinct(threads, e);
        if is_of(e, pid, tid) {
            assert(is_of(events[events.len() - 1], pid, tid));
            if has_thread(threads, pid, tid) {
                let at = thread_at(threads, pid, tid);
                assert(after[at].pid == pid && after[at].tid == tid);
                assert(thread_at(after, pid, tid) == at);
            } else {
                assert(after.last().pid == pid && after.last().tid == tid);
                assert(thread_at(after, pid, tid) == threads.len());
                no_event_no_time(before, pid, tid, total);
                no_event_no_time(before, pid, tid, kernel);
            }
        } else {
            if has_thread(threads, pid, tid) {
                let at = thread_at(threads, pid, tid);
                let i = choose|i: int|
                    0 <= i < before.len() && is_of(#[trigger] before[i], pid, tid);
                assert(is_of(events[i], pid, tid));
                assert(after[at] == threads[at]);
                assert(thread_at(after, pid, tid) == at);
            } else {
                if has_thread(after, pid, tid) {
                    let at = thread_at(after, pid, tid);
                    assert(at < threads.len() ==> threads[at].pid == pid && threads[at].tid == tid);
                }
                assert forall|i: int| 0 <= i < events.len() implies !is_of(
                    #[trigger] events[i],
                    pid,
                    tid,
                ) by {
                    if i < before.len() {
                        assert(events[i] == before[i]);
                    }
                }
            }
        }
    }
}

proof fn added_keeps_distinct(threads: Seq<ThreadStats>, e: CpuEvent)
    requires
        distinct_threads(threads),
    ensures
        distinct_threads(added(threads, e)),
{
}

proof fn thread_sum_is_positive(
    events: Seq<CpuEvent>,
    pid: i32,
    tid: i32,
    part: spec_fn(CpuEvent) -> u64,
)
    ensures
        thread_sum(events, pid, tid, part) >= 0,
    decreases events.len(),
{
    if events.len() > 0 {
        thread_sum_is_positive(events.drop_last(), pid, tid, part);
    }
}

proof fn no_event_no_time(
    events: Seq<CpuEvent>,
    pid: i32,
    tid: i32,
    part: spec_fn(CpuEvent) -> u64,
)
    requires
        forall|i: int| 0 <= i < events.len() ==> !is_of(#[trigger] events[i], pid, tid),
    ensures
        thread_sum(events, pid, tid, part) == 0,
    decreases events.len(),
{
    if events.len() > 0 {
        assert(!is_of(events[events.len() - 1], pid, tid));
        assert forall|i: int| 0 <= i < events.len() - 1 implies !is_of(
            #[trigger] events.drop_last()[i],
            pid,
            tid,
        ) by {
            assert(!is_of(events[i], pid, tid));
        }
        no_event_no_time(events.drop_last(), pid, tid, part);
    }
}

} // verus!
