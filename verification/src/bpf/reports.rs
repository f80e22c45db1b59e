//! What the reports on the times and names of threads tell, and what becomes of reports in a trace.

use crate::bpf::cpuutil;
use crate::bpf::cpuutil::{CpuEvent, CpuUtil, ThreadStats};
use crate::bpf::error::BpfError;
use crate::bpf::recorder::{reported_quantity, Recorder};
use crate::bpf::stream::{
    Message, MessageSink, MessageView, Quantity, StreamCounter, StreamEvent, StreamEventView,
    StreamInstant, Track, TrackId, TrackType,
};
use crate::bpf::threadtrack;
use crate::bpf::threadtrack::{
    scan_proc, ProcEntry, TaskEntry, ThreadEvent, ThreadTracker,
};
use crate::protocol::events::TraceInput;
use crate::text;
use vstd::prelude::*;
use vstd::utf8::*;

verus! {

/// The thread `tid` of the process `pid` had the given times.
pub open spec fn has_times(
    threads: Seq<ThreadStats>,
    pid: i32,
    tid: i32,
    total: int,
    kernel: int,
) -> bool {
    exists|i: int|
        0 <= i < threads.len() && #[trigger] are_times(threads[i], pid, tid, total, kernel)
}

/// The times are those of the thread `tid` of the process `pid`.
pub open spec fn are_times(t: ThreadStats, pid: i32, tid: i32, total: int, kernel: int) -> bool {
    &&& t.pid == pid
    &&& t.tid == tid
    &&& t.cpu_time_ns == total
    &&& t.kernel_time_ns == kernel
}

/// An event adds its times to those of its own thread, of which there are none before the first,
/// and leaves all other threads alone. The time of a report is that of the earliest event.
pub proof fn event_adds_to_its_thread(
    c: &mut CpuUtil,
    e: &CpuEvent,
    pid: i32,
    tid: i32,
    total: int,
    kernel: int,
)
    requires
        call_ensures(CpuUtil::on_event, (c, e), ()),
        cpuutil::fits(old(c)@.threads, *e),
        cpuutil::distinct_threads(old(c)@.threads),
    ensures
        ({
            let before = old(c)@.threads;
            let after = final(c)@.threads;
            let own_pid = e.tgid as i32;
            let own_tid = e.tid as i32;
            &&& cpuutil::distinct_threads(after)
            &&& has_times(before, own_pid, own_tid, total, kernel) ==> has_times(
                after,
                own_pid,
                own_tid,
                total + e.total_time_ns,
                kernel + e.kernel_time_ns,
            )
            &&& !cpuutil::has_thread(before, own_pid, own_tid) ==> has_times(
                after,
                own_pid,
                own_tid,
                e.total_time_ns as int,
                e.kernel_time_ns as int,
            )
            &&& pid != own_pid || tid != own_tid ==> (has_times(before, pid, tid, total, kernel)
                <==> has_times(after, pid, tid, total, kernel))
            &&& final(c)@.min_timestamp matches Some(m) && m <= e.timestamp && (m == e.timestamp
                || old(c)@.min_timestamp == Some(m))
            &&& old(c)@.min_timestamp matches Some(t) ==> final(c)@.min_timestamp->Some_0 <= t
            &&& final(c)@.last_report_ns == old(c)@.last_report_ns
            &&& final(c)@.interval_ns == old(c)@.interval_ns
        }),
{
    let before = old(c)@.threads;
    let after = final(c)@.threads;
    let own_pid = e.tgid as i32;
    let own_tid = e.tid as i32;
    if cpuutil::has_thread(before, own_pid, own_tid) {
        let at = cpuutil::thread_at(before, own_pid, own_tid);
        assert(after.len() == before.len());
        if has_times(before, own_pid, own_tid, total, kernel) {
            let i = choose|i: int|
                0 <= i < before.len() && #[trigger] are_times(
                    before[i],
                    own_pid,
                    own_tid,
                    total,
                    kernel,
                );
            assert(i == at) by {
                assert(before[i].pid == before[at].pid && before[i].tid == before[at].tid);
                assert(i < at ==> before[i].pid != before[at].pid || before[i].tid
                    != before[at].tid);
                assert(at < i ==> before[at].pid != before[i].pid || before[at].tid
                    != before[i].tid);
            }
            assert(are_times(
                after[at],
                own_pid,
                own_tid,
                total + e.total_time_ns,
                kernel + e.kernel_time_ns,
            ));
        }
    } else {
        assert(are_times(
            after[before.len() as int],
            own_pid,
            own_tid,
            e.total_time_ns as int,
            e.kernel_time_ns as int,
        ));
    }
    if pid != own_pid || tid != own_tid {
        if has_times(before, pid, tid, total, kernel) {
            let i = choose|i: int|
                0 <= i < before.len() && #[trigger] are_times(before[i], pid, tid, total, kernel);
            assert(are_times(after[i], pid, tid, total, kernel));
        }
        if has_times(after, pid, tid, total, kernel) {
            let i = choose|i: int|
                0 <= i < after.len() && #[trigger] are_times(after[i], pid, tid, total, kernel);
            assert(are_times(before[i], pid, tid, total, kernel));
        }
    }
}

/// The message tells a time of a thread.
pub open spec fn is_time(
    m: MessageView,
    name: Seq<char>,
    ns: u64,
    pid: i32,
    tid: i32,
    timestamp: u64,
) -> bool {
    m matches MessageView::Event(StreamEventView::Counter(c)) && {
        &&& c.name == name
        &&& c.value == Quantity::Count(ns)
        &&& c.track_id == (TrackId::Thread { tid, pid })
        &&& c.timestamp == timestamp
        &&& c.unit is None
    }
}

/// The message tells a time of one of the threads that is not zero.
pub open spec fn is_time_of(m: MessageView, t: ThreadStats, timestamp: u64) -> bool {
    ||| t.cpu_time_ns > 0 && is_time(
        m,
        "cpu_time_ns"@,
        t.cpu_time_ns,
        t.pid,
        t.tid,
        timestamp,
    )
    ||| t.kernel_time_ns > 0 && is_time(
        m,
        "kernel_time_ns"@,
        t.kernel_time_ns,
        t.pid,
        t.tid,
        timestamp,
    )
}

/// The messages tell the times of the threads that are not zero, and nothing else: all time under
/// one name, that in the kernel under the other.
pub open spec fn tell_times(
    messages: Seq<MessageView>,
    threads: Seq<ThreadStats>,
    timestamp: u64,
) -> bool {
    &&& forall|i: int|
        0 <= i < threads.len() && (#[trigger] threads[i]).cpu_time_ns > 0 ==> tells_time(
            messages,
            "cpu_time_ns"@,
            threads[i].cpu_time_ns,
            threads[i].pid,
            threads[i].tid,
            timestamp,
        )
    &&& forall|i: int|
        0 <= i < threads.len() && (#[trigger] threads[i]).kernel_time_ns > 0 ==> tells_time(
            messages,
            "kernel_time_ns"@,
            threads[i].kernel_time_ns,
            threads[i].pid,
            threads[i].tid,
            timestamp,
        )
    &&& forall|j: int|
        0 <= j < messages.len() ==> tells_only_times(#[trigger] messages[j], threads, timestamp)
}

pub open spec fn tells_time(
    messages: Seq<MessageView>,
    name: Seq<char>,
    ns: u64,
    pid: i32,
    tid: i32,
    timestamp: u64,
) -> bool {
    exists|j: int|
        0 <= j < messages.len() && #[trigger] is_time(messages[j], name, ns, pid, tid, timestamp)
}

pub open spec fn tells_only_times(
    m: MessageView,
    threads: Seq<ThreadStats>,
    timestamp: u64,
) -> bool {
    exists|i: int| 0 <= i < threads.len() && #[trigger] is_time_of(m, threads[i], timestamp)
}

proof fn time_stays_told(
    messages: Seq<MessageView>,
    more: Seq<MessageView>,
    name: Seq<char>,
    ns: u64,
    pid: i32,
    tid: i32,
    timestamp: u64,
)
    requires
        tells_time(messages, name, ns, pid, tid, timestamp),
    ensures
        tells_time(messages + more, name, ns, pid, tid, timestamp),
{
    let j = choose|j: int|
        0 <= j < messages.len() && #[trigger] is_time(messages[j], name, ns, pid, tid, timestamp);
    assert(is_time((messages + more)[j], name, ns, pid, tid, timestamp));
}

proof fn interval_tells_times(threads: Seq<ThreadStats>, timestamp: u64, n: int)
    requires
        0 <= n <= threads.len(),
    ensures
        tell_times(cpuutil::interval_messages(threads, timestamp, n), threads.take(n), timestamp),
    decreases n,
{
    if n > 0 {
        interval_tells_times(threads, timestamp, n - 1);
        let before = cpuutil::interval_messages(threads, timestamp, n - 1);
        let t = threads[n - 1];
        let last = cpuutil::thread_messages(t, timestamp);
        let all = before + last;
        let seen = threads.take(n - 1);
        let now = threads.take(n);
        assert(all == cpuutil::interval_messages(threads, timestamp, n));
        assert forall|i: int| 0 <= i < n && (#[trigger] now[i]).cpu_time_ns > 0 implies tells_time(
            all,
            "cpu_time_ns"@,
            now[i].cpu_time_ns,
            now[i].pid,
            now[i].tid,
            timestamp,
        ) by {
            if i < n - 1 {
                assert(seen[i] == now[i]);
                time_stays_told(
                    before,
                    last,
                    "cpu_time_ns"@,
                    now[i].cpu_time_ns,
                    now[i].pid,
                    now[i].tid,
                    timestamp,
                );
            } else {
                assert(is_time(
                    all[before.len() as int],
                    "cpu_time_ns"@,
                    t.cpu_time_ns,
                    t.pid,
                    t.tid,
                    timestamp,
                ));
            }
        }
        assert forall|i: int|
            0 <= i < n && (#[trigger] now[i]).kernel_time_ns > 0 implies tells_time(
            all,
            "kernel_time_ns"@,
            now[i].kernel_time_ns,
            now[i].pid,
            now[i].tid,
            timestamp,
        ) by {
            if i < n - 1 {
                assert(seen[i] == now[i]);
                time_stays_told(
                    before,
                    last,
                    "kernel_time_ns"@,
                    now[i].kernel_time_ns,
                    now[i].pid,
                    now[i].tid,
                    timestamp,
                );
            } else {
                assert(is_time(
                    all[all.len() - 1],
                    "kernel_time_ns"@,
                    t.kernel_time_ns,
                    t.pid,
                    t.tid,
                    timestamp,
                ));
            }
        }
        assert forall|j: int| 0 <= j < all.len() implies tells_only_times(
            #[trigger] all[j],
            now,
            timestamp,
        ) by {
            if j < before.len() {
                assert(tells_only_times(before[j], seen, timestamp));
                let i = choose|i: int|
                    0 <= i < seen.len() && #[trigger] is_time_of(before[j], seen[i], timestamp);
                assert(seen[i] == now[i]);
                assert(is_time_of(all[j], now[i], timestamp));
            } else {
                assert(all[j] == last[j - before.len()]);
                assert(is_time_of(all[j], now[n - 1], timestamp));
            }
        }
    }
}

/// A report tells the times of all threads, with the time of the earliest event, and starts over.
pub proof fn interval_is_told<C: MessageSink>(c: &mut CpuUtil, sink: &mut C)
    requires
        call_ensures(CpuUtil::report_interval_stats::<C>, (c, sink), ()),
    ensures
        ({
            let told = final(sink).log().skip(old(sink).log().len() as int);
            &&& old(sink).log().is_prefix_of(final(sink).log())
            &&& old(c)@.min_timestamp matches Some(at) ==> tell_times(told, old(c)@.threads, at)
            &&& final(c)@.threads.len() == 0
            &&& final(c)@.min_timestamp is None
        }),
{
    let threads = old(c)@.threads;
    let n = threads.len() as int;
    let at = old(c)@.report_time();
    interval_tells_times(threads, at, n);
    assert(threads.take(n) =~= threads);
    assert(final(sink).log().skip(old(sink).log().len() as int)
        =~= cpuutil::interval_messages(threads, at, n));
}

/// A report is made exactly where the interval has passed since the last one; else nothing
/// changes.
pub proof fn interval_is_told_when_due<C: MessageSink>(
    c: &mut CpuUtil,
    now_ns: u64,
    sink: &mut C,
    reported: bool,
)
    requires
        call_ensures(CpuUtil::report_if_due::<C>, (c, now_ns, sink), reported),
        old(c)@.interval_ns > 0,
    ensures
        reported <==> now_ns >= old(c)@.last_report_ns + old(c)@.interval_ns,
        reported ==> {
            let told = final(sink).log().skip(old(sink).log().len() as int);
            &&& old(sink).log().is_prefix_of(final(sink).log())
            &&& old(c)@.min_timestamp matches Some(at) ==> tell_times(told, old(c)@.threads, at)
            &&& final(c)@.threads.len() == 0
            &&& final(c)@.min_timestamp is None
            &&& final(c)@.last_report_ns == now_ns
            &&& final(c)@.interval_ns == old(c)@.interval_ns
        },
        !reported ==> final(sink).log() == old(sink).log() && final(c)@ == old(c)@,
{
    let threads = old(c)@.threads;
    let n = threads.len() as int;
    let at = old(c)@.report_time();
    interval_tells_times(threads, at, n);
    assert(threads.take(n) =~= threads);
    if reported {
        assert(final(sink).log().skip(old(sink).log().len() as int)
            =~= cpuutil::interval_messages(threads, at, n));
    }
}

/// The stream and the report of a message: those that are in no stream count as in stream zero.
pub open spec fn carries(message: Message, stream_id: u64, event: StreamEvent) -> bool {
    ||| message == (Message::Stream { stream_id, event })
    ||| message == Message::Event(event) && stream_id == 0
}

/// The value of a counter is recorded with its time and unit: with that of a thread comes the
/// thread, and one by itself has the name that its track was last given in its stream.
pub proof fn counter_is_recorded(
    r: &mut Recorder,
    message: Message,
    bits: u64,
    input: Option<TraceInput>,
    stream_id: u64,
    c: StreamCounter,
)
    requires
        call_ensures(Recorder::record, (r, message, bits), input),
        carries(message, stream_id, StreamEvent::Counter(c)),
    ensures
        final(r)@ == old(r)@,
        input matches Some(TraceInput::Counter(v)) && {
            &&& v.value_bits == bits
            &&& v.timestamp == c.timestamp
            &&& v.unit == c.unit
            &&& v.labels.is_empty()
            &&& c.track_id matches TrackId::Thread { tid, pid } ==> v.tid == tid && v.pid == pid
                && v.name@ == c.name@
            &&& c.track_id matches TrackId::Counter { id } ==> {
                &&& v.tid == 0
                &&& v.pid == 0
                &&& v.name@ == if old(r)@.contains_key((stream_id, id)) {
                    old(r)@[(stream_id, id)]
                } else {
                    c.name@
                }
            }
        },
{
}

/// An instant is recorded with its name, its time and its thread.
pub proof fn instant_is_recorded(
    r: &mut Recorder,
    message: Message,
    bits: u64,
    input: Option<TraceInput>,
    stream_id: u64,
    i: StreamInstant,
)
    requires
        call_ensures(Recorder::record, (r, message, bits), input),
        carries(message, stream_id, StreamEvent::Instant(i)),
    ensures
        final(r)@ == old(r)@,
        input matches Some(TraceInput::Instant(v)) && {
            &&& v.name@ == i.name@
            &&& v.timestamp == i.timestamp
            &&& v.labels.is_empty()
            &&& i.track_id matches TrackId::Thread { tid, pid } ==> v.tid == tid && v.pid == pid
            &&& i.track_id is Counter ==> v.tid == 0 && v.pid == 0
        },
{
}

/// The description of a process or thread is recorded as its name. That of a counter gives the
/// counter its name, in its stream and for its number only, and is not recorded.
pub proof fn track_is_recorded(
    r: &mut Recorder,
    message: Message,
    bits: u64,
    input: Option<TraceInput>,
    stream_id: u64,
    t: Track,
    other: (u64, u64),
)
    requires
        call_ensures(Recorder::record, (r, message, bits), input),
        carries(message, stream_id, StreamEvent::Track(t)),
    ensures
        t.track_type matches TrackType::Process { pid } ==> (input matches Some(
            TraceInput::ProcessName(n),
        ) && n.name@ == t.name@ && n.pid == pid),
        t.track_type matches TrackType::Thread { tid, pid } ==> (input matches Some(
            TraceInput::ThreadName(n),
        ) && n.name@ == t.name@ && n.tid == tid && n.pid == pid),
        t.track_type matches TrackType::Counter { id, unit } ==> {
            &&& input is None
            &&& final(r)@.contains_key((stream_id, id))
            &&& final(r)@[(stream_id, id)] == t.name@
            &&& other != (stream_id, id) ==> final(r)@.contains_key(other) == old(
                r,
            )@.contains_key(other) && (old(r)@.contains_key(other) ==> final(r)@[other] == old(
                r,
            )@[other])
        },
        t.track_type is Cpu ==> input is None,
        !(t.track_type is Counter) ==> final(r)@ == old(r)@,
{
}

/// A program that was started names the process; without one, the thread is named.
pub proof fn name_is_told(e: &ThreadEvent, input: TraceInput)
    requires
        call_ensures(ThreadEvent::name_event, (e,), input),
        valid_utf8(threadtrack::c_text(e.filename@)),
    ensures
        e.filename@[0] != 0 ==> (input matches TraceInput::ProcessName(n) && n.pid == e.tgid as i32
            && is_before_zero(encode_utf8(n.name@), e.filename@)),
        e.filename@[0] == 0 ==> (input matches TraceInput::ThreadName(n) && n.tid == e.pid as i32
            && n.pid == e.tgid as i32 && is_before_zero(encode_utf8(n.name@), e.comm@)),
{
    assert(e.filename@.len() == 256);
    text_ends_at_zero(e.filename@);
    text_ends_at_zero(e.comm@);
}

/// `text` is what stands in `bytes` before the first zero, or all of it.
pub open spec fn is_before_zero(text: Seq<u8>, bytes: Seq<u8>) -> bool {
    &&& text.is_prefix_of(bytes)
    &&& forall|i: int| 0 <= i < text.len() ==> text[i] != 0
    &&& text.len() < bytes.len() ==> bytes[text.len() as int] == 0
}

proof fn text_ends_at_zero(bytes: Seq<u8>)
    ensures
        is_before_zero(threadtrack::c_text(bytes), bytes),
    decreases bytes.len(),
{
    if bytes.len() > 0 && bytes[0] != 0 {
        let rest = bytes.drop_first();
        text_ends_at_zero(rest);
        let t = threadtrack::c_text(bytes);
        let u = threadtrack::c_text(rest);
        assert(t =~= seq![bytes[0]] + u);
        assert forall|i: int| 0 <= i < t.len() implies t[i] != 0 && t[i] == bytes[i] by {
            if i > 0 {
                assert(t[i] == u[i - 1]);
                assert(u[i - 1] == rest.subrange(0, u.len() as int)[i - 1]);
                assert(rest[i - 1] == bytes[i]);
            }
        }
        assert(t =~= bytes.subrange(0, t.len() as int));
        if t.len() < bytes.len() {
            assert(rest[u.len() as int] == bytes[t.len() as int]);
        }
    } else {
        assert(threadtrack::c_text(bytes) =~= bytes.subrange(0, 0));
    }
}

/// The texts of the thread and the program of an event end before their first zero.
pub proof fn texts_end_at_zero(e: &ThreadEvent, comm: &str, filename: &str)
    requires
        call_ensures(ThreadEvent::comm_str, (e,), comm),
        call_ensures(ThreadEvent::filename_str, (e,), filename),
    ensures
        is_before_zero(encode_utf8(comm@), e.comm@),
        is_before_zero(encode_utf8(filename@), e.filename@),
{
    text_ends_at_zero(e.filename@);
    text_ends_at_zero(e.comm@);
}

/// The entry is the process `pid`, whose name could be read.
pub open spec fn is_process_entry(entry: ProcEntry, pid: i32, name: Seq<char>) -> bool {
    &&& entry.task.file_name matches Some(f) && text::parsed_i32(f@) == Some(pid)
    &&& entry.task.comm matches Some(comm) && text::trimmed(comm@) == name
}

/// The entry is a process `pid` that has the thread `tid`, not the process itself, whose name
/// could be read.
pub open spec fn is_thread_entry(
    entry: ProcEntry,
    thread: TaskEntry,
    pid: i32,
    tid: i32,
    name: Seq<char>,
) -> bool {
    &&& entry.task.file_name matches Some(f) && text::parsed_i32(f@) == Some(pid)
    &&& thread.file_name matches Some(g) && text::parsed_i32(g@) == Some(tid)
    &&& thread.comm matches Some(comm) && text::trimmed(comm@) == name
    &&& tid != pid
}

/// Some event tells the name of the process.
pub open spec fn tells_process(events: Seq<TraceInput>, pid: i32, name: Seq<char>) -> bool {
    exists|j: int|
        0 <= j < events.len() && #[trigger] is_process_name(events[j], pid, name)
}

/// Some event tells the name of the thread.
pub open spec fn tells_thread(
    events: Seq<TraceInput>,
    pid: i32,
    tid: i32,
    name: Seq<char>,
) -> bool {
    exists|j: int|
        0 <= j < events.len() && #[trigger] is_thread_name(events[j], pid, tid, name)
}

pub open spec fn is_process_name(e: TraceInput, pid: i32, name: Seq<char>) -> bool {
    e matches TraceInput::ProcessName(n) && n.pid == pid && n.name@ == name
}

pub open spec fn is_thread_name(e: TraceInput, pid: i32, tid: i32, name: Seq<char>) -> bool {
    e matches TraceInput::ThreadName(n) && n.pid == pid && n.tid == tid && n.name@ == name
}

proof fn names_of_entry_are_scanned(entries: Seq<ProcEntry>, n: int, i: int, k: int)
    requires
        0 <= i < n,
        0 <= k < threadtrack::process_names_of(entries[i]).len(),
    ensures
        threadtrack::scan_names(entries, n).contains(
            threadtrack::process_names_of(entries[i])[k],
        ),
    decreases n,
{
    let all = threadtrack::scan_names(entries, n);
    let before = threadtrack::scan_names(entries, n - 1);
    let own = threadtrack::process_names_of(entries[n - 1]);
    if i == n - 1 {
        assert(all[before.len() + k] == own[k]);
    } else {
        names_of_entry_are_scanned(entries, n - 1, i, k);
        let name = threadtrack::process_names_of(entries[i])[k];
        let j = choose|j: int| 0 <= j < before.len() && before[j] == name;
        assert(all[j] == name);
    }
}

proof fn name_of_thread_is_scanned(pid: i32, threads: Seq<TaskEntry>, n: int, i: int)
    requires
        0 <= i < n,
        threadtrack::thread_name_of(pid, threads[i]).len() > 0,
    ensures
        threadtrack::thread_names_of(pid, threads, n).contains(
            threadtrack::thread_name_of(pid, threads[i])[0],
        ),
    decreases n,
{
    let all = threadtrack::thread_names_of(pid, threads, n);
    let before = threadtrack::thread_names_of(pid, threads, n - 1);
    let own = threadtrack::thread_name_of(pid, threads[n - 1]);
    if i == n - 1 {
        assert(all[before.len() as int] == own[0]);
    } else {
        name_of_thread_is_scanned(pid, threads, n - 1, i);
        let name = threadtrack::thread_name_of(pid, threads[i])[0];
        let j = choose|j: int| 0 <= j < before.len() && before[j] == name;
        assert(all[j] == name);
    }
}

proof fn scanned_names_are_told(
    entries: Seq<ProcEntry>,
    out: Seq<TraceInput>,
    i: int,
    k: int,
    pid: i32,
    tid: i32,
    name: Seq<char>,
)
    requires
        threadtrack::only_names(out),
        threadtrack::names_view(out) == threadtrack::scan_names(entries, entries.len() as int),
        0 <= i < entries.len(),
    ensures
        is_process_entry(entries[i], pid, name) ==> tells_process(out, pid, name),
        0 <= k < entries[i].threads@.len() && is_thread_entry(
            entries[i],
            entries[i].threads@[k],
            pid,
            tid,
            name,
        ) ==> tells_thread(out, pid, tid, name),
{
    let entry = entries[i];
    let n = entries.len() as int;
    let own = threadtrack::process_names_of(entry);
    let names = threadtrack::names_view(out);
    if is_process_entry(entry, pid, name) {
        let told = threadtrack::NameView::Process { name, pid };
        assert(own[0] == told);
        names_of_entry_are_scanned(entries, n, i, 0);
        let j = choose|j: int| 0 <= j < names.len() && names[j] == told;
        assert(threadtrack::name_view(out[j]) == told);
        assert(is_process_name(out[j], pid, name));
    }
    if 0 <= k < entry.threads@.len() && is_thread_entry(entry, entry.threads@[k], pid, tid, name) {
        let told = threadtrack::NameView::Thread { name, tid, pid };
        let threads = threadtrack::thread_names_of(
            pid,
            entry.threads@,
            entry.threads@.len() as int,
        );
        assert(threadtrack::thread_name_of(pid, entry.threads@[k])[0] == told);
        name_of_thread_is_scanned(pid, entry.threads@, entry.threads@.len() as int, k);
        let t = choose|t: int| 0 <= t < threads.len() && threads[t] == told;
        let at = t + own.len() - threads.len();
        assert(own[at] == told);
        names_of_entry_are_scanned(entries, n, i, at);
        let j = choose|j: int| 0 <= j < names.len() && names[j] == told;
        assert(threadtrack::name_view(out[j]) == told);
        assert(is_thread_name(out[j], pid, tid, name));
    }
}

/// The event names a process or a thread that is listed.
pub open spec fn is_listed(e: TraceInput, entry: ProcEntry) -> bool {
    match e {
        TraceInput::ProcessName(n) => is_process_entry(entry, n.pid, n.name@),
        TraceInput::ThreadName(n) => exists|k: int|
            0 <= k < entry.threads@.len() && #[trigger] is_thread_entry(
                entry,
                entry.threads@[k],
                n.pid,
                n.tid,
                n.name@,
            ),
        _ => false,
    }
}

proof fn thread_name_is_of_entry(pid: i32, threads: Seq<TaskEntry>, n: int, j: int)
    requires
        0 <= j < threadtrack::thread_names_of(pid, threads, n).len(),
        n <= threads.len(),
    ensures
        exists|k: int|
            0 <= k < n && threadtrack::thread_name_of(pid, #[trigger] threads[k]).len() == 1
                && threadtrack::thread_name_of(pid, threads[k])[0]
                == threadtrack::thread_names_of(pid, threads, n)[j],
    decreases n,
{
    if n > 0 {
        let before = threadtrack::thread_names_of(pid, threads, n - 1);
        let own = threadtrack::thread_name_of(pid, threads[n - 1]);
        if j < before.len() {
            thread_name_is_of_entry(pid, threads, n - 1, j);
        } else {
            assert(own.len() <= 1);
            assert(own[0] == threadtrack::thread_names_of(pid, threads, n)[j]);
        }
    }
}

proof fn name_is_of_entry(entries: Seq<ProcEntry>, n: int, j: int)
    requires
        0 <= j < threadtrack::scan_names(entries, n).len(),
        n <= entries.len(),
    ensures
        exists|i: int|
            0 <= i < n && threadtrack::process_names_of(#[trigger] entries[i]).contains(
                threadtrack::scan_names(entries, n)[j],
            ),
    decreases n,
{
    if n > 0 {
        let before = threadtrack::scan_names(entries, n - 1);
        let own = threadtrack::process_names_of(entries[n - 1]);
        if j < before.len() {
            name_is_of_entry(entries, n - 1, j);
            assert(threadtrack::scan_names(entries, n)[j] == before[j]);
        } else {
            assert(own[j - before.len()] == threadtrack::scan_names(entries, n)[j]);
            assert(threadtrack::process_names_of(entries[n - 1]).contains(
                threadtrack::scan_names(entries, n)[j],
            ));
        }
    }
}

proof fn told_names_are_listed(entries: Seq<ProcEntry>, out: Seq<TraceInput>, j: int)
    requires
        threadtrack::only_names(out),
        threadtrack::names_view(out) == threadtrack::scan_names(entries, entries.len() as int),
        0 <= j < out.len(),
    ensures
        exists|i: int| 0 <= i < entries.len() && is_listed(out[j], #[trigger] entries[i]),
{
    let names = threadtrack::names_view(out);
    assert(names.len() == out.len());
    name_is_of_entry(entries, entries.len() as int, j);
    let i = choose|i: int|
        0 <= i < entries.len() && threadtrack::process_names_of(#[trigger] entries[i]).contains(
            names[j],
        );
    let entry = entries[i];
    let own = threadtrack::process_names_of(entry);
    let at = choose|at: int| 0 <= at < own.len() && own[at] == names[j];
    assert(names[j] == threadtrack::name_view(out[j]));
    let pid = text::parsed_i32(entry.task.file_name->Some_0@)->Some_0;
    let threads = threadtrack::thread_names_of(pid, entry.threads@, entry.threads@.len() as int);
    let first = own.len() - threads.len();
    if at < first {
        assert(own[at] is Process);
        assert(out[j] is ProcessName);
        assert(is_listed(out[j], entries[i]));
    } else {
        assert(threads[at - first] == own[at]);
        thread_name_is_of_entry(pid, entry.threads@, entry.threads@.len() as int, at - first);
        let k = choose|k: int|
            0 <= k < entry.threads@.len() && threadtrack::thread_name_of(
                pid,
                #[trigger] entry.threads@[k],
            ).len() == 1 && threadtrack::thread_name_of(pid, entry.threads@[k])[0]
                == threads[at - first];
        assert(own[at] is Thread);
        assert(out[j] is ThreadName);
        let n = out[j]->ThreadName_0;
        assert(is_thread_entry(entry, entry.threads@[k], n.pid, n.tid, n.name@));
        assert(is_listed(out[j], entries[i]));
    }
}

/// Each process and each thread that is listed with a number and a name is told, the thread with
/// its own number and that of its process; and nothing else is told.
pub proof fn listed_names_are_told(
    entries: &Vec<ProcEntry>,
    out: Vec<TraceInput>,
    i: int,
    k: int,
    pid: i32,
    tid: i32,
    name: Seq<char>,
    j: int,
)
    requires
        call_ensures(scan_proc, (entries,), out),
        0 <= i < entries@.len(),
    ensures
        is_process_entry(entries@[i], pid, name) ==> tells_process(out@, pid, name),
        0 <= k < entries@[i].threads@.len() && is_thread_entry(
            entries@[i],
            entries@[i].threads@[k],
            pid,
            tid,
            name,
        ) ==> tells_thread(out@, pid, tid, name),
        0 <= j < out@.len() ==> exists|m: int|
            0 <= m < entries@.len() && is_listed(out@[j], #[trigger] entries@[m]),
{
    scanned_names_are_told(entries@, out@, i, k, pid, tid, name);
    if 0 <= j < out@.len() {
        told_names_are_listed(entries@, out@, j);
    }
}

/// The names of what is there are told once, before all events; where they cannot be listed, the
/// reason is told and the list stays due.
pub proof fn names_are_told_once(
    t: &mut ThreadTracker,
    listing: Result<Vec<ProcEntry>, String>,
    r: Result<Vec<TraceInput>, BpfError>,
    due: bool,
    due_after: bool,
    i: int,
    k: int,
    pid: i32,
    tid: i32,
    name: Seq<char>,
)
    requires
        call_ensures(ThreadTracker::scan_due, (old(t),), due),
        call_ensures(ThreadTracker::before_events, (t, listing), r),
        call_ensures(ThreadTracker::scan_due, (final(t),), due_after),
    ensures
        !due ==> !due_after && (r matches Ok(names) && names@.len() == 0),
        due && listing is Ok ==> !due_after && r is Ok,
        due ==> (listing matches Ok(entries) ==> (0 <= i < entries@.len() ==> {
            let out = r->Ok_0@;
            &&& is_process_entry(entries@[i], pid, name) ==> tells_process(out, pid, name)
            &&& 0 <= k < entries@[i].threads@.len() && is_thread_entry(
                entries@[i],
                entries@[i].threads@[k],
                pid,
                tid,
                name,
            ) ==> tells_thread(out, pid, tid, name)
        })),
        due ==> (listing matches Err(reason) ==> due_after && (r matches Err(BpfError::MapError(m))
            && m@ == "failed to read /proc: "@ + reason@)),
{
    if due {
        if let Ok(entries) = listing {
            if 0 <= i < entries@.len() {
                scanned_names_are_told(entries@, r->Ok_0@, i, k, pid, tid, name);
            }
        }
    }
}

/// A message reports the value of its counter, in whichever stream it is, and nothing else is a
/// quantity.
pub proof fn quantity_is_that_of_counter(message: &Message, q: Option<Quantity>, stream_id: u64)
    requires
        call_ensures(reported_quantity, (message,), q),
    ensures
        forall|c: StreamCounter|
            #[trigger] carries(*message, stream_id, StreamEvent::Counter(c)) ==> q == Some(c.value),
        forall|t: Track| #[trigger] carries(*message, stream_id, StreamEvent::Track(t)) ==> q is None,
        forall|i: StreamInstant|
            #[trigger] carries(*message, stream_id, StreamEvent::Instant(i)) ==> q is None,
{
}

/// There is room for an event where the times of its own thread can still be told with it.
pub proof fn room_is_for_own_thread(c: &CpuUtil, e: &CpuEvent, b: bool)
    requires
        call_ensures(CpuUtil::has_room, (c, e), b),
    ensures
        b <==> forall|i: int|
            0 <= i < c@.threads.len() && (#[trigger] c@.threads[i]).pid == e.tgid as i32
                && c@.threads[i].tid == e.tid as i32 ==> c@.threads[i].cpu_time_ns
                + e.total_time_ns <= u64::MAX && c@.threads[i].kernel_time_ns + e.kernel_time_ns
                <= u64::MAX,
{
}

} // verus!
