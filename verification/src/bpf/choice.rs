//! What is collected of which processes, and in which order.

use crate::bpf::config;
use crate::bpf::config::{
    let_through, BpfConfig, BpfConsumer, BpfObject, Component, CpuUtilConfig, ProfilerConfig,
    RoundStep, SchedTraceConfig, Wanted,
};
use crate::bpf::error::BpfError;
use crate::bpf::names;
use crate::bpf::names::{base_name, NameSet};
use crate::bpf::stream;
use crate::bpf::stream::{
    Message, MessageSink, MessageView, StreamEvent, StreamEventView, Track, TrackId, TrackType,
};
use vstd::prelude::*;

verus! {

/// `name` is in the list.
pub open spec fn lists(list: Seq<String>, name: Seq<char>) -> bool {
    exists|i: int| 0 <= i < list.len() && (#[trigger] list[i])@ == name
}

/// `filters` and `listed` are the names of processes that count for a part: those that are given
/// for all parts, and where there are none, its own.
pub open spec fn are_filters(
    filters: Set<Seq<char>>,
    listed: Seq<String>,
    all: Seq<String>,
    own: Seq<String>,
    name: Seq<char>,
) -> bool {
    &&& all.len() > 0 ==> (filters.contains(name) <==> lists(all, name)) && (lists(listed, name)
        <==> lists(all, name)) && listed.len() == all.len()
    &&& all.len() == 0 ==> (filters.contains(name) <==> lists(own, name)) && (lists(listed, name)
        <==> lists(own, name)) && listed.len() == own.len()
}

proof fn effective_lists(all: Seq<String>, own: Seq<String>, name: Seq<char>)
    ensures
        config::effective(all, own).contains(name) <==> lists(
            if all.len() > 0 {
                all
            } else {
                own
            },
            name,
        ),
        config::effective(all, own).to_set().contains(name) <==> config::effective(
            all,
            own,
        ).contains(name),
{
    let e = config::effective(all, own);
    let list = if all.len() > 0 {
        all
    } else {
        own
    };
    if lists(list, name) {
        let i = choose|i: int| 0 <= i < list.len() && (#[trigger] list[i])@ == name;
        assert(e[i] == name);
    }
    if e.contains(name) {
        let i = choose|i: int| 0 <= i < e.len() && e[i] == name;
        assert(list[i]@ == name);
    }
}

proof fn same_texts_list_same(a: Seq<String>, b: Seq<Seq<char>>, name: Seq<char>)
    requires
        config::texts(a) == b,
    ensures
        lists(a, name) <==> b.contains(name),
        a.len() == b.len(),
{
    let t = config::texts(a);
    if lists(a, name) {
        let i = choose|i: int| 0 <= i < a.len() && (#[trigger] a[i])@ == name;
        assert(t[i] == name);
    }
    if b.contains(name) {
        let i = choose|i: int| 0 <= i < t.len() && t[i] == name;
        assert(a[i]@ == name);
    }
}

proof fn filters_are_resolved(
    filters: Set<Seq<char>>,
    listed: Seq<String>,
    all: Seq<String>,
    own: Seq<String>,
    name: Seq<char>,
)
    requires
        config::texts(listed) == config::effective(all, own),
        filters == config::effective(all, own).to_set(),
    ensures
        are_filters(filters, listed, all, own, name),
{
    effective_lists(all, own, name);
    same_texts_list_same(listed, config::effective(all, own), name);
}

/// The names of processes can be filtered by only where threads are tracked. Else each part that
/// was asked for is there, with its own settings and the names that count for it.
pub proof fn parts_are_built(c: BpfConfig, r: Result<BpfObject, BpfError>, name: Seq<char>)
    requires
        call_ensures(BpfConfig::build, (c,), r),
    ensures
        ({
            let all = c.filter_process@;
            let by_name = {
                ||| c.cpu_util matches Some(p) && (all.len() > 0 || p.filter_process@.len() > 0)
                ||| c.profiler matches Some(p) && (all.len() > 0 || p.filter_process@.len() > 0)
                ||| c.schedtrace matches Some(p) && (all.len() > 0 || p.filter_process@.len() > 0)
            };
            &&& r is Err <==> c.thread_tracker is None && by_name
            &&& r matches Err(e) ==> (e matches BpfError::LoadError(t) && t@
                == "Thread tracker must be enabled when using process name filtering"@)
            &&& r matches Ok(o) ==> {
                &&& o.threadtrack is Some <==> c.thread_tracker is Some
                &&& o.cpuutils is Some <==> c.cpu_util is Some
                &&& o.profiler is Some <==> c.profiler is Some
                &&& o.schedtrace is Some <==> c.schedtrace is Some
                &&& o.perfcounter == c.perfcounter
                &&& !o.watched_tgids@.contains(0) && o.watched_tgids@ == Set::<i32>::empty()
                &&& c.cpu_util matches Some(p) ==> {
                    let q = o.cpuutils->Some_0;
                    &&& q.frequency == p.frequency
                    &&& q.pid_filters@ == p.pid_filters@
                    &&& are_filters(
                        o.cpuutil_filters@,
                        q.filter_process@,
                        all,
                        p.filter_process@,
                        name,
                    )
                }
                &&& c.profiler matches Some(p) ==> {
                    let q = o.profiler->Some_0;
                    &&& q.sample_freq == p.sample_freq
                    &&& q.kernel_samples == p.kernel_samples
                    &&& q.user_samples == p.user_samples
                    &&& q.debug_syms == p.debug_syms
                    &&& q.perf_map == p.perf_map
                    &&& q.map_files == p.map_files
                    &&& q.pid_filters@ == p.pid_filters@
                    &&& are_filters(
                        o.profiler_filters@,
                        q.filter_process@,
                        all,
                        p.filter_process@,
                        name,
                    )
                }
                &&& c.schedtrace matches Some(p) ==> {
                    let q = o.schedtrace->Some_0;
                    &&& q.pid_filters@ == p.pid_filters@
                    &&& are_filters(
                        o.schedtrace_filters@,
                        q.filter_process@,
                        all,
                        p.filter_process@,
                        name,
                    )
                }
                &&& c.cpu_util is None ==> !o.cpuutil_filters@.contains(name)
                &&& c.profiler is None ==> !o.profiler_filters@.contains(name)
                &&& c.schedtrace is None ==> !o.schedtrace_filters@.contains(name)
            }
        }),
{
    let all = c.filter_process@;
    if let Ok(o) = r {
        if let Some(p) = c.cpu_util {
            let q = o.cpuutils->Some_0;
            filters_are_resolved(
                o.cpuutil_filters@,
                q.filter_process@,
                all,
                p.filter_process@,
                name,
            );
        }
        if let Some(p) = c.profiler {
            let q = o.profiler->Some_0;
            filters_are_resolved(
                o.profiler_filters@,
                q.filter_process@,
                all,
                p.filter_process@,
                name,
            );
        }
        if let Some(p) = c.schedtrace {
            let q = o.schedtrace->Some_0;
            filters_are_resolved(
                o.schedtrace_filters@,
                q.filter_process@,
                all,
                p.filter_process@,
                name,
            );
        }
    }
}

/// `name` is what stands in `path` behind the last slash, or all of it.
pub open spec fn is_last_part(path: Seq<char>, name: Seq<char>) -> bool {
    &&& name.len() <= path.len()
    &&& name == path.skip(path.len() - name.len())
    &&& forall|i: int| 0 <= i < name.len() ==> #[trigger] name[i] != '/'
    &&& name.len() < path.len() ==> path[path.len() - name.len() - 1] == '/'
}

proof fn base_is_last_part(path: Seq<char>)
    ensures
        is_last_part(path, names::base_name_spec(path)),
    decreases path.len(),
{
    let name = names::base_name_spec(path);
    if path.len() == 0 || path.last() == '/' {
        assert(path.skip(path.len() as int) =~= seq![]);
    } else {
        let rest = path.drop_last();
        let before = names::base_name_spec(rest);
        base_is_last_part(rest);
        assert(name == before.push(path.last()));
        assert(name =~= path.skip(path.len() - name.len()));
        assert forall|i: int| 0 <= i < name.len() implies #[trigger] name[i] != '/' by {
            if i < before.len() {
                assert(name[i] == before[i]);
            }
        }
        if name.len() < path.len() {
            assert(rest[rest.len() - before.len() - 1] == path[path.len() - name.len() - 1]);
        }
    }
}

/// The base name of a path is what stands behind its last slash.
pub proof fn base_name_is_last_part(path: &str, name: &str)
    requires
        call_ensures(base_name, (path,), name),
    ensures
        is_last_part(path@, name@),
{
    base_is_last_part(path@);
}

/// A set of names has the names that it was made of, and no others.
pub proof fn set_has_its_names(list: &Vec<String>, s: NameSet, name: &str, b: bool)
    requires
        call_ensures(NameSet::from_list, (list,), s),
        call_ensures(NameSet::contains, (&s, name), b),
    ensures
        b <==> lists(list@, name@),
{
}

/// A part wants a process where its filters have the name of the process, or what stands behind
/// the last slash of the name; each part goes by its own filters.
pub proof fn processes_are_wanted_by_name(o: &BpfObject, name: &str, base: &str, w: Wanted)
    requires
        call_ensures(BpfObject::wanted, (o, name), w),
        call_ensures(base_name, (name,), base),
    ensures
        is_last_part(name@, base@),
        w.cpuutil <==> o.cpuutils is Some && (o.cpuutil_filters@.contains(name@)
            || o.cpuutil_filters@.contains(base@)),
        w.profiler <==> o.profiler is Some && (o.profiler_filters@.contains(name@)
            || o.profiler_filters@.contains(base@)),
        w.schedtrace <==> o.schedtrace is Some && (o.schedtrace_filters@.contains(name@)
            || o.schedtrace_filters@.contains(base@)),
{
    base_is_last_part(name@);
}

/// A process is let through where a part that wants it has taken it.
pub proof fn wanted_processes_are_let_through(wanted: Wanted, took: Wanted, b: bool)
    requires
        call_ensures(let_through, (wanted, took), b),
    ensures
        wanted.cpuutil && took.cpuutil ==> b,
        wanted.profiler && took.profiler ==> b,
        wanted.schedtrace && took.schedtrace ==> b,
        b ==> (wanted.cpuutil && took.cpuutil) || (wanted.profiler && took.profiler) || (
        wanted.schedtrace && took.schedtrace),
{
}

/// The message announces the thread `tid` of the process `pid`.
pub open spec fn announces(m: MessageView, tid: i32, pid: i32, now_ns: u64) -> bool {
    m matches MessageView::Event(StreamEventView::Instant(i)) && i.name == "discovered"@
        && i.timestamp == now_ns && i.track_id == (TrackId::Thread { tid, pid })
}

/// Each message is passed on as it is. Behind that of a thread whose process is watched the thread
/// is announced, with its own numbers, and behind no other. A process is watched from when one
/// that was described is let through.
pub proof fn messages_are_passed_on<C: MessageSink>(
    o: &mut BpfObject,
    message: Message,
    took: Wanted,
    now_ns: u64,
    c: &mut C,
    answer: i32,
    other: i32,
)
    requires
        call_ensures(BpfObject::pass_on::<C>, (o, message, took, now_ns, c), answer),
        stream::exchange(*final(c)).willing_since(stream::exchange(*old(c))),
    ensures
        answer == 0,
        old(c).log().is_prefix_of(final(c).log()),
        ({
            let told = final(c).log().skip(old(c).log().len() as int);
            let filters = old(o).cpuutils is Some || old(o).profiler is Some || old(
                o,
            ).schedtrace is Some;
            &&& told.len() > 0
            &&& told[0] == message.deep_view()
            &&& told.len() <= 2
            &&& told.len() == 2 <==> filters && (message matches Message::Event(
                StreamEvent::Track(t),
            ) && (t.track_type matches TrackType::Thread { tid, pid }
                && old(o).watched_tgids@.contains(pid)))
            &&& told.len() == 2 ==> (message matches Message::Event(StreamEvent::Track(t)) && (
            t.track_type matches TrackType::Thread { tid, pid } && announces(
                told[1],
                tid,
                pid,
                now_ns,
            )))
        }),
        final(o).watched_tgids@.contains(other) <==> old(o).watched_tgids@.contains(other) || (
        message matches Message::Event(StreamEvent::Track(t)) && (
        t.track_type matches TrackType::Process { pid } && pid == other && {
            let w = old(o).wants(t.name@);
            (w.cpuutil && took.cpuutil) || (w.profiler && took.profiler) || (w.schedtrace
                && took.schedtrace)
        })),
        final(o).cpuutils == old(o).cpuutils,
        final(o).profiler == old(o).profiler,
        final(o).schedtrace == old(o).schedtrace,
        final(o).perfcounter == old(o).perfcounter,
        final(o).threadtrack == old(o).threadtrack,
        final(o).cpuutil_filters == old(o).cpuutil_filters,
        final(o).profiler_filters == old(o).profiler_filters,
        final(o).schedtrace_filters == old(o).schedtrace_filters,
{
    let before = stream::exchange(*old(c));
    let after = stream::exchange(*final(c));
    let sent = old(o).passes_on(message, now_ns);
    stream::willing_sink_receives_all(before, sent, answer, after);
    assert(final(c).log() == old(c).log() + sent);
    assert(final(c).log().skip(old(c).log().len() as int) =~= sent);
}

/// What reads the events has the parts that are there.
pub proof fn parts_are_read(o: &BpfObject, c: BpfConsumer)
    requires
        call_ensures(BpfObject::consumer, (o,), c),
    ensures
        c.threadtrack <==> o.threadtrack is Some,
        c.cpuutil <==> o.cpuutils is Some,
        c.profiler <==> o.profiler is Some,
        c.schedtrace <==> o.schedtrace is Some,
        c.perfcounter <==> o.perfcounter is Some,
{
}

/// The parts that are there come once each, and no others.
pub open spec fn has_parts(order: Seq<Component>, c: BpfConsumer) -> bool {
    &&& order.no_duplicates()
    &&& order.contains(Component::ThreadTracker) <==> c.threadtrack
    &&& order.contains(Component::CpuUtil) <==> c.cpuutil
    &&& order.contains(Component::Profiler) <==> c.profiler
    &&& order.contains(Component::SchedTrace) <==> c.schedtrace
    &&& order.contains(Component::PerfCounter) <==> c.perfcounter
}

proof fn both_have_parts(a: Seq<Component>, b: Seq<Component>, x: Component)
    ensures
        (a + b).contains(x) <==> a.contains(x) || b.contains(x),
{
    if a.contains(x) {
        let i = choose|i: int| 0 <= i < a.len() && a[i] == x;
        assert((a + b)[i] == x);
    }
    if b.contains(x) {
        let i = choose|i: int| 0 <= i < b.len() && b[i] == x;
        assert((a + b)[a.len() + i] == x);
    }
}

proof fn five_parts(p: Seq<Component>, q: Seq<Component>, r: Seq<Component>, s: Seq<Component>, t:
    Seq<Component>, x: Component)
    ensures
        (p + q + r + s + t).contains(x) <==> p.contains(x) || q.contains(x) || r.contains(x)
            || s.contains(x) || t.contains(x),
{
    both_have_parts(p, q, x);
    both_have_parts(p + q, r, x);
    both_have_parts(p + q + r, s, x);
    both_have_parts(p + q + r + s, t, x);
}

proof fn one_part(there: bool, c: Component, x: Component)
    ensures
        config::part(there, c).contains(x) <==> there && c == x,
{
    if there {
        assert(config::part(there, c)[0] == c);
    }
}

/// Events are read of all parts that are there, in one order for waiting and not waiting: those
/// of threads first, so that names are known, and those of counters last. Parts are set up in an
/// order in which threads come last.
pub proof fn parts_are_read_in_order(
    c: &BpfConsumer,
    consumed: Vec<Component>,
    polled: Vec<Component>,
    set_up: Vec<Component>,
)
    requires
        call_ensures(BpfConsumer::consume, (c,), consumed),
        call_ensures(BpfConsumer::poll, (c,), polled),
        call_ensures(BpfConsumer::set_up_order, (c,), set_up),
    ensures
        polled@ == consumed@,
        has_parts(consumed@, *c),
        has_parts(set_up@, *c),
        c.threadtrack ==> consumed@.first() is ThreadTracker && set_up@.last() is ThreadTracker,
        c.perfcounter ==> consumed@.last() is PerfCounter,
{
    let tt = config::part(c.threadtrack, Component::ThreadTracker);
    let cu = config::part(c.cpuutil, Component::CpuUtil);
    let pr = config::part(c.profiler, Component::Profiler);
    let st = config::part(c.schedtrace, Component::SchedTrace);
    let pc = config::part(c.perfcounter, Component::PerfCounter);
    assert(consumed@ == tt + cu + pr + st + pc);
    assert(set_up@ == cu + pr + st + pc + tt);
    assert forall|x: Component|
        true implies #[trigger] consumed@.contains(x) == (tt.contains(x) || cu.contains(x)
        || pr.contains(x) || st.contains(x) || pc.contains(x)) by {
        five_parts(tt, cu, pr, st, pc, x);
    }
    assert forall|x: Component|
        true implies #[trigger] set_up@.contains(x) == (tt.contains(x) || cu.contains(x)
        || pr.contains(x) || st.contains(x) || pc.contains(x)) by {
        five_parts(cu, pr, st, pc, tt, x);
    }
    assert forall|there: bool, y: Component, x: Component| #[trigger]
        config::part(there, y).contains(x) <==> there && y == x by {
        one_part(there, y, x);
    }
}

/// The messages of the profiler and of the counters are in streams of their own, numbered from
/// one on; those of all other parts, and of parts that are not there, are in none.
pub proof fn streams_are_numbered(
    c: &BpfConsumer,
    profiler: Option<u64>,
    counters: Option<u64>,
    part: Component,
    other: Option<u64>,
)
    requires
        call_ensures(BpfConsumer::stream_id, (c, Component::Profiler), profiler),
        call_ensures(BpfConsumer::stream_id, (c, Component::PerfCounter), counters),
        call_ensures(BpfConsumer::stream_id, (c, part), other),
    ensures
        profiler is Some <==> c.profiler,
        counters is Some <==> c.perfcounter,
        profiler matches Some(n) ==> n == 1,
        counters matches Some(n) ==> (c.profiler ==> n == 2) && (!c.profiler ==> n == 1),
        !(part is Profiler) && !(part is PerfCounter) ==> other is None,
{
}

/// A round takes in the events of part after part, and ends with the first failure.
pub proof fn round_goes_on(
    c: &BpfConsumer,
    done: usize,
    last: Result<(), BpfError>,
    order: Vec<Component>,
    step: RoundStep,
)
    requires
        call_ensures(BpfConsumer::consume, (c,), order),
        call_ensures(BpfConsumer::round_step, (c, done, last), step),
    ensures
        last matches Err(e) ==> step == RoundStep::Failed(e),
        last is Ok && done < order@.len() ==> step == RoundStep::Take(order@[done as int]),
        last is Ok && done >= order@.len() ==> step is Finished,
{
}

/// The time between two reports is a second divided by how often they come, rounded down.
pub proof fn interval_fits_frequency(c: &CpuUtilConfig, ns: u64)
    requires
        call_ensures(CpuUtilConfig::interval_ns, (c,), ns),
    ensures
        c.frequency == 0 ==> ns == 0,
        c.frequency > 0 ==> ns * c.frequency <= 1_000_000_000 < (ns + 1) * c.frequency,
{
    if c.frequency > 0 {
        let f = c.frequency as int;
        let n = ns as int;
        assert(n == 1_000_000_000int / f);
        assert(n * f <= 1_000_000_000 < (n + 1) * f) by (nonlinear_arith)
            requires
                f > 0,
                n == 1_000_000_000int / f,
        ;
    }
}

/// Processes are filtered where numbers or names of them are given.
pub proof fn filters_are_noticed(p: &ProfilerConfig, s: &SchedTraceConfig, of_p: bool, of_s: bool)
    requires
        call_ensures(ProfilerConfig::filter_enabled, (p,), of_p),
        call_ensures(SchedTraceConfig::filter_enabled, (s,), of_s),
    ensures
        !of_p <==> p.pid_filters@.len() == 0 && p.filter_process@.len() == 0,
        !of_s <==> s.pid_filters@.len() == 0 && s.filter_process@.len() == 0,
{
}

/// A failure in words tells what failed, and why.
pub proof fn failures_are_told(e: &BpfError, s: String)
    requires
        call_ensures(BpfError::message, (e,), s),
    ensures
        e matches BpfError::LoadError(t) ==> s@ == "failed to load BPF program: "@ + t@,
        e matches BpfError::AttachError(t) ==> s@ == "failed to attach BPF program: "@ + t@,
        e matches BpfError::MapError(t) ==> s@ == "BPF map operation failed: "@ + t@,
{
}

} // verus!
