//! What to collect, and how it is put together.

use crate::bpf::error::BpfError;
use crate::bpf::names;
use crate::bpf::names::{base_name, NameSet};
use crate::bpf::perfcounter::PerfCounterConfig;
use crate::bpf::stream;
use crate::bpf::stream::{
    Exchange, Message, MessageSink, MessageView, StreamEvent, StreamEventView, StreamInstant,
    StreamInstantView, TrackId, TrackType,
};
use std::collections::HashSet;
use vstd::prelude::*;
use vstd::string::*;

verus! {

broadcast use vstd::std_specs::hash::group_hash_axioms;

/// How the names of threads and processes are tracked.
pub struct ThreadTrackerConfig {}

/// How the processor time of threads is measured.
pub struct CpuUtilConfig {
    pub frequency: u64,
    pub pid_filters: Vec<u32>,
    pub filter_process: Vec<String>,
}

/// How call stacks are sampled.
pub struct ProfilerConfig {
    pub sample_freq: u64,
    pub kernel_samples: bool,
    pub user_samples: bool,
    pub pid_filters: Vec<i32>,
    pub filter_process: Vec<String>,
    pub debug_syms: bool,
    pub perf_map: bool,
    pub map_files: bool,
}

/// How scheduling is traced.
pub struct SchedTraceConfig {
    pub pid_filters: Vec<i32>,
    pub filter_process: Vec<String>,
}

/// How often processor time is measured where nothing else is asked for.
pub fn default_cpu_util_frequency() -> (f: u64)
    ensures
        f == 9,
{
    9
}

/// How often call stacks are sampled where nothing else is asked for.
pub fn default_sample_freq() -> (f: u64)
    ensures
        f == 99,
{
    99
}

/// Whether call stacks of programs are sampled where nothing else is asked for.
pub fn default_user_samples() -> (b: bool)
    ensures
        b,
{
    true
}

/// Whether debug symbols are used where nothing else is asked for.
pub fn default_debug_syms() -> (b: bool)
    ensures
        b,
{
    true
}

/// Whether mapped files are read through the process where nothing else is asked for.
pub fn default_map_files() -> (b: bool)
    ensures
        b,
{
    true
}

impl Default for CpuUtilConfig {
    fn default() -> (c: CpuUtilConfig)
        ensures
            c.frequency == 9,
            c.pid_filters@.len() == 0,
            c.filter_process@.len() == 0,
    {
        CpuUtilConfig {
            frequency: default_cpu_util_frequency(),
            pid_filters: Vec::new(),
            filter_process: Vec::new(),
        }
    }
}

impl CpuUtilConfig {
    /// The time between two measurements.
    pub open spec fn interval_ns_spec(self) -> u64 {
        if self.frequency == 0 {
            0
        } else {
            1_000_000_000u64 / self.frequency
        }
    }

    /// The time between two measurements; zero where none are asked for.
    pub fn interval_ns(&self) -> (n: u64)
        ensures
            n == self.interval_ns_spec(),
    {
        if self.frequency == 0 {
            0
        } else {
            1_000_000_000 / self.frequency
        }
    }
}

impl ProfilerConfig {
    /// Whether only some processes are sampled.
    pub fn filter_enabled(&self) -> (b: bool)
        ensures
            b <==> self.pid_filters@.len() > 0 || self.filter_process@.len() > 0,
    {
        !self.pid_filters.is_empty() || !self.filter_process.is_empty()
    }
}

impl Default for ProfilerConfig {
    fn default() -> (c: ProfilerConfig)
        ensures
            c.sample_freq == 0,
            !c.kernel_samples,
            !c.user_samples,
            c.pid_filters@.len() == 0,
            c.filter_process@.len() == 0,
            !c.debug_syms,
            !c.perf_map,
            !c.map_files,
    {
        ProfilerConfig {
            sample_freq: 0,
            kernel_samples: false,
            user_samples: false,
            pid_filters: Vec::new(),
            filter_process: Vec::new(),
            debug_syms: false,
            perf_map: false,
            map_files: false,
        }
    }
}

impl SchedTraceConfig {
    /// Whether only some processes are traced.
    pub fn filter_enabled(&self) -> (b: bool)
        ensures
            b <==> self.pid_filters@.len() > 0 || self.filter_process@.len() > 0,
    {
        !self.pid_filters.is_empty() || !self.filter_process.is_empty()
    }
}

/// What to collect. The process names in `filter_process`, where there are any, take the place
/// of those of the single parts.
pub struct BpfConfig {
    pub thread_tracker: Option<ThreadTrackerConfig>,
    pub cpu_util: Option<CpuUtilConfig>,
    pub profiler: Option<ProfilerConfig>,
    pub schedtrace: Option<SchedTraceConfig>,
    pub perfcounter: Option<PerfCounterConfig>,
    pub filter_process: Vec<String>,
}

impl Default for BpfConfig {
    fn default() -> (c: BpfConfig)
        ensures
            c.thread_tracker is None,
            c.cpu_util is None,
            c.profiler is None,
            c.schedtrace is None,
            c.perfcounter is None,
            c.filter_process@.len() == 0,
    {
        BpfConfig {
            thread_tracker: None,
            cpu_util: None,
            profiler: None,
            schedtrace: None,
            perfcounter: None,
            filter_process: Vec::new(),
        }
    }
}

/// The process names that count: `global`, where there are any, else `own`.
pub open spec fn effective(global: Seq<String>, own: Seq<String>) -> Seq<Seq<char>> {
    if global.len() > 0 {
        Seq::new(global.len(), |i: int| global[i]@)
    } else {
        Seq::new(own.len(), |i: int| own[i]@)
    }
}

/// The texts of a list.
pub open spec fn texts(list: Seq<String>) -> Seq<Seq<char>> {
    Seq::new(list.len(), |i: int| list[i]@)
}

/// What is said where process names are to be filtered but not tracked.
pub open spec fn tracker_missing() -> Seq<char> {
    "Thread tracker must be enabled when using process name filtering"@
}

impl BpfConfig {
    /// Whether a part that is there filters process names.
    pub open spec fn needs_process_filtering(self) -> bool {
        let global = self.filter_process@.len() > 0;
        ||| self.cpu_util matches Some(c) && (c.filter_process@.len() > 0 || global)
        ||| self.profiler matches Some(c) && (c.filter_process@.len() > 0 || global)
        ||| self.schedtrace matches Some(c) && (c.filter_process@.len() > 0 || global)
    }

    /// Puts together what is to be collected. Process names can only be filtered where they are
    /// tracked.
    pub fn build(self) -> (r: Result<BpfObject, BpfError>)
        ensures
            r is Ok <==> !(self.needs_process_filtering() && self.thread_tracker is None),
            r matches Err(e) ==> e.is_load(tracker_missing()),
            r matches Ok(o) ==> {
                &&& o.threadtrack is Some <==> self.thread_tracker is Some
                &&& o.perfcounter == self.perfcounter
                &&& match self.cpu_util {
                    None => o.cpuutils is None && o.cpuutil_filters@ == Set::<Seq<char>>::empty(),
                    Some(c) => {
                        &&& o.cpuutils is Some
                        &&& o.cpuutils->Some_0.frequency == c.frequency
                        &&& o.cpuutils->Some_0.pid_filters == c.pid_filters
                        &&& texts(o.cpuutils->Some_0.filter_process@) == effective(
                            self.filter_process@,
                            c.filter_process@,
                        )
                        &&& o.cpuutil_filters@ == effective(
                            self.filter_process@,
                            c.filter_process@,
                        ).to_set()
                    },
                }
                &&& match self.profiler {
                    None => o.profiler is None && o.profiler_filters@ == Set::<Seq<char>>::empty(),
                    Some(c) => {
                        &&& o.profiler is Some
                        &&& o.profiler->Some_0.sample_freq == c.sample_freq
                        &&& o.profiler->Some_0.kernel_samples == c.kernel_samples
                        &&& o.profiler->Some_0.user_samples == c.user_samples
                        &&& o.profiler->Some_0.pid_filters == c.pid_filters
                        &&& o.profiler->Some_0.debug_syms == c.debug_syms
                        &&& o.profiler->Some_0.perf_map == c.perf_map
                        &&& o.profiler->Some_0.map_files == c.map_files
                        &&& texts(o.profiler->Some_0.filter_process@) == effective(
                            self.filter_process@,
                            c.filter_process@,
                        )
                        &&& o.profiler_filters@ == effective(
                            self.filter_process@,
                            c.filter_process@,
                        ).to_set()
                    },
                }
                &&& match self.schedtrace {
                    None => o.schedtrace is None && o.schedtrace_filters@ == Set::<
                        Seq<char>,
                    >::empty(),
                    Some(c) => {
                        &&& o.schedtrace is Some
                        &&& o.schedtrace->Some_0.pid_filters == c.pid_filters
                        &&& texts(o.schedtrace->Some_0.filter_process@) == effective(
                            self.filter_process@,
                            c.filter_process@,
                        )
                        &&& o.schedtrace_filters@ == effective(
                            self.filter_process@,
                            c.filter_process@,
                        ).to_set()
                    },
                }
                &&& o.watched_tgids@ == Set::<i32>::empty()
            },
    {
        let global: bool = !self.filter_process.is_empty();
        let cpu_needs: bool = match &self.cpu_util {
            Some(cfg) => !cfg.filter_process.is_empty() || global,
            None => false,
        };
        let profiler_needs: bool = match &self.profiler {
            Some(cfg) => !cfg.filter_process.is_empty() || global,
            None => false,
        };
        let schedtrace_needs: bool = match &self.schedtrace {
            Some(cfg) => !cfg.filter_process.is_empty() || global,
            None => false,
        };
        if (cpu_needs || profiler_needs || schedtrace_needs) && self.thread_tracker.is_none() {
            return Err(
                BpfError::LoadError(
                    "Thread tracker must be enabled when using process name filtering".to_owned(),
                ),
            );
        }
        let (cpuutils, cpuutil_filters) = match self.cpu_util {
            None => (None, NameSet::new()),
            Some(cfg) => {
                let (filter_process, filters) = resolve_filter(
                    &self.filter_process,
                    cfg.filter_process,
                );
                (
                    Some(
                        CpuUtilConfig {
                            frequency: cfg.frequency,
                            pid_filters: cfg.pid_filters,
                            filter_process,
                        },
                    ),
                    filters,
                )
            },
        };
        let (profiler, profiler_filters) = match self.profiler {
            None => (None, NameSet::new()),
            Some(cfg) => {
                let (filter_process, filters) = resolve_filter(
                    &self.filter_process,
                    cfg.filter_process,
                );
                (
                    Some(
                        ProfilerConfig {
                            sample_freq: cfg.sample_freq,
                            kernel_samples: cfg.kernel_samples,
                            user_samples: cfg.user_samples,
                            pid_filters: cfg.pid_filters,
                            filter_process,
                            debug_syms: cfg.debug_syms,
                            perf_map: cfg.perf_map,
                            map_files: cfg.map_files,
                        },
                    ),
                    filters,
                )
            },
        };
        let (schedtrace, schedtrace_filters) = match self.schedtrace {
            None => (None, NameSet::new()),
            Some(cfg) => {
                let (filter_process, filters) = resolve_filter(
                    &self.filter_process,
                    cfg.filter_process,
                );
                (
                    Some(SchedTraceConfig { pid_filters: cfg.pid_filters, filter_process }),
                    filters,
                )
            },
        };
        Ok(
            BpfObject {
                threadtrack: self.thread_tracker,
                cpuutils,
                profiler,
                schedtrace,
                perfcounter: self.perfcounter,
                cpuutil_filters,
                profiler_filters,
                schedtrace_filters,
                watched_tgids: HashSet::new(),
            },
        )
    }
}

/// The process names that count, as a list and as a set.
fn resolve_filter(global: &Vec<String>, own: Vec<String>) -> (r: (Vec<String>, NameSet))
    ensures
        texts(r.0@) == effective(global@, own@),
        r.1@ == effective(global@, own@).to_set(),
{
    let list: Vec<String> = if !global.is_empty() {
        copied(global)
    } else {
        own
    };
    let set = NameSet::from_list(&list);
    proof {
        let e = effective(global@, own@);
        assert(texts(list@) =~= e);
        assert forall|n: Seq<char>| names::names_of(list@).contains(n) <==> e.to_set().contains(
            n,
        ) by {
            if names::names_of(list@).contains(n) {
                let i = choose|i: int| 0 <= i < list@.len() && (#[trigger] list@[i])@ == n;
                assert(e[i] == n);
            }
            if e.to_set().contains(n) {
                let i = choose|i: int| 0 <= i < e.len() && e[i] == n;
                assert(list@[i]@ == n);
            }
        }
        assert(names::names_of(list@) =~= e.to_set());
    }
    (list, set)
}

/// The same texts once more.
fn copied(list: &Vec<String>) -> (out: Vec<String>)
    ensures
        texts(out@) == texts(list@),
{
    let mut out: Vec<String> = Vec::new();
    let mut i: usize = 0;
    while i < list.len()
        invariant
            i <= list@.len(),
            out@.len() == i,
            forall|k: int| 0 <= k < i ==> (#[trigger] out@[k])@ == list@[k]@,
        decreases list@.len() - i,
    {
        out.push(list[i].clone());
        i += 1;
    }
    assert(texts(out@) =~= texts(list@));
    out
}

/// The parts that collect data.
#[derive(Debug, Clone, Copy, PartialEq, Eq, Structural)]
pub enum Component {
    ThreadTracker,
    CpuUtil,
    Profiler,
    SchedTrace,
    PerfCounter,
}

/// Which parts want a process to be let through their filter.
#[derive(Debug, Clone, Copy, PartialEq, Eq, Structural)]
pub struct Wanted {
    pub cpuutil: bool,
    pub profiler: bool,
    pub schedtrace: bool,
}

/// Whether a process is watched from now on: a part wanted it, and the filter of that part took
/// it.
pub open spec fn watches(wanted: Wanted, took: Wanted) -> bool {
    ||| wanted.cpuutil && took.cpuutil
    ||| wanted.profiler && took.profiler
    ||| wanted.schedtrace && took.schedtrace
}

/// Whether a process that some parts wanted is watched from now on, where the filters of some
/// parts took it.
pub fn let_through(wanted: Wanted, took: Wanted) -> (b: bool)
    ensures
        b == watches(wanted, took),
{
    wanted.cpuutil && took.cpuutil || wanted.profiler && took.profiler || wanted.schedtrace
        && took.schedtrace
}

/// What is to be collected, and the processes that were found so far.
pub struct BpfObject {
    pub threadtrack: Option<ThreadTrackerConfig>,
    pub cpuutils: Option<CpuUtilConfig>,
    pub profiler: Option<ProfilerConfig>,
    pub schedtrace: Option<SchedTraceConfig>,
    pub perfcounter: Option<PerfCounterConfig>,
    pub cpuutil_filters: NameSet,
    pub profiler_filters: NameSet,
    pub schedtrace_filters: NameSet,
    pub watched_tgids: HashSet<i32>,
}

/// Whether a filter names a process, by its name or by the last component of it.
pub open spec fn named_by(filters: Set<Seq<char>>, name: Seq<char>) -> bool {
    filters.contains(name) || filters.contains(names::base_name_spec(name))
}

/// The thread of a watched process that `event` describes.
pub open spec fn discovered_thread(watched: Set<i32>, message: Message) -> Option<(i32, i32)> {
    match message {
        Message::Event(StreamEvent::Track(track)) => match track.track_type {
            TrackType::Thread { tid, pid } => if watched.contains(pid) {
                Some((tid, pid))
            } else {
                None
            },
            _ => None,
        },
        _ => None,
    }
}

/// The process that `message` describes.
pub open spec fn described_process(message: Message) -> Option<i32> {
    match message {
        Message::Event(StreamEvent::Track(track)) => match track.track_type {
            TrackType::Process { pid } => Some(pid),
            _ => None,
        },
        _ => None,
    }
}

/// The processes that are watched after `message`, the one that it describes among them where it
/// was let through.
pub open spec fn watched_after(watched: Set<i32>, message: Message, let_through: bool) -> Set<i32> {
    match described_process(message) {
        Some(pid) => if let_through {
            watched.insert(pid)
        } else {
            watched
        },
        None => watched,
    }
}

/// The processes that are watched after all `messages`, each with whether it was let through.
pub open spec fn watched_after_all(watched: Set<i32>, messages: Seq<(Message, bool)>) -> Set<i32>
    decreases messages.len(),
{
    if messages.len() == 0 {
        watched
    } else {
        watched_after(
            watched_after_all(watched, messages.drop_last()),
            messages.last().0,
            messages.last().1,
        )
    }
}

/// Once a process was let through, each of its threads is found, whatever came in between; and a
/// thread is found only where its process was watched from the start or let through.
pub proof fn threads_of_watched_processes_are_found(
    watched: Set<i32>,
    messages: Seq<(Message, bool)>,
    thread: Message,
    tid: i32,
    pid: i32,
)
    requires
        thread matches Message::Event(StreamEvent::Track(track)) && track.track_type
            == (TrackType::Thread { tid, pid }),
    ensures
        discovered_thread(watched_after_all(watched, messages), thread) == Some((tid, pid))
            <==> watched.contains(pid) || exists|i: int|
            0 <= i < messages.len() && described_process(#[trigger] messages[i].0) == Some(pid)
                && messages[i].1,
    decreases messages.len(),
{
    if messages.len() > 0 {
        let before = messages.drop_last();
        threads_of_watched_processes_are_found(watched, before, thread, tid, pid);
        if exists|i: int|
            0 <= i < before.len() && described_process(#[trigger] before[i].0) == Some(pid)
                && before[i].1 {
            let i = choose|i: int|
                0 <= i < before.len() && described_process(#[trigger] before[i].0) == Some(pid)
                    && before[i].1;
            assert(messages[i] == before[i]);
        }
        if exists|i: int|
            0 <= i < messages.len() && described_process(#[trigger] messages[i].0) == Some(pid)
                && messages[i].1 {
            let i = choose|i: int|
                0 <= i < messages.len() && described_process(#[trigger] messages[i].0) == Some(
                    pid,
                ) && messages[i].1;
            if i < before.len() {
                assert(before[i] == messages[i]);
            }
        }
        assert(messages.last() == messages[messages.len() - 1]);
    }
}

/// The message that a thread of a watched process was found.
pub open spec fn discovered_message(tid: i32, pid: i32, timestamp: u64) -> MessageView {
    MessageView::Event(
        StreamEventView::Instant(
            StreamInstantView {
                name: "discovered"@,
                timestamp,
                track_id: TrackId::Thread { tid, pid },
            },
        ),
    )
}

impl BpfObject {
    /// Nothing but the watched processes differs.
    pub open spec fn same_but_watched(self, other: BpfObject) -> bool {
        &&& self.threadtrack == other.threadtrack
        &&& self.cpuutils == other.cpuutils
        &&& self.profiler == other.profiler
        &&& self.schedtrace == other.schedtrace
        &&& self.perfcounter == other.perfcounter
        &&& self.cpuutil_filters == other.cpuutil_filters
        &&& self.profiler_filters == other.profiler_filters
        &&& self.schedtrace_filters == other.schedtrace_filters
    }

    /// Which parts want the process `name` to be let through their filter.
    pub open spec fn wants(self, name: Seq<char>) -> Wanted {
        Wanted {
            cpuutil: self.cpuutils is Some && named_by(self.cpuutil_filters@, name),
            profiler: self.profiler is Some && named_by(self.profiler_filters@, name),
            schedtrace: self.schedtrace is Some && named_by(self.schedtrace_filters@, name),
        }
    }

    /// Whether there is a part that filters processes.
    pub open spec fn has_filters(self) -> bool {
        self.cpuutils is Some || self.profiler is Some || self.schedtrace is Some
    }

    /// Whether `message` describes a process that is watched from now on, where the filters of
    /// some parts took it.
    pub open spec fn lets_through(self, message: Message, took: Wanted) -> bool {
        match message {
            Message::Event(StreamEvent::Track(track)) => track.track_type is Process && watches(
                self.wants(track.name@),
                took,
            ),
            _ => false,
        }
    }

    /// What is passed on for a message of the thread tracker: the message itself, and after it,
    /// where it describes a thread of a watched process, that the thread was found.
    pub open spec fn passes_on(self, message: Message, now_ns: u64) -> Seq<MessageView> {
        match discovered_thread(self.watched_tgids@, message) {
            Some((tid, pid)) if self.has_filters() => seq![
                message.deep_view(),
                discovered_message(tid, pid, now_ns),
            ],
            _ => seq![message.deep_view()],
        }
    }

    /// A message of the thread tracker was passed on.
    pub open spec fn passed_on(
        self,
        message: Message,
        took: Wanted,
        now_ns: u64,
        before: Exchange,
        answer: i32,
        object: BpfObject,
        after: Exchange,
    ) -> bool {
        &&& object.same_but_watched(self)
        &&& object.watched_tgids@ == watched_after(
            self.watched_tgids@,
            message,
            self.lets_through(message, took),
        )
        &&& stream::sent(before, self.passes_on(message, now_ns), answer, after)
    }

    /// Which parts want the process `name` to be let through their filter.
    pub fn wanted(&self, name: &str) -> (w: Wanted)
        ensures
            w == self.wants(name@),
    {
        let base = base_name(name);
        Wanted {
            cpuutil: self.cpuutils.is_some() && (self.cpuutil_filters.contains(name)
                || self.cpuutil_filters.contains(base)),
            profiler: self.profiler.is_some() && (self.profiler_filters.contains(name)
                || self.profiler_filters.contains(base)),
            schedtrace: self.schedtrace.is_some() && (self.schedtrace_filters.contains(name)
                || self.schedtrace_filters.contains(base)),
        }
    }

    /// Takes in a message of the thread tracker. A process is watched from then on where
    /// `let_through` holds: a part wanted it and its filter took it. Tells thread and process
    /// where a thread of a watched process was found.
    pub fn observe(&mut self, message: &Message, let_through: bool) -> (found: Option<(i32, i32)>)
        ensures
            final(self).same_but_watched(*old(self)),
            final(self).watched_tgids@ == watched_after(
                old(self).watched_tgids@,
                *message,
                let_through,
            ),
            found == discovered_thread(old(self).watched_tgids@, *message),
    {
        match message {
            Message::Event(StreamEvent::Track(track)) => match &track.track_type {
                TrackType::Process { pid } => {
                    if let_through {
                        self.watched_tgids.insert(*pid);
                    }
                    None
                },
                TrackType::Thread { tid, pid } => {
                    if self.watched_tgids.contains(pid) {
                        Some((*tid, *pid))
                    } else {
                        None
                    }
                },
                _ => None,
            },
            _ => None,
        }
    }

    /// Passes a message of the thread tracker on, and after it, where a thread of a watched
    /// process was found, a message that says so. The answer to the last one that was passed on
    /// is the answer.
    pub fn deliver<C: MessageSink>(
        &self,
        message: Message,
        found: Option<(i32, i32)>,
        now_ns: u64,
        callback: &mut C,
    ) -> (answer: i32)
        ensures
            stream::sent(
                stream::exchange(*old(callback)),
                match found {
                    Some((tid, pid)) => seq![
                        message.deep_view(),
                        discovered_message(tid, pid, now_ns),
                    ],
                    None => seq![message.deep_view()],
                },
                answer,
                stream::exchange(*final(callback)),
            ),
    {
        let ghost before = stream::exchange(*callback);
        let ghost m = message.deep_view();
        let result: i32 = callback.send(message);
        proof {
            stream::sent_one(before, m, result);
        }
        match found {
            None => result,
            Some((tid, pid)) => {
                let ghost d = discovered_message(tid, pid, now_ns);
                assert(seq![m, d] =~= seq![m] + seq![d]);
                if result != 0 {
                    proof {
                        stream::sent_prefix(
                            before,
                            seq![m],
                            seq![d],
                            result,
                            stream::exchange(*callback),
                        );
                    }
                    return result;
                }
                let ghost between = stream::exchange(*callback);
                let instant = StreamInstant {
                    name: "discovered".to_owned(),
                    timestamp: now_ns,
                    track_id: TrackId::Thread { tid, pid },
                };
                let answer: i32 = callback.send(Message::Event(StreamEvent::Instant(instant)));
                proof {
                    stream::sent_one(between, d, answer);
                    stream::sent_both(
                        before,
                        seq![m],
                        between,
                        seq![d],
                        answer,
                        stream::exchange(*callback),
                    );
                }
                answer
            },
        }
    }

    /// Takes in a message of the thread tracker and passes it on. `took` are the parts whose
    /// filter took the process, where the message describes one.
    pub fn pass_on<C: MessageSink>(
        &mut self,
        message: Message,
        took: Wanted,
        now_ns: u64,
        callback: &mut C,
    ) -> (answer: i32)
        ensures
            old(self).passed_on(
                message,
                took,
                now_ns,
                stream::exchange(*old(callback)),
                answer,
                *final(self),
                stream::exchange(*final(callback)),
            ),
    {
        if self.cpuutils.is_none() && self.profiler.is_none() && self.schedtrace.is_none() {
            return self.deliver(message, None, now_ns, callback);
        }
        let through: bool = match &message {
            Message::Event(StreamEvent::Track(track)) => match &track.track_type {
                TrackType::Process { pid: _ } => let_through(self.wanted(&track.name), took),
                _ => false,
            },
            _ => false,
        };
        let found = self.observe(&message, through);
        self.deliver(message, found, now_ns, callback)
    }

    /// The parts that are to be set up, in the order in which that is done.
    pub fn consumer(&self) -> (c: BpfConsumer)
        ensures
            c.threadtrack == self.threadtrack is Some,
            c.cpuutil == self.cpuutils is Some,
            c.profiler == self.profiler is Some,
            c.schedtrace == self.schedtrace is Some,
            c.perfcounter == self.perfcounter is Some,
    {
        BpfConsumer {
            threadtrack: self.threadtrack.is_some(),
            cpuutil: self.cpuutils.is_some(),
            profiler: self.profiler.is_some(),
            schedtrace: self.schedtrace.is_some(),
            perfcounter: self.perfcounter.is_some(),
        }
    }
}

/// Once a process that a part wants was taken by the filter of that part, each thread of it is
/// announced: a sink that never stops receives the process, the thread, and right after it that
/// the thread was found, and nothing else.
pub proof fn found_threads_are_announced(
    first: BpfObject,
    process: Message,
    took: Wanted,
    process_ns: u64,
    start: Exchange,
    answer: i32,
    second: BpfObject,
    between: Exchange,
    thread: Message,
    thread_took: Wanted,
    thread_ns: u64,
    thread_answer: i32,
    third: BpfObject,
    end: Exchange,
    tid: i32,
    pid: i32,
)
    requires
        described_process(process) == Some(pid),
        thread matches Message::Event(StreamEvent::Track(track)) && track.track_type
            == (TrackType::Thread { tid, pid }),
        first.has_filters(),
        first.passed_on(process, took, process_ns, start, answer, second, between),
        second.passed_on(
            thread,
            thread_took,
            thread_ns,
            between,
            thread_answer,
            third,
            end,
        ),
        end.willing_since(start),
    ensures
        answer == 0,
        thread_answer == 0,
        third.watched_tgids@ == second.watched_tgids@,
        end == start.with_all(
            if first.watched_tgids@.contains(pid) || first.lets_through(process, took) {
                seq![
                    process.deep_view(),
                    thread.deep_view(),
                    discovered_message(tid, pid, thread_ns),
                ]
            } else {
                seq![process.deep_view(), thread.deep_view()]
            },
        ),
{
    let a = first.passes_on(process, process_ns);
    let b = second.passes_on(thread, thread_ns);
    stream::sent_extends(start, a, answer, between);
    stream::sent_extends(between, b, thread_answer, end);
    assert(between.willing_since(start)) by {
        assert forall|i: int| start.answers.len() <= i < between.answers.len() implies
            #[trigger] between.answers[i] == 0 by {
            assert(end.answers[i] == between.answers[i]);
        }
    }
    stream::willing_sink_receives_all(start, a, answer, between);
    stream::willing_sink_receives_all(between, b, thread_answer, end);
    assert(start.with_all(a).with_all(b) =~= start.with_all(a + b));
    assert(a + b =~= if first.watched_tgids@.contains(pid) || first.lets_through(process, took) {
        seq![process.deep_view(), thread.deep_view(), discovered_message(tid, pid, thread_ns)]
    } else {
        seq![process.deep_view(), thread.deep_view()]
    });
}

/// `c` where `there` holds.
pub open spec fn part(there: bool, c: Component) -> Seq<Component> {
    if there {
        seq![c]
    } else {
        seq![]
    }
}

/// The parts that run.
#[derive(Debug, Clone, Copy, PartialEq, Eq, Structural)]
pub struct BpfConsumer {
    pub threadtrack: bool,
    pub cpuutil: bool,
    pub profiler: bool,
    pub schedtrace: bool,
    pub perfcounter: bool,
}

/// What comes next in a round over the parts.
pub enum RoundStep {
    /// The events of this part are to be taken in.
    Take(Component),
    /// The events of all parts were taken in.
    Finished,
    /// A part failed.
    Failed(BpfError),
}

/// What comes next in a round over `parts`, where the events of the first `done` of them were taken
/// in and `last` is what came of the last one.
pub open spec fn next_step(
    parts: Seq<Component>,
    done: nat,
    last: Result<(), BpfError>,
) -> RoundStep {
    match last {
        Err(e) => RoundStep::Failed(e),
        Ok(_) => if done < parts.len() {
            RoundStep::Take(parts[done as int])
        } else {
            RoundStep::Finished
        },
    }
}

/// The rest of a round, where `outcome` tells what comes of each part: the parts whose events are
/// taken in, and how it ends.
pub open spec fn round_from(
    parts: Seq<Component>,
    outcome: spec_fn(Component) -> Result<(), BpfError>,
    done: nat,
    last: Result<(), BpfError>,
) -> (Seq<Component>, Result<(), BpfError>)
    decreases parts.len() - done,
{
    match next_step(parts, done, last) {
        RoundStep::Failed(e) => (seq![], Err(e)),
        RoundStep::Finished => (seq![], Ok(())),
        RoundStep::Take(c) => {
            let rest = round_from(parts, outcome, done + 1, outcome(c));
            (seq![c] + rest.0, rest.1)
        },
    }
}

/// `parts` from the one at `done` to the one at `k` were taken in; that one failed with `e`, none
/// before it did.
pub open spec fn failed_at(
    parts: Seq<Component>,
    outcome: spec_fn(Component) -> Result<(), BpfError>,
    done: int,
    k: int,
    taken: Seq<Component>,
    e: BpfError,
) -> bool {
    &&& done <= k < parts.len()
    &&& outcome(parts[k]) == Err::<(), BpfError>(e)
    &&& taken == parts.subrange(done, k + 1)
    &&& forall|i: int| done <= i < k ==> outcome(#[trigger] parts[i]) is Ok
}

/// The first failure ends a round: without one the events of all parts are taken in, in order, and
/// the round succeeds; else those of the parts up to the first that fails, and its failure is that
/// of the round.
pub proof fn first_failure_ends_round(
    c: BpfConsumer,
    outcome: spec_fn(Component) -> Result<(), BpfError>,
)
    ensures
        c.round(outcome).1 is Ok <==> forall|i: int|
            0 <= i < c.parts().len() ==> outcome(#[trigger] c.parts()[i]) is Ok,
        c.round(outcome).1 is Ok ==> c.round(outcome).0 == c.parts(),
        c.round(outcome).1 matches Err(e) ==> exists|k: int| #[trigger]
            failed_at(c.parts(), outcome, 0, k, c.round(outcome).0, e),
{
    rest_of_round(c.parts(), outcome, 0);
    assert(c.parts().skip(0) =~= c.parts());
}

proof fn rest_of_round(
    parts: Seq<Component>,
    outcome: spec_fn(Component) -> Result<(), BpfError>,
    done: nat,
)
    requires
        done <= parts.len(),
    ensures
        ({
            let (taken, end) = round_from(parts, outcome, done, Ok(()));
            &&& end is Ok <==> forall|i: int|
                done <= i < parts.len() ==> outcome(#[trigger] parts[i]) is Ok
            &&& end is Ok ==> taken == parts.skip(done as int)
            &&& end matches Err(e) ==> exists|k: int| #[trigger]
                failed_at(parts, outcome, done as int, k, taken, e)
        }),
    decreases parts.len() - done,
{
    let (taken, end) = round_from(parts, outcome, done, Ok(()));
    if done < parts.len() {
        let at = done as int;
        match outcome(parts[at]) {
            Err(e) => {
                assert(round_from(parts, outcome, done + 1, Err(e)).0 =~= seq![]);
                assert(taken =~= parts.subrange(at, at + 1));
                assert(failed_at(parts, outcome, at, at, taken, e));
            },
            Ok(u) => {
                assert(u == ());
                rest_of_round(parts, outcome, done + 1);
                let rest = round_from(parts, outcome, done + 1, Ok(()));
                assert(taken == seq![parts[at]] + rest.0);
                assert(end == rest.1);
                if end is Ok {
                    assert(taken =~= parts.skip(at));
                } else {
                    let e = end->Err_0;
                    let k = choose|k: int| #[trigger]
                        failed_at(parts, outcome, at + 1, k, rest.0, e);
                    assert(taken =~= parts.subrange(at, k + 1));
                    assert(failed_at(parts, outcome, at, k, taken, e));
                }
            },
        }
    } else {
        assert(parts.skip(done as int) =~= seq![]);
    }
}

/// No two parts report in the same stream, and none in that of the reports by themselves.
pub proof fn streams_are_apart(c: BpfConsumer, a: Component, b: Component)
    ensures
        c.stream_of(a) is Some && c.stream_of(a) == c.stream_of(b) ==> a == b,
        c.stream_of(a) != Some(0u64),
{
}

impl BpfConsumer {
    /// The parts in the order in which their events are taken in: names first.
    pub open spec fn parts(self) -> Seq<Component> {
        part(self.threadtrack, Component::ThreadTracker) + part(self.cpuutil, Component::CpuUtil)
            + part(self.profiler, Component::Profiler) + part(
            self.schedtrace,
            Component::SchedTrace,
        ) + part(self.perfcounter, Component::PerfCounter)
    }

    /// What comes next in a round, where the events of the first `done` parts were taken in and
    /// `last` is what came of the last of them: the next part, unless there is none or this one
    /// failed.
    pub fn round_step(&self, done: usize, last: Result<(), BpfError>) -> (step: RoundStep)
        ensures
            step == next_step(self.parts(), done as nat, last),
    {
        match last {
            Err(e) => RoundStep::Failed(e),
            Ok(_) => {
                let order = self.consume();
                if done < order.len() {
                    RoundStep::Take(order[done])
                } else {
                    RoundStep::Finished
                }
            },
        }
    }

    /// A whole round.
    pub open spec fn round(self, outcome: spec_fn(Component) -> Result<(), BpfError>) -> (
        Seq<Component>,
        Result<(), BpfError>,
    ) {
        round_from(self.parts(), outcome, 0, Ok(()))
    }

    /// The parts whose events are to be taken in, in this order. The first failure ends it.
    pub fn consume(&self) -> (order: Vec<Component>)
        ensures
            order@ == self.parts(),
    {
        let mut order: Vec<Component> = Vec::new();
        if self.threadtrack {
            order.push(Component::ThreadTracker);
        }
        if self.cpuutil {
            order.push(Component::CpuUtil);
        }
        if self.profiler {
            order.push(Component::Profiler);
        }
        if self.schedtrace {
            order.push(Component::SchedTrace);
        }
        if self.perfcounter {
            order.push(Component::PerfCounter);
        }
        assert(order@ =~= self.parts());
        order
    }

    /// The parts whose events are to be waited for and taken in, in this order. The first
    /// failure ends it.
    pub fn poll(&self) -> (order: Vec<Component>)
        ensures
            order@ == self.parts(),
    {
        self.consume()
    }

    /// The number of the stream that a part reports in, where it has one of its own: streams are
    /// numbered from one on, in the order in which their parts are set up.
    pub open spec fn stream_of(self, part: Component) -> Option<u64> {
        match part {
            Component::Profiler if self.profiler => Some(1),
            Component::PerfCounter if self.perfcounter => Some(
                if self.profiler {
                    2
                } else {
                    1
                },
            ),
            _ => None,
        }
    }

    /// The number of the stream that a part reports in, where it has one of its own.
    pub fn stream_id(&self, part: Component) -> (id: Option<u64>)
        ensures
            id == self.stream_of(part),
    {
        match part {
            Component::Profiler => if self.profiler {
                Some(1)
            } else {
                None
            },
            Component::PerfCounter => if !self.perfcounter {
                None
            } else if self.profiler {
                Some(2)
            } else {
                Some(1)
            },
            _ => None,
        }
    }

    /// The parts in the order in which they are set up: the thread tracker comes last, once all
    /// that filter by its names are there.
    pub fn set_up_order(&self) -> (order: Vec<Component>)
        ensures
            order@ == part(self.cpuutil, Component::CpuUtil) + part(
                self.profiler,
                Component::Profiler,
            ) + part(self.schedtrace, Component::SchedTrace) + part(
                self.perfcounter,
                Component::PerfCounter,
            ) + part(self.threadtrack, Component::ThreadTracker),
    {
        let mut order: Vec<Component> = Vec::new();
        if self.cpuutil {
            order.push(Component::CpuUtil);
        }
        if self.profiler {
            order.push(Component::Profiler);
        }
        if self.schedtrace {
            order.push(Component::SchedTrace);
        }
        if self.perfcounter {
            order.push(Component::PerfCounter);
        }
        if self.threadtrack {
            order.push(Component::ThreadTracker);
        }
        assert(order@ =~= part(self.cpuutil, Component::CpuUtil) + part(
            self.profiler,
            Component::Profiler,
        ) + part(self.schedtrace, Component::SchedTrace) + part(
            self.perfcounter,
            Component::PerfCounter,
        ) + part(self.threadtrack, Component::ThreadTracker));
        order
    }
}

} // verus!
