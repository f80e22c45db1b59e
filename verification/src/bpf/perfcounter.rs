//! Performance counters.

use crate::bpf::error::BpfError;
use crate::bpf::stream::{
    Message, MessageSink, MessageView, Quantity, StreamCounter, StreamCounterView, StreamEvent,
    StreamEventView, Track, TrackId, TrackType, TrackTypeView, TrackView,
};
use crate::text;
use crate::text::{join2, push_decimal, same_text};
use vstd::prelude::*;
use vstd::string::*;

verus! {

/// How many counters can be read at once.
pub const MAX_PERF_COUNTERS: usize = 8;

/// Kinds of events and events, as the kernel numbers them.
pub const PERF_TYPE_HARDWARE: u32 = 0;
pub const PERF_TYPE_SOFTWARE: u32 = 1;
pub const PERF_TYPE_RAW: u32 = 4;
pub const PERF_COUNT_HW_CPU_CYCLES: u64 = 0;
pub const PERF_COUNT_HW_INSTRUCTIONS: u64 = 1;
pub const PERF_COUNT_HW_CACHE_REFERENCES: u64 = 2;
pub const PERF_COUNT_HW_CACHE_MISSES: u64 = 3;
pub const PERF_COUNT_HW_BRANCH_INSTRUCTIONS: u64 = 4;
pub const PERF_COUNT_HW_BRANCH_MISSES: u64 = 5;
pub const PERF_COUNT_HW_STALLED_CYCLES_FRONTEND: u64 = 7;
pub const PERF_COUNT_HW_STALLED_CYCLES_BACKEND: u64 = 8;
pub const PERF_COUNT_SW_CPU_CLOCK: u64 = 0;
pub const PERF_COUNT_SW_TASK_CLOCK: u64 = 1;
pub const PERF_COUNT_SW_PAGE_FAULTS: u64 = 2;
pub const PERF_COUNT_SW_CONTEXT_SWITCHES: u64 = 3;
pub const PERF_COUNT_SW_CPU_MIGRATIONS: u64 = 4;
pub const PERF_COUNT_SW_PAGE_FAULTS_MIN: u64 = 5;
pub const PERF_COUNT_SW_PAGE_FAULTS_MAJ: u64 = 6;

/// A counter, by its name or by the kernel's numbers.
pub enum CounterConfig {
    Named(String),
    Custom { name: String, perf_type: u32, config: u64 },
}

#[verifier::ext_equal]
pub enum CounterConfigView {
    Named(Seq<char>),
    Custom { name: Seq<char>, perf_type: u32, config: u64 },
}

impl DeepView for CounterConfig {
    type V = CounterConfigView;

    open spec fn deep_view(&self) -> CounterConfigView {
        match self {
            CounterConfig::Named(n) => CounterConfigView::Named(n@),
            CounterConfig::Custom { name, perf_type, config } => CounterConfigView::Custom {
                name: name@,
                perf_type: *perf_type,
                config: *config,
            },
        }
    }
}

impl Clone for CounterConfig {
    fn clone(&self) -> (c: CounterConfig)
        ensures
            c.deep_view() == self.deep_view(),
    {
        match self {
            CounterConfig::Named(n) => CounterConfig::Named(n.clone()),
            CounterConfig::Custom { name, perf_type, config } => CounterConfig::Custom {
                name: name.clone(),
                perf_type: *perf_type,
                config: *config,
            },
        }
    }
}

/// A value that is computed from counters, given by their places.
#[derive(Debug, Clone, Copy, PartialEq, Eq, Structural)]
pub enum DerivedCounter {
    Ipc { cycles_idx: usize, instructions_idx: usize },
}

/// Kind and number of the event that a name stands for.
pub open spec fn known_counter(name: Seq<char>) -> Option<(u32, u64)> {
    if name == "cpu-cycles"@ {
        Some((PERF_TYPE_HARDWARE, PERF_COUNT_HW_CPU_CYCLES))
    } else if name == "cpu-instructions"@ || name == "instructions"@ {
        Some((PERF_TYPE_HARDWARE, PERF_COUNT_HW_INSTRUCTIONS))
    } else if name == "cache-references"@ {
        Some((PERF_TYPE_HARDWARE, PERF_COUNT_HW_CACHE_REFERENCES))
    } else if name == "cache-misses"@ {
        Some((PERF_TYPE_HARDWARE, PERF_COUNT_HW_CACHE_MISSES))
    } else if name == "branch-instructions"@ || name == "branches"@ {
        Some((PERF_TYPE_HARDWARE, PERF_COUNT_HW_BRANCH_INSTRUCTIONS))
    } else if name == "branch-misses"@ {
        Some((PERF_TYPE_HARDWARE, PERF_COUNT_HW_BRANCH_MISSES))
    } else if name == "stalled-cycles-frontend"@ {
        Some((PERF_TYPE_HARDWARE, PERF_COUNT_HW_STALLED_CYCLES_FRONTEND))
    } else if name == "stalled-cycles-backend"@ {
        Some((PERF_TYPE_HARDWARE, PERF_COUNT_HW_STALLED_CYCLES_BACKEND))
    } else if name == "cpu-clock"@ {
        Some((PERF_TYPE_SOFTWARE, PERF_COUNT_SW_CPU_CLOCK))
    } else if name == "task-clock"@ {
        Some((PERF_TYPE_SOFTWARE, PERF_COUNT_SW_TASK_CLOCK))
    } else if name == "page-faults"@ || name == "faults"@ {
        Some((PERF_TYPE_SOFTWARE, PERF_COUNT_SW_PAGE_FAULTS))
    } else if name == "context-switches"@ || name == "cs"@ {
        Some((PERF_TYPE_SOFTWARE, PERF_COUNT_SW_CONTEXT_SWITCHES))
    } else if name == "cpu-migrations"@ || name == "migrations"@ {
        Some((PERF_TYPE_SOFTWARE, PERF_COUNT_SW_CPU_MIGRATIONS))
    } else if name == "minor-faults"@ {
        Some((PERF_TYPE_SOFTWARE, PERF_COUNT_SW_PAGE_FAULTS_MIN))
    } else if name == "major-faults"@ {
        Some((PERF_TYPE_SOFTWARE, PERF_COUNT_SW_PAGE_FAULTS_MAJ))
    } else {
        None
    }
}

impl CounterConfigView {
    /// The counter's name.
    pub open spec fn name(self) -> Seq<char> {
        match self {
            CounterConfigView::Named(n) => n,
            CounterConfigView::Custom { name, .. } => name,
        }
    }

    /// Kind and number of the counter's event.
    pub open spec fn event(self) -> Option<(u32, u64)> {
        match self {
            CounterConfigView::Named(n) => known_counter(n),
            CounterConfigView::Custom { perf_type, config, .. } => Some((perf_type, config)),
        }
    }
}

/// What is said of a counter that is not known.
pub open spec fn unknown_counter(name: Seq<char>) -> Seq<char> {
    "unknown performance counter: "@ + name
}

/// Kind and number of the event that a name stands for.
fn lookup_counter(name: &str) -> (r: Option<(u32, u64)>)
    ensures
        r == known_counter(name@),
{
    if same_text(name, "cpu-cycles") {
        Some((PERF_TYPE_HARDWARE, PERF_COUNT_HW_CPU_CYCLES))
    } else if same_text(name, "cpu-instructions") || same_text(name, "instructions") {
        Some((PERF_TYPE_HARDWARE, PERF_COUNT_HW_INSTRUCTIONS))
    } else if same_text(name, "cache-references") {
        Some((PERF_TYPE_HARDWARE, PERF_COUNT_HW_CACHE_REFERENCES))
    } else if same_text(name, "cache-misses") {
        Some((PERF_TYPE_HARDWARE, PERF_COUNT_HW_CACHE_MISSES))
    } else if same_text(name, "branch-instructions") || same_text(name, "branches") {
        Some((PERF_TYPE_HARDWARE, PERF_COUNT_HW_BRANCH_INSTRUCTIONS))
    } else if same_text(name, "branch-misses") {
        Some((PERF_TYPE_HARDWARE, PERF_COUNT_HW_BRANCH_MISSES))
    } else if same_text(name, "stalled-cycles-frontend") {
        Some((PERF_TYPE_HARDWARE, PERF_COUNT_HW_STALLED_CYCLES_FRONTEND))
    } else if same_text(name, "stalled-cycles-backend") {
        Some((PERF_TYPE_HARDWARE, PERF_COUNT_HW_STALLED_CYCLES_BACKEND))
    } else if same_text(name, "cpu-clock") {
        Some((PERF_TYPE_SOFTWARE, PERF_COUNT_SW_CPU_CLOCK))
    } else if same_text(name, "task-clock") {
        Some((PERF_TYPE_SOFTWARE, PERF_COUNT_SW_TASK_CLOCK))
    } else if same_text(name, "page-faults") || same_text(name, "faults") {
        Some((PERF_TYPE_SOFTWARE, PERF_COUNT_SW_PAGE_FAULTS))
    } else if same_text(name, "context-switches") || same_text(name, "cs") {
        Some((PERF_TYPE_SOFTWARE, PERF_COUNT_SW_CONTEXT_SWITCHES))
    } else if same_text(name, "cpu-migrations") || same_text(name, "migrations") {
        Some((PERF_TYPE_SOFTWARE, PERF_COUNT_SW_CPU_MIGRATIONS))
    } else if same_text(name, "minor-faults") {
        Some((PERF_TYPE_SOFTWARE, PERF_COUNT_SW_PAGE_FAULTS_MIN))
    } else if same_text(name, "major-faults") {
        Some((PERF_TYPE_SOFTWARE, PERF_COUNT_SW_PAGE_FAULTS_MAJ))
    } else {
        None
    }
}

impl CounterConfig {
    /// Name, kind and number of the counter's event.
    pub fn to_perf_config(&self) -> (r: Result<(String, u32, u64), BpfError>)
        ensures
            match self.deep_view().event() {
                Some(e) => r matches Ok(c) && c.0@ == self.deep_view().name() && c.1 == e.0 && c.2
                    == e.1,
                None => r matches Err(f) && f.is_load(unknown_counter(self.deep_view().name())),
            },
    {
        match self {
            CounterConfig::Named(name) => match lookup_counter(name.as_str()) {
                Some((perf_type, config)) => Ok((name.clone(), perf_type, config)),
                None => Err(
                    BpfError::LoadError(join2("unknown performance counter: ", name.as_str())),
                ),
            },
            CounterConfig::Custom { name, perf_type, config } => Ok(
                (name.clone(), *perf_type, *config),
            ),
        }
    }

    /// The counter's name.
    pub fn name(&self) -> (n: &str)
        ensures
            n@ == self.deep_view().name(),
    {
        match self {
            CounterConfig::Named(name) => name.as_str(),
            CounterConfig::Custom { name, .. } => name.as_str(),
        }
    }
}

/// Whether a counter stands for instructions per cycle.
pub open spec fn is_ipc(c: CounterConfigView) -> bool {
    c == CounterConfigView::Named("ipc"@)
}

/// The counters that `c` stands for.
pub open spec fn expanded_one(c: CounterConfigView) -> Seq<CounterConfigView> {
    if is_ipc(c) {
        seq![
            CounterConfigView::Named("cpu-cycles"@),
            CounterConfigView::Named("cpu-instructions"@),
        ]
    } else {
        seq![c]
    }
}

/// The counters that `counters` stand for: instructions per cycle take two.
pub open spec fn expanded(counters: Seq<CounterConfigView>) -> Seq<CounterConfigView>
    decreases counters.len(),
{
    if counters.len() == 0 {
        seq![]
    } else {
        expanded(counters.drop_last()) + expanded_one(counters.last())
    }
}

/// What is computed for each of `counters`: a name and a value for instructions per cycle,
/// nothing for the others.
pub open spec fn derived(counters: Seq<CounterConfigView>) -> Seq<
    (Seq<char>, Option<DerivedCounter>),
>
    decreases counters.len(),
{
    if counters.len() == 0 {
        seq![]
    } else {
        let at = expanded(counters.drop_last()).len();
        derived(counters.drop_last()).push(
            if is_ipc(counters.last()) {
                (
                    "ipc"@,
                    Some(
                        DerivedCounter::Ipc {
                            cycles_idx: at as usize,
                            instructions_idx: (at + 1) as usize,
                        },
                    ),
                )
            } else {
                (""@, None)
            },
        )
    }
}

/// The name of the first of `counters` that is not known.
pub open spec fn first_unknown(counters: Seq<CounterConfigView>) -> Option<Seq<char>>
    decreases counters.len(),
{
    if counters.len() == 0 {
        None
    } else if counters[0].event() is None {
        Some(counters[0].name())
    } else {
        first_unknown(counters.drop_first())
    }
}

/// What `derived` says, of values.
pub open spec fn derived_view(d: Seq<(String, Option<DerivedCounter>)>) -> Seq<
    (Seq<char>, Option<DerivedCounter>),
> {
    Seq::new(d.len(), |i: int| (d[i].0@, d[i].1))
}

/// Which performance counters to read, and how often.
pub struct PerfCounterConfig {
    pub frequency: u64,
    pub counters: Vec<CounterConfig>,
    pub pid_filters: Vec<i32>,
    pub filter_process: Vec<String>,
    pub ringbuf: usize,
}

/// How often counters are read where nothing else is asked for.
pub fn default_frequency() -> (f: u64)
    ensures
        f == 99,
{
    99
}

/// Bytes of the buffer for counters where nothing else is asked for.
pub fn default_ringbuf_size() -> (n: usize)
    ensures
        n == 262144,
{
    256 * 1024
}

impl Default for PerfCounterConfig {
    fn default() -> (c: PerfCounterConfig)
        ensures
            c.frequency == 0,
            c.counters@.len() == 0,
            c.pid_filters@.len() == 0,
            c.filter_process@.len() == 0,
            c.ringbuf == 0,
    {
        PerfCounterConfig {
            frequency: 0,
            counters: Vec::new(),
            pid_filters: Vec::new(),
            filter_process: Vec::new(),
            ringbuf: 0,
        }
    }
}

/// Too many counters were asked for.
pub open spec fn too_many(n: nat) -> Seq<char> {
    "too many performance counters: "@ + text::decimal(n) + " (max: "@ + text::decimal(
        MAX_PERF_COUNTERS as nat,
    ) + ")"@
}

impl PerfCounterConfig {
    /// All but the counters are the same.
    pub open spec fn same_but_counters(self, other: PerfCounterConfig) -> bool {
        &&& self.frequency == other.frequency
        &&& self.pid_filters == other.pid_filters
        &&& self.filter_process == other.filter_process
        &&& self.ringbuf == other.ringbuf
    }

    /// Puts the counters in place of what stands for several of them. Tells what is computed for
    /// each entry that was there before.
    pub fn expand_counters(&mut self) -> (r: Result<Vec<(String, Option<DerivedCounter>)>, BpfError>)
        ensures
            final(self).same_but_counters(*old(self)),
            final(self).counters.deep_view() == expanded(old(self).counters.deep_view()),
            r matches Ok(d) && derived_view(d@) == derived(old(self).counters.deep_view()),
    {
        let mut all: Vec<CounterConfig> = Vec::new();
        let mut computed: Vec<(String, Option<DerivedCounter>)> = Vec::new();
        let ghost counters = self.counters.deep_view();
        let mut i: usize = 0;
        assert(counters.take(0) =~= seq![]);
        assert(all.deep_view() =~= expanded(counters.take(0)));
        assert(derived_view(computed@) =~= derived(counters.take(0)));
        while i < self.counters.len()
            invariant
                *self == *old(self),
                counters == self.counters.deep_view(),
                i <= counters.len(),
                counters.len() == self.counters@.len(),
                all.deep_view() == expanded(counters.take(i as int)),
                derived_view(computed@) == derived(counters.take(i as int)),
            decreases counters.len() - i,
        {
            let ghost before = all.deep_view();
            let ghost computed_before = derived_view(computed@);
            let ghost c = counters[i as int];
            proof {
                assert(counters.take(i + 1).drop_last() =~= counters.take(i as int));
                assert(counters.take(i + 1).last() == c);
                assert(all.deep_view().len() == all@.len());
            }
            let at: usize = all.len();
            let ipc = match &self.counters[i] {
                CounterConfig::Named(name) => same_text(name.as_str(), "ipc"),
                CounterConfig::Custom { .. } => false,
            };
            assert(ipc == is_ipc(c));
            if ipc {
                all.push(CounterConfig::Named("cpu-cycles".to_owned()));
                assert(all@.len() == at + 1);
                let next: usize = all.len();
                all.push(CounterConfig::Named("cpu-instructions".to_owned()));
                computed.push(
                    (
                        "ipc".to_owned(),
                        Some(DerivedCounter::Ipc { cycles_idx: at, instructions_idx: next }),
                    ),
                );
            } else {
                all.push(self.counters[i].clone());
                computed.push(("".to_owned(), None));
            }
            i += 1;
            proof {
                assert(all.deep_view() =~= before + expanded_one(c));
                assert(derived_view(computed@) =~= computed_before.push(
                    derived(counters.take(i as int)).last(),
                ));
            }
        }
        assert(counters.take(i as int) =~= counters);
        self.counters = all;
        Ok(computed)
    }

    /// Expands the counters and checks them: there is at least one, there are not too many, and
    /// all are known. Tells what is computed for each entry that was there before.
    pub fn validate(&mut self) -> (r: Result<Vec<(String, Option<DerivedCounter>)>, BpfError>)
        ensures
            final(self).same_but_counters(*old(self)),
            final(self).counters.deep_view() == expanded(old(self).counters.deep_view()),
            ({
                let all = expanded(old(self).counters.deep_view());
                if all.len() == 0 {
                    r matches Err(e) && e.is_load("no performance counters configured"@)
                } else if all.len() > MAX_PERF_COUNTERS {
                    r matches Err(e) && e.is_load(too_many(all.len()))
                } else {
                    match first_unknown(all) {
                        Some(name) => r matches Err(e) && e.is_load(unknown_counter(name)),
                        None => r matches Ok(d) && derived_view(d@) == derived(
                            old(self).counters.deep_view(),
                        ),
                    }
                }
            }),
    {
        let computed = match self.expand_counters() {
            Ok(d) => d,
            Err(e) => {
                return Err(e);
            },
        };
        let ghost all = self.counters.deep_view();
        assert(all.len() == self.counters@.len());
        if self.counters.is_empty() {
            return Err(BpfError::LoadError("no performance counters configured".to_owned()));
        }
        if self.counters.len() > MAX_PERF_COUNTERS {
            let mut t = "too many performance counters: ".to_owned();
            push_decimal(&mut t, self.counters.len() as u64);
            t.append(" (max: ");
            push_decimal(&mut t, MAX_PERF_COUNTERS as u64);
            t.append(")");
            return Err(BpfError::LoadError(t));
        }
        let mut i: usize = 0;
        assert(all.skip(0) =~= all);
        while i < self.counters.len()
            invariant
                all == self.counters.deep_view(),
                all == expanded(old(self).counters.deep_view()),
                self.same_but_counters(*old(self)),
                0 < all.len() <= MAX_PERF_COUNTERS,
                all.len() == self.counters@.len(),
                i <= all.len(),
                first_unknown(all.skip(i as int)) == first_unknown(all),
            decreases all.len() - i,
        {
            assert(all.skip(i as int).drop_first() =~= all.skip(i + 1));
            assert(all.skip(i as int)[0] == all[i as int]);
            match self.counters[i].to_perf_config() {
                Ok(_) => {},
                Err(e) => {
                    return Err(e);
                },
            }
            i += 1;
        }
        Ok(computed)
    }
}

/// What the BPF program reports: the counters of one processor.
pub struct PerfCounterEvent {
    pub timestamp: u64,
    pub cpu_id: u32,
    pub padding: u32,
    pub counters: [u64; 8],
}

/// One event to open: the counter at `counter_idx` on the processor `cpu`, to be stored at
/// `map_index` of the map of the BPF program.
#[derive(Debug, Clone, Copy, PartialEq, Eq, Structural)]
pub struct OpenStep {
    pub counter_idx: usize,
    pub cpu: usize,
    pub perf_type: u32,
    pub config: u32,
    pub map_index: i32,
}

/// The event to open for the counter at `idx` on the processor `cpu`.
pub open spec fn open_step(counters: Seq<CounterConfigView>, idx: int, cpu: int) -> OpenStep {
    OpenStep {
        counter_idx: idx as usize,
        cpu: cpu as usize,
        perf_type: counters[idx].event()->Some_0.0,
        config: counters[idx].event()->Some_0.1 as u32,
        map_index: (cpu * counters.len() + idx) as i32,
    }
}

/// The events to open for the first `n` counters, counter by counter, processor by processor.
pub open spec fn open_steps_spec(counters: Seq<CounterConfigView>, nprocs: nat, n: int) -> Seq<
    OpenStep,
>
    decreases n,
{
    if n <= 0 {
        seq![]
    } else {
        open_steps_spec(counters, nprocs, n - 1) + Seq::new(
            nprocs,
            |cpu: int| open_step(counters, n - 1, cpu),
        )
    }
}

/// The number of the track of the `i`th value of the processor `cpu`.
pub open spec fn counter_track_id(cpu: u64, i: u64) -> u64 {
    (cpu << 32) | i
}

/// The name of a track: what it shows, and of which processor.
pub open spec fn cpu_track_name(name: Seq<char>, cpu: int) -> Seq<char> {
    name + "/cpu"@ + text::decimal(cpu as nat)
}

/// The message that describes the track of the `i`th value of the processor `cpu`.
pub open spec fn track_message(stream_id: u64, name: Seq<char>, cpu: int, i: int) -> MessageView {
    MessageView::Stream {
        stream_id,
        event: StreamEventView::Track(
            TrackView {
                name: cpu_track_name(name, cpu),
                track_type: TrackTypeView::Counter {
                    id: counter_track_id(cpu as u64, i as u64),
                    unit: None,
                },
                parent: Some(TrackTypeView::Cpu { cpu: cpu as u32 }),
            },
        ),
    }
}

/// The messages that describe the first `n` computed values of a processor.
pub open spec fn derived_tracks(
    stream_id: u64,
    computed: Seq<(Seq<char>, Option<DerivedCounter>)>,
    first: nat,
    cpu: int,
    n: int,
) -> Seq<MessageView>
    decreases n,
{
    if n <= 0 {
        seq![]
    } else {
        let before = derived_tracks(stream_id, computed, first, cpu, n - 1);
        if computed[n - 1].1 is Some {
            before.push(track_message(stream_id, computed[n - 1].0, cpu, first + n - 1))
        } else {
            before
        }
    }
}

/// The messages that describe the tracks of a processor: its counters, then what is computed.
pub open spec fn cpu_tracks(
    stream_id: u64,
    counters: Seq<CounterConfigView>,
    computed: Seq<(Seq<char>, Option<DerivedCounter>)>,
    cpu: int,
) -> Seq<MessageView> {
    Seq::new(counters.len(), |i: int| track_message(stream_id, counters[i].name(), cpu, i))
        + derived_tracks(stream_id, computed, counters.len(), cpu, computed.len() as int)
}

/// The messages that describe the tracks of the first `n` processors.
pub open spec fn all_tracks(
    stream_id: u64,
    counters: Seq<CounterConfigView>,
    computed: Seq<(Seq<char>, Option<DerivedCounter>)>,
    n: int,
) -> Seq<MessageView>
    decreases n,
{
    if n <= 0 {
        seq![]
    } else {
        all_tracks(stream_id, counters, computed, n - 1) + cpu_tracks(
            stream_id,
            counters,
            computed,
            n - 1,
        )
    }
}

/// The message with the `i`th value of a processor.
pub open spec fn value_message(
    stream_id: u64,
    value: Quantity,
    timestamp: u64,
    cpu: u32,
    i: int,
) -> MessageView {
    MessageView::Stream {
        stream_id,
        event: StreamEventView::Counter(
            StreamCounterView {
                name: ""@,
                value,
                timestamp,
                track_id: TrackId::Counter { id: counter_track_id(cpu as u64, i as u64) },
                unit: None,
            },
        ),
    }
}

/// What is computed from the counters `values`: instructions per cycle, or zero without cycles.
pub open spec fn derived_value(values: Seq<u64>, d: DerivedCounter) -> Quantity {
    match d {
        DerivedCounter::Ipc { cycles_idx, instructions_idx } => if values[cycles_idx as int] > 0 {
            Quantity::Ratio {
                dividend: values[instructions_idx as int],
                divisor: values[cycles_idx as int],
            }
        } else {
            Quantity::Count(0)
        },
    }
}

/// The messages with the first `n` computed values of an event.
pub open spec fn derived_values(
    stream_id: u64,
    computed: Seq<(Seq<char>, Option<DerivedCounter>)>,
    first: nat,
    event: PerfCounterEvent,
    n: int,
) -> Seq<MessageView>
    decreases n,
{
    if n <= 0 {
        seq![]
    } else {
        let before = derived_values(stream_id, computed, first, event, n - 1);
        match computed[n - 1].1 {
            Some(d) => before.push(
                value_message(
                    stream_id,
                    derived_value(event.counters@, d),
                    event.timestamp,
                    event.cpu_id,
                    first + n - 1,
                ),
            ),
            None => before,
        }
    }
}

/// The messages that an event makes: the counters, then what is computed from them.
pub open spec fn event_messages(
    stream_id: u64,
    n_counters: nat,
    computed: Seq<(Seq<char>, Option<DerivedCounter>)>,
    event: PerfCounterEvent,
) -> Seq<MessageView> {
    Seq::new(
        n_counters,
        |i: int|
            value_message(
                stream_id,
                Quantity::Count(event.counters@[i]),
                event.timestamp,
                event.cpu_id,
                i,
            ),
    ) + derived_values(stream_id, computed, n_counters, event, computed.len() as int)
}

/// The performance counters of all processors.
pub struct PerfCounter {
    config: PerfCounterConfig,
    computed: Vec<(String, Option<DerivedCounter>)>,
    nprocs: usize,
    stream_id: u64,
}

proof fn expanded_len(counters: Seq<CounterConfigView>)
    ensures
        counters.len() <= expanded(counters).len(),
    decreases counters.len(),
{
    if counters.len() > 0 {
        expanded_len(counters.drop_last());
    }
}

proof fn derived_in_range(counters: Seq<CounterConfigView>, i: int)
    requires
        0 <= i < counters.len(),
        expanded(counters).len() <= MAX_PERF_COUNTERS,
    ensures
        derived(counters).len() == counters.len(),
        derived(counters)[i].1 matches Some(DerivedCounter::Ipc { cycles_idx, instructions_idx })
            ==> cycles_idx < expanded(counters).len() && instructions_idx < expanded(
            counters,
        ).len(),
    decreases counters.len(),
{
    let init = counters.drop_last();
    derived_len(counters);
    derived_len(init);
    if i < init.len() {
        derived_in_range(init, i);
        assert(derived(counters)[i] == derived(init)[i]);
    }
}

proof fn derived_len(counters: Seq<CounterConfigView>)
    ensures
        derived(counters).len() == counters.len(),
    decreases counters.len(),
{
    if counters.len() > 0 {
        derived_len(counters.drop_last());
    }
}

impl PerfCounter {
    /// The counters.
    pub closed spec fn counters(self) -> Seq<CounterConfigView> {
        self.config.counters.deep_view()
    }

    /// What is computed from them.
    pub closed spec fn computed(self) -> Seq<(Seq<char>, Option<DerivedCounter>)> {
        derived_view(self.computed@)
    }

    /// How many processors there are.
    pub closed spec fn cpus(self) -> nat {
        self.nprocs as nat
    }

    /// The stream that the messages belong to.
    pub closed spec fn stream(self) -> u64 {
        self.stream_id
    }

    pub closed spec fn wf(self) -> bool {
        &&& 0 < self.config.counters@.len() <= MAX_PERF_COUNTERS
        &&& self.computed@.len() <= self.config.counters@.len()
        &&& first_unknown(self.config.counters.deep_view()) is None
        &&& forall|i: int|
            #![trigger self.computed@[i]]
            0 <= i < self.computed@.len() ==> (self.computed@[i].1 matches Some(
                DerivedCounter::Ipc { cycles_idx, instructions_idx },
            ) ==> cycles_idx < MAX_PERF_COUNTERS && instructions_idx < MAX_PERF_COUNTERS)
    }

    /// The performance counters that `config` asks for, where it is valid.
    pub fn new(config: PerfCounterConfig, nprocs: usize, stream_id: u64) -> (r: Result<
        PerfCounter,
        BpfError,
    >)
        ensures
            ({
                let asked = config.counters.deep_view();
                let all = expanded(asked);
                if all.len() == 0 {
                    r matches Err(e) && e.is_load("no performance counters configured"@)
                } else if all.len() > MAX_PERF_COUNTERS {
                    r matches Err(e) && e.is_load(too_many(all.len()))
                } else {
                    match first_unknown(all) {
                        Some(name) => r matches Err(e) && e.is_load(unknown_counter(name)),
                        None => r matches Ok(p) && p.wf() && p.counters() == all && p.computed()
                            == derived(asked) && p.cpus() == nprocs && p.stream() == stream_id,
                    }
                }
            }),
    {
        let mut config = config;
        let ghost asked = config.counters.deep_view();
        match config.validate() {
            Err(e) => Err(e),
            Ok(computed) => {
                proof {
                    expanded_len(asked);
                    derived_len(asked);
                    assert(derived_view(computed@).len() == computed@.len());
                    assert(config.counters.deep_view().len() == config.counters@.len());
                    assert forall|i: int|
                        #![trigger computed@[i]]
                        0 <= i < computed@.len() implies (computed@[i].1 matches Some(
                        DerivedCounter::Ipc { cycles_idx, instructions_idx },
                    ) ==> cycles_idx < MAX_PERF_COUNTERS && instructions_idx
                        < MAX_PERF_COUNTERS) by {
                        derived_in_range(asked, i);
                        assert(derived_view(computed@)[i].1 == computed@[i].1);
                    }
                }
                Ok(PerfCounter { config, computed, nprocs, stream_id })
            },
        }
    }

    /// How many entries the map of the BPF program needs.
    pub fn map_entries(&self) -> (n: u32)
        requires
            self.cpus() * self.counters().len() <= usize::MAX,
        ensures
            n == (self.cpus() * self.counters().len()) as u32,
    {
        assert(self.counters().len() == self.config.counters@.len());
        (self.nprocs * self.config.counters.len()) as u32
    }

    /// The events to open.
    pub fn open_steps(&self) -> (steps: Vec<OpenStep>)
        requires
            self.wf(),
            self.cpus() * self.counters().len() <= usize::MAX,
        ensures
            steps@ == open_steps_spec(
                self.counters(),
                self.cpus(),
                self.counters().len() as int,
            ),
    {
        let mut steps: Vec<OpenStep> = Vec::new();
        let ghost counters = self.counters();
        let n: usize = self.config.counters.len();
        assert(counters.len() == n);
        let mut i: usize = 0;
        while i < n
            invariant
                self.wf(),
                counters == self.counters(),
                n == counters.len(),
                n == self.config.counters@.len(),
                i <= n,
                self.cpus() * n <= usize::MAX,
                steps@ == open_steps_spec(counters, self.cpus(), i as int),
            decreases n - i,
        {
            proof {
                lemma_known(counters, i as int);
            }
            match self.config.counters[i].to_perf_config() {
                Err(_) => {
                    assert(false);
                },
                Ok((_name, perf_type, perf_config)) => {
                    let ghost before = steps@;
                    let ghost row = Seq::new(
                        self.cpus(),
                        |cpu: int| open_step(counters, i as int, cpu),
                    );
                    let mut cpu: usize = 0;
                    assert(before + row.take(0) =~= before);
                    while cpu < self.nprocs
                        invariant
                            counters == self.counters(),
                            n == counters.len(),
                            i < n,
                            cpu <= self.nprocs,
                            self.nprocs == self.cpus(),
                            self.cpus() * n <= usize::MAX,
                            counters[i as int].event() == Some((perf_type, perf_config)),
                            row == Seq::new(
                                self.cpus(),
                                |cpu: int| open_step(counters, i as int, cpu),
                            ),
                            steps@ == before + row.take(cpu as int),
                        decreases self.nprocs - cpu,
                    {
                        assert(cpu * n + i < self.nprocs * n) by (nonlinear_arith)
                            requires
                                cpu + 1 <= self.nprocs,
                                i < n,
                        ;
                        assert(0 <= cpu * n) by (nonlinear_arith);
                        steps.push(
                            OpenStep {
                                counter_idx: i,
                                cpu,
                                perf_type,
                                config: perf_config as u32,
                                map_index: (cpu * n + i) as i32,
                            },
                        );
                        cpu += 1;
                        assert(steps@ =~= before + row.take(cpu as int));
                    }
                    assert(row.take(cpu as int) =~= row);
                },
            }
            i += 1;
        }
        steps
    }

    fn send_track<C: MessageSink>(&self, name: &str, cpu: usize, i: usize, callback: &mut C)
        ensures
            final(callback).log() == old(callback).log().push(
                track_message(self.stream(), name@, cpu as int, i as int),
            ),
    {
        let mut track_name = join2(name, "/cpu");
        push_decimal(&mut track_name, cpu as u64);
        let track = Track {
            name: track_name,
            track_type: TrackType::Counter {
                id: ((cpu as u64) << 32) | (i as u64),
                unit: None,
            },
            parent: Some(TrackType::Cpu { cpu: cpu as u32 }),
        };
        let _ = callback.send(
            Message::Stream { stream_id: self.stream_id, event: StreamEvent::Track(track) },
        );
    }

    /// Describes the tracks of all processors, whatever is answered.
    pub fn announce<C: MessageSink>(&self, callback: &mut C)
        requires
            self.wf(),
        ensures
            final(callback).log() == old(callback).log() + all_tracks(
                self.stream(),
                self.counters(),
                self.computed(),
                self.cpus() as int,
            ),
    {
        let mut cpu: usize = 0;
        assert(callback.log() + Seq::<MessageView>::empty() =~= callback.log());
        while cpu < self.nprocs
            invariant
                self.wf(),
                cpu <= self.nprocs,
                callback.log() == old(callback).log() + all_tracks(
                    self.stream(),
                    self.counters(),
                    self.computed(),
                    cpu as int,
                ),
            decreases self.nprocs - cpu,
        {
            let ghost before = callback.log();
            self.announce_cpu(cpu, callback);
            cpu += 1;
            assert(callback.log() =~= old(callback).log() + all_tracks(
                self.stream(),
                self.counters(),
                self.computed(),
                cpu as int,
            ));
        }
    }

    fn announce_cpu<C: MessageSink>(&self, cpu: usize, callback: &mut C)
        requires
            self.wf(),
        ensures
            final(callback).log() == old(callback).log() + cpu_tracks(
                self.stream(),
                self.counters(),
                self.computed(),
                cpu as int,
            ),
    {
        let ghost log = callback.log();
        let ghost rows = Seq::new(
            self.counters().len(),
            |i: int| track_message(self.stream(), self.counters()[i].name(), cpu as int, i),
        );
        let n: usize = self.config.counters.len();
        assert(n == self.counters().len());
        let mut i: usize = 0;
        assert(log + rows.take(0) =~= log);
        while i < n
            invariant
                i <= n,
                n == self.counters().len(),
                n == self.config.counters@.len(),
                rows == Seq::new(
                    self.counters().len(),
                    |i: int| track_message(self.stream(), self.counters()[i].name(), cpu as int, i),
                ),
                callback.log() == log + rows.take(i as int),
            decreases n - i,
        {
            self.send_track(self.config.counters[i].name(), cpu, i, callback);
            i += 1;
            assert(rows.take(i as int) =~= rows.take(i - 1).push(rows[i - 1]));
            assert(callback.log() =~= log + rows.take(i as int));
        }
        assert(rows.take(i as int) =~= rows);
        let ghost log1 = callback.log();
        let mut k: usize = 0;
        assert(self.computed().len() == self.computed@.len());
        assert(log1 + Seq::<MessageView>::empty() =~= log1);
        while k < self.computed.len()
            invariant
                self.wf(),
                n == self.counters().len(),
                n == self.config.counters@.len(),
                k <= self.computed@.len(),
                self.computed().len() == self.computed@.len(),
                callback.log() == log1 + derived_tracks(
                    self.stream(),
                    self.computed(),
                    n as nat,
                    cpu as int,
                    k as int,
                ),
            decreases self.computed@.len() - k,
        {
            let ghost done = derived_tracks(
                self.stream(),
                self.computed(),
                n as nat,
                cpu as int,
                k as int,
            );
            let ghost logk = callback.log();
            assert(self.computed()[k as int] == (self.computed@[k as int].0@, self.computed@[k as int].1));
            if self.computed[k].1.is_some() {
                self.send_track(self.computed[k].0.as_str(), cpu, n + k, callback);
                assert(callback.log() =~= log1 + done.push(
                    track_message(
                        self.stream(),
                        self.computed()[k as int].0,
                        cpu as int,
                        n + k,
                    ),
                ));
            }
            k += 1;
        }
        assert(callback.log() =~= log + cpu_tracks(
            self.stream(),
            self.counters(),
            self.computed(),
            cpu as int,
        ));
    }

    fn send_value<C: MessageSink>(
        &self,
        value: Quantity,
        timestamp: u64,
        cpu: u32,
        i: usize,
        callback: &mut C,
    )
        ensures
            final(callback).log() == old(callback).log().push(
                value_message(self.stream(), value, timestamp, cpu, i as int),
            ),
    {
        let counter = StreamCounter {
            name: "".to_owned(),
            value,
            timestamp,
            track_id: TrackId::Counter { id: ((cpu as u64) << 32) | (i as u64) },
            unit: None,
        };
        let _ = callback.send(
            Message::Stream { stream_id: self.stream_id, event: StreamEvent::Counter(counter) },
        );
    }

    /// Reports an event: the counters, then what is computed from them, whatever is answered.
    pub fn on_event<C: MessageSink>(&self, event: &PerfCounterEvent, callback: &mut C)
        requires
            self.wf(),
        ensures
            final(callback).log() == old(callback).log() + event_messages(
                self.stream(),
                self.counters().len(),
                self.computed(),
                *event,
            ),
    {
        let ghost log = callback.log();
        let n: usize = self.config.counters.len();
        assert(n == self.counters().len());
        let ghost rows = Seq::new(
            n as nat,
            |i: int|
                value_message(
                    self.stream(),
                    Quantity::Count(event.counters@[i]),
                    event.timestamp,
                    event.cpu_id,
                    i,
                ),
        );
        let mut i: usize = 0;
        assert(log + rows.take(0) =~= log);
        while i < n
            invariant
                i <= n <= MAX_PERF_COUNTERS,
                rows == Seq::new(
                    n as nat,
                    |i: int|
                        value_message(
                            self.stream(),
                            Quantity::Count(event.counters@[i]),
                            event.timestamp,
                            event.cpu_id,
                            i,
                        ),
                ),
                callback.log() == log + rows.take(i as int),
            decreases n - i,
        {
            self.send_value(
                Quantity::Count(event.counters[i]),
                event.timestamp,
                event.cpu_id,
                i,
                callback,
            );
            i += 1;
            assert(rows.take(i as int) =~= rows.take(i - 1).push(rows[i - 1]));
            assert(callback.log() =~= log + rows.take(i as int));
        }
        assert(rows.take(i as int) =~= rows);
        let ghost log1 = callback.log();
        assert(self.computed().len() == self.computed@.len());
        assert(log1 + Seq::<MessageView>::empty() =~= log1);
        let mut k: usize = 0;
        while k < self.computed.len()
            invariant
                self.wf(),
                n == self.config.counters@.len(),
                k <= self.computed@.len(),
                self.computed().len() == self.computed@.len(),
                callback.log() == log1 + derived_values(
                    self.stream(),
                    self.computed(),
                    n as nat,
                    *event,
                    k as int,
                ),
            decreases self.computed@.len() - k,
        {
            let ghost done = derived_values(
                self.stream(),
                self.computed(),
                n as nat,
                *event,
                k as int,
            );
            assert(self.computed()[k as int].1 == self.computed@[k as int].1);
            if let Some(DerivedCounter::Ipc { cycles_idx, instructions_idx }) = self.computed[k].1 {
                let cycles: u64 = event.counters[cycles_idx];
                let instructions: u64 = event.counters[instructions_idx];
                let value = if cycles > 0 {
                    Quantity::Ratio { dividend: instructions, divisor: cycles }
                } else {
                    Quantity::Count(0)
                };
                self.send_value(value, event.timestamp, event.cpu_id, n + k, callback);
                assert(callback.log() =~= log1 + done.push(
                    value_message(
                        self.stream(),
                        value,
                        event.timestamp,
                        event.cpu_id,
                        n + k,
                    ),
                ));
            }
            k += 1;
        }
        assert(callback.log() =~= log + event_messages(
            self.stream(),
            self.counters().len(),
            self.computed(),
            *event,
        ));
    }
}

proof fn lemma_known(counters: Seq<CounterConfigView>, i: int)
    requires
        first_unknown(counters) is None,
        0 <= i < counters.len(),
    ensures
        counters[i].event() is Some,
    decreases counters.len(),
{
    if i > 0 {
        lemma_known(counters.drop_first(), i - 1);
    }
}

/// Different values of different processors have different tracks.
pub proof fn counter_tracks_are_distinct(cpu1: u32, i1: u32, cpu2: u32, i2: u32)
    requires
        counter_track_id(cpu1 as u64, i1 as u64) == counter_track_id(cpu2 as u64, i2 as u64),
    ensures
        cpu1 == cpu2,
        i1 == i2,
{
    assert(cpu1 == cpu2 && i1 == i2) by (bit_vector)
        requires
            ((cpu1 as u64) << 32) | (i1 as u64) == ((cpu2 as u64) << 32) | (i2 as u64),
    ;
}

/// `track` describes the track that `value` belongs to.
pub open spec fn same_track(track: MessageView, value: MessageView) -> bool {
    &&& track matches MessageView::Stream { stream_id: s1, event: StreamEventView::Track(t) }
    &&& value matches MessageView::Stream { stream_id: s2, event: StreamEventView::Counter(c) }
    &&& t.track_type matches TrackTypeView::Counter { id: id1, .. }
    &&& c.track_id matches TrackId::Counter { id: id2 }
    &&& s1 == s2
    &&& id1 == id2
}

proof fn derived_values_have_tracks(
    stream_id: u64,
    computed: Seq<(Seq<char>, Option<DerivedCounter>)>,
    first: nat,
    event: PerfCounterEvent,
    n: int,
)
    requires
        n <= computed.len(),
    ensures
        derived_tracks(stream_id, computed, first, event.cpu_id as int, n).len() == derived_values(
            stream_id,
            computed,
            first,
            event,
            n,
        ).len(),
        forall|k: int|
            0 <= k < derived_values(stream_id, computed, first, event, n).len() ==> same_track(
                derived_tracks(stream_id, computed, first, event.cpu_id as int, n)[k],
                #[trigger] derived_values(stream_id, computed, first, event, n)[k],
            ),
    decreases n,
{
    if n > 0 {
        derived_values_have_tracks(stream_id, computed, first, event, n - 1);
    }
}

proof fn all_tracks_hold_those_of(
    stream_id: u64,
    counters: Seq<CounterConfigView>,
    computed: Seq<(Seq<char>, Option<DerivedCounter>)>,
    n: int,
    cpu: int,
    k: int,
) -> (j: int)
    requires
        0 <= cpu < n,
        0 <= k < cpu_tracks(stream_id, counters, computed, cpu).len(),
    ensures
        0 <= j < all_tracks(stream_id, counters, computed, n).len(),
        all_tracks(stream_id, counters, computed, n)[j] == cpu_tracks(
            stream_id,
            counters,
            computed,
            cpu,
        )[k],
    decreases n,
{
    if cpu == n - 1 {
        all_tracks(stream_id, counters, computed, n - 1).len() + k
    } else {
        all_tracks_hold_those_of(stream_id, counters, computed, n - 1, cpu, k)
    }
}

/// Every value that is reported for a known processor belongs to a track that was described
/// before.
pub proof fn values_have_tracks(p: PerfCounter, event: PerfCounterEvent, k: int)
    requires
        p.wf(),
        event.cpu_id < p.cpus(),
        0 <= k < event_messages(p.stream(), p.counters().len(), p.computed(), event).len(),
    ensures
        exists|j: int|
            0 <= j < all_tracks(
                p.stream(),
                p.counters(),
                p.computed(),
                p.cpus() as int,
            ).len() && same_track(
                #[trigger] all_tracks(p.stream(), p.counters(), p.computed(), p.cpus() as int)[j],
                event_messages(p.stream(), p.counters().len(), p.computed(), event)[k],
            ),
{
    let cpu = event.cpu_id as int;
    derived_values_have_tracks(
        p.stream(),
        p.computed(),
        p.counters().len(),
        event,
        p.computed().len() as int,
    );
    let values = event_messages(p.stream(), p.counters().len(), p.computed(), event);
    let tracks = cpu_tracks(p.stream(), p.counters(), p.computed(), cpu);
    assert(same_track(tracks[k], values[k])) by {
        let n = p.counters().len() as int;
        if k >= n {
            let rest = derived_values(
                p.stream(),
                p.computed(),
                p.counters().len(),
                event,
                p.computed().len() as int,
            );
            assert(values[k] == rest[k - n]);
        }
    }
    let j = all_tracks_hold_those_of(
        p.stream(),
        p.counters(),
        p.computed(),
        p.cpus() as int,
        cpu,
        k,
    );
    assert(same_track(
        all_tracks(p.stream(), p.counters(), p.computed(), p.cpus() as int)[j],
        values[k],
    ));
}

/// Expanding twice is expanding once: what stands for instructions per cycle is gone.
pub proof fn expansion_is_final(counters: Seq<CounterConfigView>)
    ensures
        expanded(expanded(counters)) == expanded(counters),
{
    expanded_has_no_ipc(counters);
    nothing_to_expand(expanded(counters));
}

proof fn expanded_has_no_ipc(counters: Seq<CounterConfigView>)
    ensures
        forall|i: int| 0 <= i < expanded(counters).len() ==> !is_ipc(#[trigger] expanded(counters)[i]),
    decreases counters.len(),
{
    reveal_strlit("ipc");
    reveal_strlit("cpu-cycles");
    reveal_strlit("cpu-instructions");
    if counters.len() > 0 {
        let before = expanded(counters.drop_last());
        let one = expanded_one(counters.last());
        expanded_has_no_ipc(counters.drop_last());
        assert("cpu-cycles"@.len() != "ipc"@.len());
        assert("cpu-instructions"@.len() != "ipc"@.len());
        assert forall|i: int| 0 <= i < expanded(counters).len() implies !is_ipc(
            #[trigger] expanded(counters)[i],
        ) by {
            if i < before.len() {
                assert(expanded(counters)[i] == before[i]);
            } else {
                assert(expanded(counters)[i] == one[i - before.len()]);
            }
        }
    }
}

proof fn nothing_to_expand(counters: Seq<CounterConfigView>)
    requires
        forall|i: int| 0 <= i < counters.len() ==> !is_ipc(#[trigger] counters[i]),
    ensures
        expanded(counters) == counters,
    decreases counters.len(),
{
    if counters.len() > 0 {
        let init = counters.drop_last();
        assert forall|i: int| 0 <= i < init.len() implies !is_ipc(#[trigger] init[i]) by {
            assert(!is_ipc(counters[i]));
        }
        nothing_to_expand(init);
        assert(!is_ipc(counters[counters.len() - 1]));
        assert(expanded(counters) =~= counters);
    }
}

} // verus!
