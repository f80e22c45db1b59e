//! What the reports on performance counters tell.

use crate::bpf::error::BpfError;
use crate::bpf::perfcounter;
use crate::bpf::perfcounter::{
    CounterConfig, CounterConfigView, DerivedCounter, OpenStep, PerfCounter, PerfCounterConfig,
    PerfCounterEvent,
};
use crate::bpf::stream::{
    MessageSink, MessageView, Quantity, StreamEventView, TrackId, TrackTypeView,
};
use crate::text;
use vstd::prelude::*;

verus! {

/// The counter is the event `number` of the kind `kind`, under its own name.
pub open spec fn is_event(
    r: Result<(String, u32, u64), BpfError>,
    name: Seq<char>,
    kind: u32,
    number: u64,
) -> bool {
    r matches Ok(c) && c.0@ == name && c.1 == kind && c.2 == number
}

/// The names of the hardware events, which are of kind 0, and their numbers.
pub proof fn hardware_events_are_known(
    c: &CounterConfig,
    name: String,
    r: Result<(String, u32, u64), BpfError>,
)
    requires
        call_ensures(CounterConfig::to_perf_config, (c,), r),
        *c == CounterConfig::Named(name),
    ensures
        name@ == "cpu-cycles"@ ==> is_event(r, name@, 0, 0),
        name@ == "cpu-instructions"@ || name@ == "instructions"@ ==> is_event(r, name@, 0, 1),
        name@ == "cache-references"@ ==> is_event(r, name@, 0, 2),
        name@ == "cache-misses"@ ==> is_event(r, name@, 0, 3),
        name@ == "branch-instructions"@ || name@ == "branches"@ ==> is_event(r, name@, 0, 4),
        name@ == "branch-misses"@ ==> is_event(r, name@, 0, 5),
        name@ == "stalled-cycles-frontend"@ ==> is_event(r, name@, 0, 7),
        name@ == "stalled-cycles-backend"@ ==> is_event(r, name@, 0, 8),
        r matches Ok(e) ==> (e.1 == 0 ==> (name@ == "cpu-cycles"@ || name@ == "cpu-instructions"@
            || name@ == "instructions"@ || name@ == "cache-references"@ || name@
            == "cache-misses"@ || name@ == "branch-instructions"@ || name@ == "branches"@ || name@
            == "branch-misses"@ || name@ == "stalled-cycles-frontend"@ || name@
            == "stalled-cycles-backend"@)),
{
    names_differ();
}

/// The names of the software events, which are of kind 1, and their numbers; what has no known
/// name is refused.
pub proof fn software_events_are_known(
    c: &CounterConfig,
    name: String,
    r: Result<(String, u32, u64), BpfError>,
)
    requires
        call_ensures(CounterConfig::to_perf_config, (c,), r),
        *c == CounterConfig::Named(name),
    ensures
        name@ == "cpu-clock"@ ==> is_event(r, name@, 1, 0),
        name@ == "task-clock"@ ==> is_event(r, name@, 1, 1),
        name@ == "page-faults"@ || name@ == "faults"@ ==> is_event(r, name@, 1, 2),
        name@ == "context-switches"@ || name@ == "cs"@ ==> is_event(r, name@, 1, 3),
        name@ == "cpu-migrations"@ || name@ == "migrations"@ ==> is_event(r, name@, 1, 4),
        name@ == "minor-faults"@ ==> is_event(r, name@, 1, 5),
        name@ == "major-faults"@ ==> is_event(r, name@, 1, 6),
        r matches Ok(e) ==> (e.1 == 0 || e.1 == 1) && (e.1 == 1 ==> (name@ == "cpu-clock"@ || name@
            == "task-clock"@ || name@ == "page-faults"@ || name@ == "faults"@ || name@
            == "context-switches"@ || name@ == "cs"@ || name@ == "cpu-migrations"@ || name@
            == "migrations"@ || name@ == "minor-faults"@ || name@ == "major-faults"@)),
        r matches Err(e) ==> (e matches BpfError::LoadError(t) && t@
            == "unknown performance counter: "@ + name@),
{
    names_differ();
}

proof fn names_differ()
    ensures
        "cpu-cycles"@.len() == 10,
        "cpu-cycles"@[4] == 'c',
        "cpu-instructions"@.len() == 16,
        "cpu-instructions"@[0] == 'c',
        "cpu-instructions"@[1] == 'p',
        "instructions"@.len() == 12,
        "instructions"@[0] == 'i',
        "cache-references"@.len() == 16,
        "cache-references"@[0] == 'c',
        "cache-references"@[1] == 'a',
        "cache-misses"@.len() == 12,
        "cache-misses"@[0] == 'c',
        "branch-instructions"@.len() == 19,
        "branches"@.len() == 8,
        "branch-misses"@.len() == 13,
        "stalled-cycles-frontend"@.len() == 23,
        "stalled-cycles-backend"@.len() == 22,
        "cpu-clock"@.len() == 9,
        "task-clock"@.len() == 10,
        "task-clock"@[4] == '-',
        "task-clock"@[0] == 't',
        "migrations"@.len() == 10,
        "migrations"@[0] == 'm',
        "page-faults"@.len() == 11,
        "faults"@.len() == 6,
        "context-switches"@.len() == 16,
        "context-switches"@[1] == 'o',
        "cs"@.len() == 2,
        "cpu-migrations"@.len() == 14,
        "minor-faults"@.len() == 12,
        "minor-faults"@[0] == 'm',
        "minor-faults"@[1] == 'i',
        "major-faults"@.len() == 12,
        "major-faults"@[0] == 'm',
        "major-faults"@[1] == 'a',
        "cpu-cycles"@[0] == 'c',
{
    reveal_strlit("cpu-cycles");
    reveal_strlit("cpu-instructions");
    reveal_strlit("instructions");
    reveal_strlit("cache-references");
    reveal_strlit("cache-misses");
    reveal_strlit("branch-instructions");
    reveal_strlit("branches");
    reveal_strlit("branch-misses");
    reveal_strlit("stalled-cycles-frontend");
    reveal_strlit("stalled-cycles-backend");
    reveal_strlit("cpu-clock");
    reveal_strlit("task-clock");
    reveal_strlit("page-faults");
    reveal_strlit("faults");
    reveal_strlit("context-switches");
    reveal_strlit("cs");
    reveal_strlit("cpu-migrations");
    reveal_strlit("migrations");
    reveal_strlit("minor-faults");
    reveal_strlit("major-faults");
}

/// A counter that is given by the kernel's numbers is read by these numbers, under its name.
pub proof fn numbered_events_are_taken(
    c: &CounterConfig,
    name: String,
    perf_type: u32,
    config: u64,
    r: Result<(String, u32, u64), BpfError>,
)
    requires
        call_ensures(CounterConfig::to_perf_config, (c,), r),
        *c == (CounterConfig::Custom { name, perf_type, config }),
    ensures
        is_event(r, name@, perf_type, config),
{
}

/// How many of the first `n` counters stand for instructions per cycle.
pub open spec fn ratios(asked: Seq<CounterConfigView>, n: int) -> nat
    decreases n,
{
    if n <= 0 {
        0
    } else if asked[n - 1] == CounterConfigView::Named("ipc"@) {
        ratios(asked, n - 1) + 1
    } else {
        ratios(asked, n - 1)
    }
}

proof fn counters_are_in_place(asked: Seq<CounterConfigView>, i: int)
    requires
        0 <= i < asked.len(),
        asked.len() + ratios(asked, asked.len() as int) <= 8,
    ensures
        perfcounter::expanded(asked).len() == asked.len() + ratios(asked, asked.len() as int),
        perfcounter::derived(asked).len() == asked.len(),
        i + ratios(asked, i) < perfcounter::expanded(asked).len(),
        asked[i] != CounterConfigView::Named("ipc"@) ==> perfcounter::expanded(asked)[i + ratios(
            asked,
            i,
        )] == asked[i] && perfcounter::derived(asked)[i].1 is None,
        asked[i] == CounterConfigView::Named("ipc"@) ==> {
            let at = i + ratios(asked, i);
            &&& at + 1 < perfcounter::expanded(asked).len()
            &&& perfcounter::expanded(asked)[at] == CounterConfigView::Named("cpu-cycles"@)
            &&& perfcounter::expanded(asked)[at + 1] == CounterConfigView::Named(
                "cpu-instructions"@,
            )
            &&& perfcounter::derived(asked)[i] == (
                "ipc"@,
                Some(
                    DerivedCounter::Ipc {
                        cycles_idx: at as usize,
                        instructions_idx: (at + 1) as usize,
                    },
                ),
            )
        },
    decreases asked.len(),
{
    let init = asked.drop_last();
    let n = asked.len() as int;
    ratios_of_prefix(asked, n - 1);
    assert(asked.take(n - 1) =~= init);
    if i < n - 1 {
        counters_are_in_place(init, i);
        ratios_of_prefix(asked, i);
        ratios_of_prefix(init, i);
        assert(asked.take(i) =~= init.take(i));
    } else if n > 1 {
        counters_are_in_place(init, 0);
    } else {
        assert(perfcounter::expanded(init).len() == 0);
    }
}

proof fn ratios_of_prefix(asked: Seq<CounterConfigView>, n: int)
    requires
        0 <= n <= asked.len(),
    ensures
        ratios(asked.take(n), n) == ratios(asked, n),
    decreases n,
{
    if n > 0 {
        ratios_of_prefix(asked, n - 1);
        ratios_of_prefix(asked.take(n), n - 1);
        assert(asked.take(n).take(n - 1) =~= asked.take(n - 1));
    }
}

/// All counters that were asked for are read, in order; instructions per cycle are read as cycles
/// and instructions, and are computed from these two.
pub proof fn asked_counters_are_read(
    config: PerfCounterConfig,
    nprocs: usize,
    stream_id: u64,
    p: PerfCounter,
    i: int,
)
    requires
        call_ensures(PerfCounter::new, (config, nprocs, stream_id), Ok(p)),
        config.counters.deep_view().len() + ratios(
            config.counters.deep_view(),
            config.counters.deep_view().len() as int,
        ) <= 8,
        0 <= i < config.counters.deep_view().len(),
    ensures
        ({
            let asked = config.counters.deep_view();
            let at = i + ratios(asked, i);
            &&& p.cpus() == nprocs
            &&& p.stream() == stream_id
            &&& p.counters().len() == asked.len() + ratios(asked, asked.len() as int)
            &&& p.computed().len() == asked.len()
            &&& asked[i] != CounterConfigView::Named("ipc"@) ==> p.counters()[at] == asked[i]
                && p.computed()[i].1 is None
            &&& asked[i] == CounterConfigView::Named("ipc"@) ==> {
                &&& p.counters()[at] == CounterConfigView::Named("cpu-cycles"@)
                &&& p.counters()[at + 1] == CounterConfigView::Named("cpu-instructions"@)
                &&& p.computed()[i].0 == "ipc"@
                &&& p.computed()[i].1 matches Some(DerivedCounter::Ipc {
                    cycles_idx,
                    instructions_idx,
                }) && cycles_idx == at && instructions_idx == at + 1
            }
        }),
{
    counters_are_in_place(config.counters.deep_view(), i);
}

/// Too many counters, none at all, or one that is not known are refused, and nothing else is.
pub proof fn counters_are_refused(
    config: PerfCounterConfig,
    nprocs: usize,
    stream_id: u64,
    r: Result<PerfCounter, BpfError>,
)
    requires
        call_ensures(PerfCounter::new, (config, nprocs, stream_id), r),
    ensures
        ({
            let all = perfcounter::expanded(config.counters.deep_view());
            r is Ok <==> 0 < all.len() <= 8 && forall|i: int|
                0 <= i < all.len() ==> (#[trigger] all[i]).event() is Some
        }),
        r matches Err(e) ==> e is LoadError,
        config.counters.deep_view().len() == 0 ==> (r matches Err(BpfError::LoadError(t)) && t@
            == "no performance counters configured"@),
        ({
            let all = perfcounter::expanded(config.counters.deep_view());
            &&& all.len() > 8 ==> (r matches Err(BpfError::LoadError(t)) && t@
                == "too many performance counters: "@ + text::decimal(all.len()) + " (max: "@
                + text::decimal(8) + ")"@)
            &&& 0 < all.len() <= 8 ==> (r matches Err(BpfError::LoadError(t)) ==> exists|i: int|
                0 <= i < all.len() && (#[trigger] all[i]).event() is None && t@
                    == "unknown performance counter: "@ + all[i].name() && forall|j: int|
                    0 <= j < i ==> (#[trigger] all[j]).event() is Some)
        }),
{
    unknown_is_found(perfcounter::expanded(config.counters.deep_view()));
}

proof fn unknown_is_found(counters: Seq<CounterConfigView>)
    ensures
        perfcounter::first_unknown(counters) is None <==> forall|i: int|
            0 <= i < counters.len() ==> (#[trigger] counters[i]).event() is Some,
        perfcounter::first_unknown(counters) matches Some(name) ==> exists|i: int|
            0 <= i < counters.len() && (#[trigger] counters[i]).event() is None
                && counters[i].name() == name && forall|j: int|
                0 <= j < i ==> (#[trigger] counters[j]).event() is Some,
    decreases counters.len(),
{
    if counters.len() > 0 {
        let rest = counters.drop_first();
        unknown_is_found(rest);
        if counters[0].event() is Some && perfcounter::first_unknown(rest) is Some {
            let i = choose|i: int|
                0 <= i < rest.len() && (#[trigger] rest[i]).event() is None && rest[i].name()
                    == perfcounter::first_unknown(rest)->Some_0 && forall|j: int|
                    0 <= j < i ==> (#[trigger] rest[j]).event() is Some;
            assert(counters[i + 1] == rest[i]);
            assert forall|j: int| 0 <= j < i + 1 implies (#[trigger] counters[j]).event() is Some by {
                if j > 0 {
                    assert(rest[j - 1] == counters[j]);
                }
            }
        }
        if forall|i: int| 0 <= i < counters.len() ==> (#[trigger] counters[i]).event() is Some {
            assert forall|i: int| 0 <= i < rest.len() implies (#[trigger] rest[i]).event() is Some by {
                assert(counters[i + 1].event() is Some);
            }
        }
        if perfcounter::first_unknown(counters) is None {
            assert forall|i: int| 0 <= i < counters.len() implies (
            #[trigger] counters[i]).event() is Some by {
                if i > 0 {
                    assert(rest[i - 1] == counters[i]);
                }
            }
        }
    }
}

/// Each counter is opened once on each processor, as its own event, and in a place of its own.
pub proof fn each_counter_is_opened(p: &PerfCounter, steps: Vec<OpenStep>, idx: int, cpu: int)
    requires
        call_ensures(PerfCounter::open_steps, (p,), steps),
        p.cpus() <= usize::MAX,
        p.counters().len() <= 8,
        0 <= idx < p.counters().len(),
        0 <= cpu < p.cpus(),
        p.cpus() * p.counters().len() <= i32::MAX,
        p.counters()[idx].event() matches Some(e) && e.1 <= u32::MAX,
    ensures
        steps@.len() == p.counters().len() * p.cpus(),
        ({
            let s = steps@[idx * p.cpus() + cpu];
            &&& 0 <= idx * p.cpus() + cpu < steps@.len()
            &&& s.counter_idx == idx
            &&& s.cpu == cpu
            &&& s.perf_type == p.counters()[idx].event()->Some_0.0
            &&& s.config == p.counters()[idx].event()->Some_0.1
            &&& s.map_index == cpu * p.counters().len() + idx
        }),
{
    let n = p.counters().len() as int;
    steps_are_in_place(p.counters(), p.cpus(), n, idx, cpu);
    let c = p.cpus() as int;
    assert(0 <= cpu * n + idx < c * n) by (nonlinear_arith)
        requires
            0 <= cpu < c,
            0 <= idx < n,
    ;
}

proof fn steps_are_in_place(
    counters: Seq<CounterConfigView>,
    nprocs: nat,
    n: int,
    idx: int,
    cpu: int,
)
    requires
        0 <= idx < n,
        0 <= cpu < nprocs,
    ensures
        perfcounter::open_steps_spec(counters, nprocs, n).len() == n * nprocs,
        0 <= idx * nprocs + cpu < n * nprocs,
        perfcounter::open_steps_spec(counters, nprocs, n)[idx * nprocs + cpu]
            == perfcounter::open_step(counters, idx, cpu),
    decreases n,
{
    let all = perfcounter::open_steps_spec(counters, nprocs, n);
    let before = perfcounter::open_steps_spec(counters, nprocs, n - 1);
    assert(0 <= idx * nprocs + cpu < n * nprocs) by (nonlinear_arith)
        requires
            0 <= cpu < nprocs,
            0 <= idx < n,
    ;
    assert(n * nprocs == (n - 1) * nprocs + nprocs) by (nonlinear_arith);
    if n > 1 {
        steps_are_in_place(counters, nprocs, n - 1, if idx < n - 1 {
            idx
        } else {
            0
        }, cpu);
    } else {
        assert(before.len() == 0);
        assert((n - 1) * nprocs == 0) by (nonlinear_arith)
            requires
                n == 1,
        ;
    }
    if idx < n - 1 {
        assert(all[idx * nprocs + cpu] == before[idx * nprocs + cpu]);
    } else {
        assert(all[before.len() + cpu] == perfcounter::open_step(counters, idx, cpu));
    }
}

/// The message describes the track of the `i`th value of the processor `cpu`: under the given name
/// with the processor behind it, below the processor.
pub open spec fn describes_value(
    m: MessageView,
    stream: u64,
    name: Seq<char>,
    cpu: int,
    i: int,
) -> bool {
    m matches MessageView::Stream { stream_id, event: StreamEventView::Track(t) } && {
        &&& stream_id == stream
        &&& t.name == name + "/cpu"@ + text::decimal(cpu as nat)
        &&& t.parent == Some(TrackTypeView::Cpu { cpu: cpu as u32 })
        &&& t.track_type == (TrackTypeView::Counter {
            id: perfcounter::counter_track_id(cpu as u64, i as u64),
            unit: None,
        })
    }
}

/// The message tells the `i`th value of a processor.
pub open spec fn tells_value(
    m: MessageView,
    stream: u64,
    e: PerfCounterEvent,
    i: int,
    value: Quantity,
) -> bool {
    m matches MessageView::Stream { stream_id, event: StreamEventView::Counter(c) } && {
        &&& stream_id == stream
        &&& c.track_id == (TrackId::Counter {
            id: perfcounter::counter_track_id(e.cpu_id as u64, i as u64),
        })
        &&& c.timestamp == e.timestamp
        &&& c.value == value
    }
}

pub open spec fn is_described(
    log: Seq<MessageView>,
    stream: u64,
    name: Seq<char>,
    cpu: int,
    i: int,
) -> bool {
    exists|j: int|
        0 <= j < log.len() && #[trigger] describes_value(log[j], stream, name, cpu, i)
}

pub open spec fn is_told(
    log: Seq<MessageView>,
    stream: u64,
    e: PerfCounterEvent,
    i: int,
    value: Quantity,
) -> bool {
    exists|j: int| 0 <= j < log.len() && #[trigger] tells_value(log[j], stream, e, i, value)
}

/// For each processor, the track of each counter is described under the name of the counter, and
/// the track of each computed value under its name.
pub proof fn values_are_described<C: MessageSink>(
    p: &PerfCounter,
    c: &mut C,
    cpu: int,
    i: int,
)
    requires
        call_ensures(PerfCounter::announce::<C>, (p, c), ()),
        0 <= cpu < p.cpus(),
    ensures
        old(c).log().is_prefix_of(final(c).log()),
        ({
            let told = final(c).log().skip(old(c).log().len() as int);
            let n = p.counters().len();
            &&& 0 <= i < n ==> is_described(told, p.stream(), p.counters()[i].name(), cpu, i)
            &&& 0 <= i < p.computed().len() && p.computed()[i].1 is Some ==> is_described(
                told,
                p.stream(),
                p.computed()[i].0,
                cpu,
                n + i,
            )
        }),
{
    let all = perfcounter::all_tracks(p.stream(), p.counters(), p.computed(), p.cpus() as int);
    let own = perfcounter::cpu_tracks(p.stream(), p.counters(), p.computed(), cpu);
    let n = p.counters().len();
    assert(final(c).log().skip(old(c).log().len() as int) =~= all);
    if 0 <= i < n {
        assert(describes_value(own[i], p.stream(), p.counters()[i].name(), cpu, i));
        tracks_of_processor_are_told(p, cpu, i);
        let j = choose|j: int| 0 <= j < all.len() && all[j] == own[i];
        assert(describes_value(all[j], p.stream(), p.counters()[i].name(), cpu, i));
    }
    if 0 <= i < p.computed().len() && p.computed()[i].1 is Some {
        let m = p.computed().len() as int;
        let computed = perfcounter::derived_tracks(p.stream(), p.computed(), n, cpu, m);
        let message = perfcounter::track_message(p.stream(), p.computed()[i].0, cpu, n + i);
        computed_track_is_there(p.stream(), p.computed(), n, cpu, m, i);
        let k = choose|k: int| 0 <= k < computed.len() && computed[k] == message;
        assert(own[n + k] == message);
        tracks_of_processor_are_told(p, cpu, n + k);
        let j = choose|j: int| 0 <= j < all.len() && all[j] == own[n + k];
        assert(describes_value(all[j], p.stream(), p.computed()[i].0, cpu, n + i));
    }
}

proof fn tracks_of_processor_are_told(p: &PerfCounter, cpu: int, k: int)
    requires
        0 <= cpu < p.cpus(),
        0 <= k < perfcounter::cpu_tracks(p.stream(), p.counters(), p.computed(), cpu).len(),
    ensures
        perfcounter::all_tracks(
            p.stream(),
            p.counters(),
            p.computed(),
            p.cpus() as int,
        ).contains(perfcounter::cpu_tracks(p.stream(), p.counters(), p.computed(), cpu)[k]),
{
    track_is_among_all(p.stream(), p.counters(), p.computed(), p.cpus() as int, cpu, k);
}

proof fn track_is_among_all(
    stream: u64,
    counters: Seq<CounterConfigView>,
    computed: Seq<(Seq<char>, Option<DerivedCounter>)>,
    n: int,
    cpu: int,
    k: int,
)
    requires
        0 <= cpu < n,
        0 <= k < perfcounter::cpu_tracks(stream, counters, computed, cpu).len(),
    ensures
        perfcounter::all_tracks(stream, counters, computed, n).contains(
            perfcounter::cpu_tracks(stream, counters, computed, cpu)[k],
        ),
    decreases n,
{
    let all = perfcounter::all_tracks(stream, counters, computed, n);
    let before = perfcounter::all_tracks(stream, counters, computed, n - 1);
    let own = perfcounter::cpu_tracks(stream, counters, computed, cpu);
    if cpu == n - 1 {
        assert(all[before.len() + k] == own[k]);
    } else {
        track_is_among_all(stream, counters, computed, n - 1, cpu, k);
        let j = choose|j: int| 0 <= j < before.len() && before[j] == own[k];
        assert(all[j] == own[k]);
    }
}

proof fn computed_track_is_there(
    stream: u64,
    computed: Seq<(Seq<char>, Option<DerivedCounter>)>,
    first: nat,
    cpu: int,
    n: int,
    i: int,
)
    requires
        0 <= i < n,
        computed[i].1 is Some,
    ensures
        perfcounter::derived_tracks(stream, computed, first, cpu, n).contains(
            perfcounter::track_message(stream, computed[i].0, cpu, first + i),
        ),
    decreases n,
{
    let all = perfcounter::derived_tracks(stream, computed, first, cpu, n);
    let before = perfcounter::derived_tracks(stream, computed, first, cpu, n - 1);
    let message = perfcounter::track_message(stream, computed[i].0, cpu, first + i);
    if i == n - 1 {
        assert(all[before.len() as int] == message);
    } else {
        computed_track_is_there(stream, computed, first, cpu, n - 1, i);
        let j = choose|j: int| 0 <= j < before.len() && before[j] == message;
        assert(all[j] == message);
    }
}

proof fn computed_value_is_there(
    stream: u64,
    computed: Seq<(Seq<char>, Option<DerivedCounter>)>,
    first: nat,
    e: PerfCounterEvent,
    n: int,
    i: int,
)
    requires
        0 <= i < n,
        computed[i].1 is Some,
    ensures
        perfcounter::derived_values(stream, computed, first, e, n).contains(
            perfcounter::value_message(
                stream,
                perfcounter::derived_value(e.counters@, computed[i].1->Some_0),
                e.timestamp,
                e.cpu_id,
                first + i,
            ),
        ),
    decreases n,
{
    let all = perfcounter::derived_values(stream, computed, first, e, n);
    let before = perfcounter::derived_values(stream, computed, first, e, n - 1);
    let message = perfcounter::value_message(
        stream,
        perfcounter::derived_value(e.counters@, computed[i].1->Some_0),
        e.timestamp,
        e.cpu_id,
        first + i,
    );
    if i == n - 1 {
        assert(all[before.len() as int] == message);
    } else {
        computed_value_is_there(stream, computed, first, e, n - 1, i);
        let j = choose|j: int| 0 <= j < before.len() && before[j] == message;
        assert(all[j] == message);
    }
}

/// An event tells each counter of its processor on the track of that counter and that processor,
/// and instructions per cycle as the instructions divided by the cycles, or zero without cycles.
pub proof fn values_are_told<C: MessageSink>(
    p: &PerfCounter,
    e: &PerfCounterEvent,
    c: &mut C,
    i: int,
)
    requires
        call_ensures(PerfCounter::on_event::<C>, (p, e, c), ()),
    ensures
        old(c).log().is_prefix_of(final(c).log()),
        ({
            let told = final(c).log().skip(old(c).log().len() as int);
            let n = p.counters().len();
            &&& 0 <= i < n ==> is_told(told, p.stream(), *e, i, Quantity::Count(e.counters@[i]))
            &&& 0 <= i < p.computed().len() ==> (p.computed()[i].1 matches Some(
                DerivedCounter::Ipc { cycles_idx, instructions_idx },
            ) ==> {
                let cycles = e.counters@[cycles_idx as int];
                let instructions = e.counters@[instructions_idx as int];
                is_told(
                    told,
                    p.stream(),
                    *e,
                    n + i,
                    if cycles == 0 {
                        Quantity::Count(0)
                    } else {
                        Quantity::Ratio { dividend: instructions, divisor: cycles }
                    },
                )
            })
        }),
{
    let n = p.counters().len();
    let m = p.computed().len() as int;
    let all = perfcounter::event_messages(p.stream(), n, p.computed(), *e);
    assert(final(c).log().skip(old(c).log().len() as int) =~= all);
    if 0 <= i < n {
        assert(tells_value(all[i], p.stream(), *e, i, Quantity::Count(e.counters@[i])));
    }
    if 0 <= i < m && p.computed()[i].1 is Some {
        let d = p.computed()[i].1->Some_0;
        let computed = perfcounter::derived_values(p.stream(), p.computed(), n, *e, m);
        computed_value_is_there(p.stream(), p.computed(), n, *e, m, i);
        let message = perfcounter::value_message(
            p.stream(),
            perfcounter::derived_value(e.counters@, d),
            e.timestamp,
            e.cpu_id,
            n + i,
        );
        let k = choose|k: int| 0 <= k < computed.len() && computed[k] == message;
        assert(all[n + k] == message);
        assert(tells_value(
            all[n + k],
            p.stream(),
            *e,
            n + i,
            perfcounter::derived_value(e.counters@, d),
        ));
    }
}

/// The map of the BPF program has an entry for each counter on each processor.
pub proof fn map_has_all_entries(p: &PerfCounter, n: u32)
    requires
        call_ensures(PerfCounter::map_entries, (p,), n),
        p.cpus() * p.counters().len() <= u32::MAX,
    ensures
        n == p.counters().len() * p.cpus(),
{
    assert(p.cpus() * p.counters().len() == p.counters().len() * p.cpus()) by (nonlinear_arith);
}

} // verus!
