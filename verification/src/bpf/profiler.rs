//! Sampled call stacks.

use crate::protocol::events::{
    Callstack, CpuMode, Frame, InternedData, InternedString, Mapping, Sample, TraceInput,
};
use std::collections::hash_map::DefaultHasher;
use std::collections::HashMap;
use std::hash::Hasher;
use vstd::bytes::*;
use vstd::prelude::*;
use vstd::std_specs::hash::*;
use vstd::string::*;

verus! {

broadcast use group_hash_axioms;

/// What the BPF program reports: where a processor was.
#[derive(Debug, Clone, Copy, PartialEq, Eq, Structural)]
pub struct PerfEvent {
    pub timestamp: u64,
    pub tgid: u32,
    pub pid: u32,
    pub cpu_id: u32,
    pub ustack_id: i32,
    pub kstack_id: i32,
}

/// The bytes of a list of addresses.
pub open spec fn address_bytes(addrs: Seq<u64>) -> Seq<u8>
    decreases addrs.len(),
{
    if addrs.len() == 0 {
        seq![]
    } else {
        address_bytes(addrs.drop_last()) + spec_u64_to_le_bytes(addrs.last())
    }
}

/// The hash of a process and its two stacks.
pub open spec fn stack_hash(pid: i32, ustack: Seq<u64>, kstack: Seq<u64>) -> u64 {
    DefaultHasher::spec_finish(
        seq![
            spec_u32_to_le_bytes(pid as u32),
            spec_u64_to_le_bytes(ustack.len() as u64),
            address_bytes(ustack),
            spec_u64_to_le_bytes(kstack.len() as u64),
            address_bytes(kstack),
        ],
    )
}

/// The call stacks that were seen, each with a number.
pub struct Callstacks {
    mapping: HashMap<u128, u64>,
    sequence: u64,
}

/// One number for a process and a hash, different for different pairs.
spec fn key_spec(pid: i32, hash: u64) -> int {
    (pid + 0x8000_0000) * 0x1_0000_0000_0000_0000 + hash
}

fn key(pid: i32, hash: u64) -> (k: u128)
    ensures
        k == key_spec(pid, hash),
{
    ((pid as i64 + 0x8000_0000) as u64) as u128 * 0x1_0000_0000_0000_0000 + hash as u128
}

/// The bytes of a list of addresses.
fn bytes_of(addrs: &[u64]) -> (out: Vec<u8>)
    ensures
        out@ == address_bytes(addrs@),
{
    let mut out: Vec<u8> = Vec::new();
    let mut i: usize = 0;
    assert(addrs@.take(0) =~= seq![]);
    while i < addrs.len()
        invariant
            i <= addrs@.len(),
            out@ == address_bytes(addrs@.take(i as int)),
        decreases addrs@.len() - i,
    {
        let mut next: Vec<u8> = u64_to_le_bytes(addrs[i]);
        out.append(&mut next);
        i += 1;
        assert(addrs@.take(i as int).drop_last() =~= addrs@.take(i - 1));
        assert(out@ =~= address_bytes(addrs@.take(i as int)));
    }
    assert(addrs@.take(i as int) =~= addrs@);
    out
}

impl Callstacks {
    /// The numbers of the call stacks that were seen, by process and hash.
    pub closed spec fn known(self) -> Map<(i32, u64), u64> {
        Map::new(
            |k: (i32, u64)| self.mapping@.contains_key(key_spec(k.0, k.1) as u128),
            |k: (i32, u64)| self.mapping@[key_spec(k.0, k.1) as u128],
        )
    }

    /// The next number.
    pub closed spec fn next(self) -> u64 {
        self.sequence
    }

    /// No call stack seen.
    pub fn new() -> (c: Callstacks)
        ensures
            c.known() == Map::<(i32, u64), u64>::empty(),
            c.next() == 0,
    {
        let c = Callstacks { mapping: HashMap::new(), sequence: 0 };
        assert(c.known() =~= Map::<(i32, u64), u64>::empty());
        c
    }

    /// The hash of a process and its two stacks.
    pub fn compute_hash(pid: i32, ustack: &[u64], kstack: &[u64]) -> (h: u64)
        ensures
            h == stack_hash(pid, ustack@, kstack@),
    {
        let mut hasher = DefaultHasher::new();
        let pid_bytes: Vec<u8> = u32_to_le_bytes(pid as u32);
        hasher.write(pid_bytes.as_slice());
        let ulen: Vec<u8> = u64_to_le_bytes(ustack.len() as u64);
        hasher.write(ulen.as_slice());
        let ubytes: Vec<u8> = bytes_of(ustack);
        hasher.write(ubytes.as_slice());
        let klen: Vec<u8> = u64_to_le_bytes(kstack.len() as u64);
        hasher.write(klen.as_slice());
        let kbytes: Vec<u8> = bytes_of(kstack);
        hasher.write(kbytes.as_slice());
        assert(hasher@ =~= seq![
            spec_u32_to_le_bytes(pid as u32),
            spec_u64_to_le_bytes(ustack@.len() as u64),
            address_bytes(ustack@),
            spec_u64_to_le_bytes(kstack@.len() as u64),
            address_bytes(kstack@),
        ]);
        hasher.finish()
    }

    /// The number of a call stack, where it was seen.
    pub fn get(&self, pid: i32, ustack: &[u64], kstack: &[u64]) -> (id: Option<u64>)
        ensures
            id == self.known().get((pid, stack_hash(pid, ustack@, kstack@))),
    {
        let hash: u64 = Self::compute_hash(pid, ustack, kstack);
        let k: u128 = key(pid, hash);
        match self.mapping.get(&k) {
            Some(id) => Some(*id),
            None => None,
        }
    }

    /// Gives a call stack the next number.
    pub fn insert(&mut self, pid: i32, ustack: &[u64], kstack: &[u64]) -> (id: u64)
        requires
            old(self).next() < u64::MAX,
        ensures
            id == old(self).next(),
            final(self).next() == old(self).next() + 1,
            final(self).known() == old(self).known().insert(
                (pid, stack_hash(pid, ustack@, kstack@)),
                id,
            ),
    {
        let hash: u64 = Self::compute_hash(pid, ustack, kstack);
        let k: u128 = key(pid, hash);
        let id: u64 = self.sequence;
        self.mapping.insert(k, id);
        self.sequence = self.sequence + 1;
        assert(self.known() =~= old(self).known().insert((pid, hash), id));
        id
    }
}

/// How many of the frames of a stack count: all up to the last one that is not zero, and at
/// least one.
pub open spec fn used_frames(frames: Seq<u64>) -> nat
    decreases frames.len(),
{
    if frames.len() <= 1 || frames.last() != 0 {
        frames.len()
    } else {
        used_frames(frames.drop_last())
    }
}

/// Cuts the unused end off a stack that was read from the kernel.
fn trim_stack(frames: Vec<u64>) -> (out: Vec<u64>)
    ensures
        out@ == frames@.take(used_frames(frames@) as int),
{
    let mut frames = frames;
    let ghost all = frames@;
    let mut n: usize = frames.len();
    assert(all.take(n as int) =~= all);
    while n > 1 && frames[n - 1] == 0
        invariant
            n <= frames@.len(),
            frames@ == all,
            used_frames(all) == used_frames(all.take(n as int)),
        decreases n,
    {
        assert(all.take(n as int).drop_last() =~= all.take(n - 1));
        n -= 1;
    }
    frames.truncate(n);
    frames
}

/// The frames of the stack `stack_id`, of which `found` was read from the kernel: none where
/// there is no stack or it could not be read.
pub open spec fn stack_frames_spec(stack_id: i32, found: Option<Seq<u64>>) -> Seq<u64> {
    match found {
        Some(frames) => if stack_id >= 0 {
            frames.take(used_frames(frames) as int)
        } else {
            seq![]
        },
        None => seq![],
    }
}

/// The frames of the stack `stack_id`, of which `found` was read from the kernel.
pub fn stack_frames(stack_id: i32, found: Option<Vec<u64>>) -> (out: Vec<u64>)
    ensures
        out@ == stack_frames_spec(
            stack_id,
            match found {
                Some(frames) => Some(frames@),
                None => None,
            },
        ),
{
    match found {
        Some(frames) => if stack_id >= 0 {
            trim_stack(frames)
        } else {
            Vec::new()
        },
        None => Vec::new(),
    }
}

/// The sample that an event makes.
pub open spec fn sample_of(event: PerfEvent, callstack_iid: u64) -> Sample {
    Sample {
        cpu: event.cpu_id,
        pid: event.tgid as i32,
        tid: event.pid as i32,
        timestamp: event.timestamp,
        callstack_iid,
        cpu_mode: CpuMode::Unknown,
    }
}

/// The sample that an event makes.
pub fn create_sample(event: &PerfEvent, callstack_iid: u64) -> (s: Sample)
    ensures
        s == sample_of(*event, callstack_iid),
{
    Sample {
        cpu: event.cpu_id,
        pid: event.tgid as i32,
        tid: event.pid as i32,
        timestamp: event.timestamp,
        callstack_iid,
        cpu_mode: CpuMode::Unknown,
    }
}

/// The names and addresses of the first `n` frames of a stack, those with a name, from the
/// outermost on.
pub open spec fn resolved(syms: Seq<Option<Seq<char>>>, addrs: Seq<u64>, n: int) -> Seq<
    (Seq<char>, u64),
>
    decreases n,
{
    if n <= 0 {
        seq![]
    } else {
        (match syms[n - 1] {
            Some(name) => seq![(name, addrs[n - 1])],
            None => seq![],
        }) + resolved(syms, addrs, n - 1)
    }
}

/// How many frames have both an address and an answer to who they are.
pub open spec fn paired(syms: Seq<Option<Seq<char>>>, addrs: Seq<u64>) -> int {
    if syms.len() <= addrs.len() {
        syms.len() as int
    } else {
        addrs.len() as int
    }
}

/// The names and addresses of a whole stack.
pub open spec fn stack_names(syms: Seq<Option<Seq<char>>>, addrs: Seq<u64>) -> Seq<
    (Seq<char>, u64),
> {
    resolved(syms, addrs, paired(syms, addrs))
}

/// Interned data in the making.
pub struct InternState {
    string_id_counter: u64,
    frame_id_counter: u64,
    function_names: Vec<InternedString>,
    frames: Vec<Frame>,
    frame_ids: Vec<u64>,
}

impl InternState {
    /// The names and addresses that were taken in.
    pub closed spec fn entries(self) -> Seq<(Seq<char>, u64)> {
        Seq::new(
            self.frames@.len(),
            |i: int| (self.function_names@[i].str@, self.frames@[i].rel_pc),
        )
    }

    pub closed spec fn wf(self) -> bool {
        &&& self.string_id_counter == self.frames@.len()
        &&& self.frame_id_counter == self.frames@.len()
        &&& self.function_names@.len() == self.frames@.len()
        &&& self.frame_ids@.len() == self.frames@.len()
        &&& forall|i: int|
            #![trigger self.frames@[i]]
            #![trigger self.function_names@[i]]
            #![trigger self.frame_ids@[i]]
            0 <= i < self.frames@.len() ==> {
                &&& self.function_names@[i].iid == i
                &&& self.frames@[i].iid == i
                &&& self.frames@[i].function_name_id == i
                &&& self.frames@[i].mapping_id == 1
                &&& self.frame_ids@[i] == i
            }
    }

    /// Nothing taken in.
    pub fn new() -> (s: InternState)
        ensures
            s.wf(),
            s.entries() == Seq::<(Seq<char>, u64)>::empty(),
    {
        let s = InternState {
            string_id_counter: 0,
            frame_id_counter: 0,
            function_names: Vec::new(),
            frames: Vec::new(),
            frame_ids: Vec::new(),
        };
        assert(s.entries() =~= Seq::<(Seq<char>, u64)>::empty());
        s
    }

    /// Takes in a function and an address in it.
    pub fn add_symbol(&mut self, name: &str, addr: u64)
        requires
            old(self).wf(),
            old(self).entries().len() < u64::MAX,
        ensures
            final(self).wf(),
            final(self).entries() == old(self).entries().push((name@, addr)),
    {
        self.function_names.push(
            InternedString { iid: self.string_id_counter, str: name.to_owned() },
        );
        self.frames.push(
            Frame {
                iid: self.frame_id_counter,
                function_name_id: self.string_id_counter,
                mapping_id: 1,
                rel_pc: addr,
            },
        );
        self.frame_ids.push(self.frame_id_counter);
        self.string_id_counter = self.string_id_counter + 1;
        self.frame_id_counter = self.frame_id_counter + 1;
        assert(self.entries() =~= old(self).entries().push((name@, addr)));
    }

    /// Takes in the frames of a stack, from the outermost on; those without a name are left out.
    pub fn process_symbols(&mut self, syms: &Vec<Option<String>>, addrs: &[u64])
        requires
            old(self).wf(),
            old(self).entries().len() + syms@.len() <= u64::MAX,
        ensures
            final(self).wf(),
            final(self).entries() == old(self).entries() + stack_names(
                syms.deep_view(),
                addrs@,
            ),
    {
        let ghost names = syms.deep_view();
        let n: usize = if syms.len() <= addrs.len() {
            syms.len()
        } else {
            addrs.len()
        };
        let mut i: usize = n;
        assert(n == paired(names, addrs@));
        assert(self.entries() + resolved(names, addrs@, n as int) =~= old(self).entries()
            + stack_names(names, addrs@));
        while i > 0
            invariant
                self.wf(),
                i <= n <= syms@.len(),
                n <= addrs@.len(),
                names == syms.deep_view(),
                n == paired(names, addrs@),
                self.entries().len() + i <= old(self).entries().len() + n,
                old(self).entries().len() + syms@.len() <= u64::MAX,
                self.entries() + resolved(names, addrs@, i as int) == old(self).entries()
                    + stack_names(names, addrs@),
            decreases i,
        {
            let ghost before = self.entries();
            i -= 1;
            if let Some(name) = &syms[i] {
                self.add_symbol(name.as_str(), addrs[i]);
            }
            assert(self.entries() + resolved(names, addrs@, i as int) =~= before + resolved(
                names,
                addrs@,
                i + 1,
            ));
        }
        assert(self.entries() + resolved(names, addrs@, 0) =~= self.entries());
    }

    /// Whether nothing was taken in.
    pub fn is_empty(&self) -> (b: bool)
        requires
            self.wf(),
        ensures
            b == (self.entries().len() == 0),
    {
        self.frames.is_empty()
    }

    /// The interned data of a call stack that consists of all that was taken in.
    pub fn build_interned_data(self, callstack_iid: u64) -> (data: InternedData)
        requires
            self.wf(),
        ensures
            is_callstack_data(data, callstack_iid, self.entries()),
    {
        let mut mappings: Vec<Mapping> = Vec::new();
        mappings.push(
            Mapping {
                iid: 1,
                build_id: 1,
                exact_offset: 0,
                start_offset: 0,
                start: 0,
                end: 0x7fff_ffff_ffff_ffff,
                load_bias: 0,
                path_string_ids: Vec::new(),
            },
        );
        let mut build_ids: Vec<InternedString> = Vec::new();
        build_ids.push(InternedString { iid: 1, str: "unknown".to_owned() });
        let mut callstacks: Vec<Callstack> = Vec::new();
        assert(self.frame_ids@ =~= Seq::new(self.entries().len(), |i: int| i as u64));
        callstacks.push(Callstack { iid: callstack_iid, frame_ids: self.frame_ids });
        InternedData {
            function_names: self.function_names,
            frames: self.frames,
            callstacks,
            mappings,
            build_ids,
        }
    }
}

/// `data` is the interned data of one call stack with the given names and addresses: function
/// and frame `i` are numbered `i`, and the call stack has all frames in order.
pub open spec fn is_callstack_data(
    data: InternedData,
    iid: u64,
    entries: Seq<(Seq<char>, u64)>,
) -> bool {
    &&& data.function_names@.len() == entries.len()
    &&& data.frames@.len() == entries.len()
    &&& forall|i: int|
        #![trigger entries[i]]
        0 <= i < entries.len() ==> {
            &&& data.function_names@[i].iid == i
            &&& data.function_names@[i].str@ == entries[i].0
            &&& data.frames@[i] == (Frame {
                iid: i as u64,
                function_name_id: i as u64,
                mapping_id: 1,
                rel_pc: entries[i].1,
            })
        }
    &&& data.callstacks@.len() == 1
    &&& data.callstacks@[0].iid == iid
    &&& data.callstacks@[0].frame_ids@ == Seq::new(entries.len(), |i: int| i as u64)
    &&& data.mappings@.len() == 1
    &&& data.mappings@[0].iid == 1
    &&& data.mappings@[0].build_id == 1
    &&& data.mappings@[0].exact_offset == 0
    &&& data.mappings@[0].start_offset == 0
    &&& data.mappings@[0].start == 0
    &&& data.mappings@[0].end == 0x7fff_ffff_ffff_ffff
    &&& data.mappings@[0].load_bias == 0
    &&& data.mappings@[0].path_string_ids@.len() == 0
    &&& data.build_ids@.len() == 1
    &&& data.build_ids@[0].iid == 1
    &&& data.build_ids@[0].str@ == "unknown"@
}

/// What to do with an event.
pub enum ProfilerStep {
    /// Nothing: it has no stack.
    Skip,
    /// Report the sample.
    Report(Sample),
    /// Find out the functions of both stacks first.
    Symbolize,
}

/// What to do with an event that has the stacks `ustack` and `kstack`.
pub open spec fn event_step(
    known: Map<(i32, u64), u64>,
    event: PerfEvent,
    ustack: Seq<u64>,
    kstack: Seq<u64>,
) -> ProfilerStep {
    let pid = event.tgid as i32;
    if ustack.len() == 0 && kstack.len() == 0 {
        ProfilerStep::Skip
    } else {
        match known.get((pid, stack_hash(pid, ustack, kstack))) {
            Some(id) => ProfilerStep::Report(sample_of(event, id)),
            None => ProfilerStep::Symbolize,
        }
    }
}

/// Reports sampled call stacks, each call stack once.
pub struct Profiler {
    callstacks: Callstacks,
}

impl Profiler {
    /// The numbers of the call stacks that were seen, by process and hash.
    pub closed spec fn known(self) -> Map<(i32, u64), u64> {
        self.callstacks.known()
    }

    /// The next number.
    pub closed spec fn next(self) -> u64 {
        self.callstacks.next()
    }

    /// No call stack seen.
    pub fn new() -> (p: Profiler)
        ensures
            p.known() == Map::<(i32, u64), u64>::empty(),
            p.next() == 0,
    {
        Profiler { callstacks: Callstacks::new() }
    }

    /// Decides what to do with an event that has the stacks `ustack` and `kstack`.
    pub fn on_event(&self, event: &PerfEvent, ustack: &[u64], kstack: &[u64]) -> (s: ProfilerStep)
        ensures
            s == event_step(self.known(), *event, ustack@, kstack@),
    {
        if ustack.len() == 0 && kstack.len() == 0 {
            return ProfilerStep::Skip;
        }
        match self.callstacks.get(event.tgid as i32, ustack, kstack) {
            Some(id) => ProfilerStep::Report(create_sample(event, id)),
            None => ProfilerStep::Symbolize,
        }
    }

    /// Takes in the functions of both stacks, those that could be found out: the call stack gets
    /// the next number, and its interned data is reported before the sample. Without a single
    /// function nothing is reported, and the call stack stays unknown.
    pub fn on_symbols(
        &mut self,
        event: &PerfEvent,
        ustack: &[u64],
        kstack: &[u64],
        usyms: &Vec<Option<String>>,
        ksyms: &Vec<Option<String>>,
    ) -> (r: Option<(InternedData, Sample)>)
        requires
            old(self).next() < u64::MAX,
            usyms@.len() + ksyms@.len() <= u64::MAX,
        ensures
            ({
                let pid = event.tgid as i32;
                let names = stack_names(usyms.deep_view(), ustack@) + stack_names(
                    ksyms.deep_view(),
                    kstack@,
                );
                let id = old(self).next();
                &&& r is Some <==> names.len() > 0
                &&& r matches Some((data, sample)) ==> {
                    &&& is_callstack_data(data, id, names)
                    &&& sample == sample_of(*event, id)
                    &&& final(self).next() == id + 1
                    &&& final(self).known() == old(self).known().insert(
                        (pid, stack_hash(pid, ustack@, kstack@)),
                        id,
                    )
                }
                &&& r is None ==> final(self).known() == old(self).known() && final(self).next()
                    == id
            }),
    {
        let mut state = InternState::new();
        proof {
            resolved_len(usyms.deep_view(), ustack@, paired(usyms.deep_view(), ustack@));
        }
        state.process_symbols(usyms, ustack);
        state.process_symbols(ksyms, kstack);
        let ghost names = stack_names(usyms.deep_view(), ustack@) + stack_names(
            ksyms.deep_view(),
            kstack@,
        );
        assert(state.entries() =~= names);
        if state.is_empty() {
            return None;
        }
        let id: u64 = self.callstacks.insert(event.tgid as i32, ustack, kstack);
        let data = state.build_interned_data(id);
        Some((data, create_sample(event, id)))
    }
}

proof fn resolved_len(syms: Seq<Option<Seq<char>>>, addrs: Seq<u64>, n: int)
    requires
        0 <= n <= syms.len(),
    ensures
        resolved(syms, addrs, n).len() <= n,
    decreases n,
{
    if n > 0 {
        resolved_len(syms, addrs, n - 1);
    }
}

/// A call stack is interned once: after it got a number, another event of the same process with
/// the same stacks only reports a sample, with that number.
pub proof fn callstack_is_interned_once(
    known: Map<(i32, u64), u64>,
    first: PerfEvent,
    later: PerfEvent,
    ustack: Seq<u64>,
    kstack: Seq<u64>,
    id: u64,
)
    requires
        event_step(known, first, ustack, kstack) is Symbolize,
        first.tgid == later.tgid,
    ensures
        ({
            let pid = first.tgid as i32;
            let after = known.insert((pid, stack_hash(pid, ustack, kstack)), id);
            event_step(after, later, ustack, kstack) == ProfilerStep::Report(sample_of(later, id))
        }),
{
}

/// Every number that was given out is below `next`, and no two call stacks have the same.
pub open spec fn numbered(known: Map<(i32, u64), u64>, next: u64) -> bool {
    &&& forall|k: (i32, u64)| known.contains_key(k) ==> #[trigger] known[k] < next
    &&& forall|a: (i32, u64), b: (i32, u64)|
        known.contains_key(a) && known.contains_key(b) && a != b ==> #[trigger] known[a]
            != #[trigger] known[b]
}

/// Different call stacks have different numbers: so it is at the start, and giving a new one the
/// next number keeps it so.
pub proof fn callstack_numbers_are_distinct(known: Map<(i32, u64), u64>, next: u64, k: (i32, u64))
    requires
        numbered(known, next),
        next < u64::MAX,
    ensures
        numbered(Map::empty(), 0),
        numbered(known.insert(k, next), (next + 1) as u64),
{
}

} // verus!
