//! What the reports on sampled call stacks tell.

use crate::bpf::profiler;
use crate::bpf::profiler::{
    create_sample, stack_frames, Callstacks, PerfEvent, Profiler, ProfilerStep,
};
use crate::protocol::events::{InternedData, Sample};
use std::collections::hash_map::DefaultHasher;
use vstd::bytes::*;
use vstd::prelude::*;
use vstd::std_specs::hash::*;

verus! {

/// All pieces, one after the other.
pub open spec fn joined(pieces: Seq<Seq<u8>>) -> Seq<u8>
    decreases pieces.len(),
{
    if pieces.len() == 0 {
        seq![]
    } else {
        joined(pieces.drop_last()) + pieces.last()
    }
}

/// What is hashed of a process and its two stacks, piece by piece: the number of the process, and
/// of each stack how many addresses there are and the addresses themselves.
pub open spec fn hash_input(pid: i32, ustack: Seq<u64>, kstack: Seq<u64>) -> Seq<Seq<u8>> {
    seq![
        spec_u32_to_le_bytes(pid as u32),
        spec_u64_to_le_bytes(ustack.len() as u64),
        profiler::address_bytes(ustack),
        spec_u64_to_le_bytes(kstack.len() as u64),
        profiler::address_bytes(kstack),
    ]
}

proof fn addresses_have_eight_bytes(addrs: Seq<u64>)
    ensures
        profiler::address_bytes(addrs).len() == 8 * addrs.len(),
    decreases addrs.len(),
{
    lemma_auto_spec_u64_to_from_le_bytes();
    if addrs.len() > 0 {
        addresses_have_eight_bytes(addrs.drop_last());
    }
}

proof fn addresses_are_told_apart(a: Seq<u64>, b: Seq<u64>)
    requires
        profiler::address_bytes(a) == profiler::address_bytes(b),
    ensures
        a == b,
    decreases a.len(),
{
    lemma_auto_spec_u64_to_from_le_bytes();
    addresses_have_eight_bytes(a);
    addresses_have_eight_bytes(b);
    if a.len() > 0 {
        let x = profiler::address_bytes(a);
        addresses_have_eight_bytes(a.drop_last());
        addresses_have_eight_bytes(b.drop_last());
        let n = 8 * (a.len() - 1);
        assert(x.take(n) =~= profiler::address_bytes(a.drop_last()));
        assert(x.take(n) =~= profiler::address_bytes(b.drop_last()));
        assert(x.skip(n) =~= spec_u64_to_le_bytes(a.last()));
        assert(x.skip(n) =~= spec_u64_to_le_bytes(b.last()));
        assert(spec_u64_from_le_bytes(spec_u64_to_le_bytes(a.last())) == a.last());
        assert(spec_u64_from_le_bytes(spec_u64_to_le_bytes(b.last())) == b.last());
        addresses_are_told_apart(a.drop_last(), b.drop_last());
        assert(a =~= a.drop_last().push(a.last()));
        assert(b =~= b.drop_last().push(b.last()));
    } else {
        assert(a =~= b);
    }
}

proof fn input_is_joined(pid: i32, ustack: Seq<u64>, kstack: Seq<u64>)
    ensures
        joined(hash_input(pid, ustack, kstack)) == spec_u32_to_le_bytes(pid as u32)
            + spec_u64_to_le_bytes(ustack.len() as u64) + profiler::address_bytes(ustack)
            + spec_u64_to_le_bytes(kstack.len() as u64) + profiler::address_bytes(kstack),
{
    let all = hash_input(pid, ustack, kstack);
    assert(all.drop_last() =~= all.take(4));
    assert(all.take(4).drop_last() =~= all.take(3));
    assert(all.take(3).drop_last() =~= all.take(2));
    assert(all.take(2).drop_last() =~= all.take(1));
    assert(all.take(1).drop_last() =~= all.take(0));
    assert(joined(all.take(0)) =~= seq![]);
    assert(joined(all.take(1)) =~= all[0]);
    assert(joined(all.take(2)) == joined(all.take(1)) + all[1]);
    assert(joined(all.take(3)) == joined(all.take(2)) + all[2]);
    assert(joined(all.take(4)) == joined(all.take(3)) + all[3]);
    assert(joined(all) == joined(all.take(4)) + all[4]);
}

proof fn number_is_kept(n: i32)
    ensures
        n as u32 as i32 == n,
{
    assert(n as u32 as i32 == n) by (bit_vector);
}

/// The hash of a call stack is that of bytes which tell the process and each address of both
/// stacks: from the same bytes follow the same process and the same stacks.
pub proof fn call_stacks_are_told_apart(
    pid: i32,
    ustack: &[u64],
    kstack: &[u64],
    hash: u64,
    other_pid: i32,
    other_ustack: &[u64],
    other_kstack: &[u64],
    other_hash: u64,
)
    requires
        call_ensures(Callstacks::compute_hash, (pid, ustack, kstack), hash),
        call_ensures(
            Callstacks::compute_hash,
            (other_pid, other_ustack, other_kstack),
            other_hash,
        ),
        ustack@.len() <= u64::MAX && kstack@.len() <= u64::MAX,
        other_ustack@.len() <= u64::MAX && other_kstack@.len() <= u64::MAX,
    ensures
        hash == DefaultHasher::spec_finish(hash_input(pid, ustack@, kstack@)),
        joined(hash_input(pid, ustack@, kstack@)) == joined(
            hash_input(other_pid, other_ustack@, other_kstack@),
        ) ==> pid == other_pid && ustack@ == other_ustack@ && kstack@ == other_kstack@,
        hash_input(pid, ustack@, kstack@) == hash_input(
            other_pid,
            other_ustack@,
            other_kstack@,
        ) ==> pid == other_pid && ustack@ == other_ustack@ && kstack@ == other_kstack@,
        pid == other_pid && ustack@ == other_ustack@ && kstack@ == other_kstack@ ==> hash
            == other_hash,
{
    if joined(hash_input(pid, ustack@, kstack@)) == joined(
        hash_input(other_pid, other_ustack@, other_kstack@),
    ) {
        inputs_are_told_apart(pid, ustack@, kstack@, other_pid, other_ustack@, other_kstack@);
    }
}

/// What is hashed of a call stack tells its process and each address of both stacks.
pub proof fn inputs_are_told_apart(
    pid: i32,
    ustack: Seq<u64>,
    kstack: Seq<u64>,
    other_pid: i32,
    other_ustack: Seq<u64>,
    other_kstack: Seq<u64>,
)
    requires
        ustack.len() <= u64::MAX && kstack.len() <= u64::MAX,
        other_ustack.len() <= u64::MAX && other_kstack.len() <= u64::MAX,
        joined(hash_input(pid, ustack, kstack)) == joined(
            hash_input(other_pid, other_ustack, other_kstack),
        ),
    ensures
        pid == other_pid,
        ustack == other_ustack,
        kstack == other_kstack,
{
    lemma_auto_spec_u64_to_from_le_bytes();
    lemma_auto_spec_u32_to_from_le_bytes();
    input_is_joined(pid, ustack, kstack);
    input_is_joined(other_pid, other_ustack, other_kstack);
    addresses_have_eight_bytes(ustack);
    addresses_have_eight_bytes(kstack);
    addresses_have_eight_bytes(other_ustack);
    addresses_have_eight_bytes(other_kstack);
    number_is_kept(pid);
    number_is_kept(other_pid);
    let x = joined(hash_input(pid, ustack, kstack));
    let p = spec_u32_to_le_bytes(pid as u32);
    let q = spec_u32_to_le_bytes(other_pid as u32);
    assert(p.len() == 4 && q.len() == 4);
    assert(x.subrange(0, 4) =~= p);
    assert(x.subrange(0, 4) =~= q);
    assert(spec_u32_from_le_bytes(p) == pid as u32);
    assert(spec_u32_from_le_bytes(q) == other_pid as u32);
    let m = spec_u64_to_le_bytes(ustack.len() as u64);
    let n = spec_u64_to_le_bytes(other_ustack.len() as u64);
    assert(m.len() == 8 && n.len() == 8);
    assert(x.subrange(4, 12) =~= m);
    assert(x.subrange(4, 12) =~= n);
    assert(spec_u64_from_le_bytes(m) == ustack.len());
    assert(spec_u64_from_le_bytes(n) == other_ustack.len());
    let end: int = 12 + 8 * (ustack.len() as int);
    assert(x.subrange(12, end) =~= profiler::address_bytes(ustack));
    assert(x.subrange(12, end) =~= profiler::address_bytes(other_ustack));
    addresses_are_told_apart(ustack, other_ustack);
    let k = spec_u64_to_le_bytes(kstack.len() as u64);
    let l = spec_u64_to_le_bytes(other_kstack.len() as u64);
    assert(k.len() == 8 && l.len() == 8);
    assert(x.subrange(end, end + 8) =~= k);
    assert(x.subrange(end, end + 8) =~= l);
    assert(spec_u64_from_le_bytes(k) == kstack.len());
    assert(spec_u64_from_le_bytes(l) == other_kstack.len());
    assert(x.skip(end + 8) =~= profiler::address_bytes(kstack));
    assert(x.skip(end + 8) =~= profiler::address_bytes(other_kstack));
    addresses_are_told_apart(kstack, other_kstack);
}

/// The sample tells where and when the event was: `pid` of the event is the thread, `tgid` the
/// process.
pub open spec fn tells_event(s: Sample, e: PerfEvent) -> bool {
    &&& s.pid == e.tgid as i32
    &&& s.tid == e.pid as i32
    &&& s.cpu == e.cpu_id
    &&& s.timestamp == e.timestamp
    &&& s.cpu_mode is Unknown
}

/// A sample is of its event and of the given call stack.
pub proof fn sample_tells_event(e: &PerfEvent, iid: u64, s: Sample)
    requires
        call_ensures(create_sample, (e, iid), s),
    ensures
        tells_event(s, *e),
        s.callstack_iid == iid,
{
}

/// An event is passed over exactly where both stacks are empty, and its functions are looked up
/// exactly where its call stack is not known; else a sample with the number of the call stack is
/// reported.
pub proof fn event_is_sampled(
    p: &Profiler,
    e: &PerfEvent,
    ustack: &[u64],
    kstack: &[u64],
    step: ProfilerStep,
)
    requires
        call_ensures(Profiler::on_event, (p, e, ustack, kstack), step),
    ensures
        step is Skip <==> ustack@.len() == 0 && kstack@.len() == 0,
        ({
            let of = (
                e.tgid as i32,
                DefaultHasher::spec_finish(
                    hash_input(e.tgid as i32, ustack@, kstack@),
                ),
            );
            &&& step is Symbolize ==> !p.known().contains_key(of)
            &&& step matches ProfilerStep::Report(s) ==> {
                &&& tells_event(s, *e)
                &&& p.known().contains_key(of)
                &&& s.callstack_iid == p.known()[of]
            }
        }),
{
}

/// How many of the frames from `from` on, up to `to`, have a name.
pub open spec fn with_name(syms: Seq<Option<Seq<char>>>, from: int, to: int) -> nat
    decreases to - from,
{
    if from >= to {
        0
    } else if syms[to - 1] is Some {
        with_name(syms, from, to - 1) + 1
    } else {
        with_name(syms, from, to - 1)
    }
}

proof fn names_come_from_the_end(
    syms: Seq<Option<Seq<char>>>,
    addrs: Seq<u64>,
    n: int,
    i: int,
)
    requires
        0 <= i < n,
    ensures
        profiler::resolved(syms, addrs, n).len() == with_name(syms, 0, n),
        syms[i] matches Some(name) ==> {
            &&& with_name(syms, i + 1, n) < with_name(syms, 0, n)
            &&& profiler::resolved(syms, addrs, n)[with_name(syms, i + 1, n) as int] == (
                name,
                addrs[i],
            )
        },
    decreases n,
{
    let before = profiler::resolved(syms, addrs, n - 1);
    let all = profiler::resolved(syms, addrs, n);
    if n > 1 {
        names_come_from_the_end(syms, addrs, n - 1, if i < n - 1 {
            i
        } else {
            0
        });
    }
    assert(before.len() == with_name(syms, 0, n - 1));
    match syms[n - 1] {
        Some(name) => {
            assert(all == seq![(name, addrs[n - 1])] + before);
        },
        None => {
            assert(all =~= before);
        },
    }
    if i == n - 1 {
        assert(with_name(syms, n, n) == 0);
    }
}

/// Of the call stack `iid`, the frame at `place` is in the function `name` at the address `addr`.
pub open spec fn tells_frame(
    data: InternedData,
    iid: u64,
    place: int,
    name: Seq<char>,
    addr: u64,
) -> bool {
    &&& data.callstacks@.len() == 1
    &&& data.callstacks@[0].iid == iid
    &&& 0 <= place < data.callstacks@[0].frame_ids@.len()
    &&& place < data.frames@.len()
    &&& place < data.function_names@.len()
    &&& data.frames@[place].iid == data.callstacks@[0].frame_ids@[place]
    &&& data.frames@[place].rel_pc == addr
    &&& data.frames@[place].function_name_id == data.function_names@[place].iid
    &&& data.function_names@[place].str@ == name
}

/// A new call stack is told frame by frame: those of the user stack from the outermost on, then
/// those of the kernel stack from the outermost on, each with its own name and address; frames
/// without a name are left out. Its sample comes with the same number, and this number is not
/// given again.
pub proof fn call_stack_is_told(
    p: &mut Profiler,
    e: &PerfEvent,
    ustack: &[u64],
    kstack: &[u64],
    usyms: &Vec<Option<String>>,
    ksyms: &Vec<Option<String>>,
    r: Option<(InternedData, Sample)>,
    i: int,
)
    requires
        call_ensures(Profiler::on_symbols, (p, e, ustack, kstack, usyms, ksyms), r),
        usyms@.len() == ustack@.len(),
        ksyms@.len() == kstack@.len(),
        usyms@.len() + ksyms@.len() <= u64::MAX,
        old(p).next() < u64::MAX,
    ensures
        ({
            let u = usyms.deep_view();
            let k = ksyms.deep_view();
            let of_user = with_name(u, 0, u.len() as int);
            let of_kernel = with_name(k, 0, k.len() as int);
            let of = (
                e.tgid as i32,
                DefaultHasher::spec_finish(
                    hash_input(e.tgid as i32, ustack@, kstack@),
                ),
            );
            &&& r is Some <==> of_user + of_kernel > 0
            &&& r matches Some((data, s)) ==> {
                &&& tells_event(s, *e)
                &&& s.callstack_iid == old(p).next()
                &&& final(p).next() == old(p).next() + 1
                &&& final(p).known() == old(p).known().insert(of, s.callstack_iid)
                &&& data.callstacks@.len() == 1
                &&& data.callstacks@[0].frame_ids@.len() == of_user + of_kernel
                &&& 0 <= i < u.len() && u[i] is Some ==> tells_frame(
                    data,
                    s.callstack_iid,
                    with_name(u, i + 1, u.len() as int) as int,
                    u[i]->Some_0,
                    ustack@[i],
                )
                &&& 0 <= i < k.len() && k[i] is Some ==> tells_frame(
                    data,
                    s.callstack_iid,
                    (of_user + with_name(k, i + 1, k.len() as int)) as int,
                    k[i]->Some_0,
                    kstack@[i],
                )
            }
            &&& r is None ==> final(p).known() == old(p).known() && final(p).next()
                == old(p).next()
        }),
{
    let u = usyms.deep_view();
    let k = ksyms.deep_view();
    let users = profiler::resolved(u, ustack@, u.len() as int);
    let kernels = profiler::resolved(k, kstack@, k.len() as int);
    let names = users + kernels;
    if u.len() > 0 {
        names_come_from_the_end(u, ustack@, u.len() as int, if 0 <= i < u.len() {
            i
        } else {
            0
        });
    } else {
        assert(users.len() == 0);
    }
    if k.len() > 0 {
        names_come_from_the_end(k, kstack@, k.len() as int, if 0 <= i < k.len() {
            i
        } else {
            0
        });
    } else {
        assert(kernels.len() == 0);
    }
    assert(profiler::stack_names(u, ustack@) == users);
    assert(profiler::stack_names(k, kstack@) == kernels);
    if 0 <= i < u.len() && u[i] is Some {
        let place = with_name(u, i + 1, u.len() as int) as int;
        assert(names[place] == users[place]);
    }
    if 0 <= i < k.len() && k[i] is Some {
        let place = with_name(k, i + 1, k.len() as int) as int;
        assert(names[users.len() + place] == kernels[place]);
    }
}

proof fn rest_is_zero(frames: Seq<u64>)
    ensures
        profiler::used_frames(frames) <= frames.len(),
        frames.len() > 0 ==> profiler::used_frames(frames) > 0,
        profiler::used_frames(frames) > 1 ==> frames[profiler::used_frames(frames) - 1] != 0,
        forall|i: int| profiler::used_frames(frames) <= i < frames.len() ==> frames[i] == 0,
    decreases frames.len(),
{
    if frames.len() > 1 && frames.last() == 0 {
        rest_is_zero(frames.drop_last());
        assert forall|i: int| profiler::used_frames(frames) <= i < frames.len() implies frames[i]
            == 0 by {
            if i < frames.len() - 1 {
                assert(frames.drop_last()[i] == 0);
            }
        }
    }
}

/// A stack that was read is told without the zeros behind its last frame, and nothing else is cut
/// off; a stack that does not exist or could not be read is empty.
pub proof fn stack_is_cut_at_its_end(stack_id: i32, found: Option<Vec<u64>>, out: Vec<u64>)
    requires
        call_ensures(stack_frames, (stack_id, found), out),
    ensures
        found is None || stack_id < 0 ==> out@.len() == 0,
        stack_id >= 0 ==> (found matches Some(frames) ==> {
            &&& out@.is_prefix_of(frames@)
            &&& frames@.len() > 0 ==> out@.len() > 0
            &&& out@.len() > 1 ==> out@.last() != 0
            &&& forall|i: int| out@.len() <= i < frames@.len() ==> frames@[i] == 0
        }),
{
    if let Some(frames) = found {
        rest_is_zero(frames@);
    }
}

/// A call stack that got a number is found under it from then on, and the numbers of call stacks
/// with other hashes stay.
pub proof fn numbered_call_stack_is_found(
    c: &mut Callstacks,
    pid: i32,
    ustack: &[u64],
    kstack: &[u64],
    id: u64,
    found: Option<u64>,
    other: (i32, u64),
)
    requires
        call_ensures(Callstacks::insert, (c, pid, ustack, kstack), id),
        call_ensures(Callstacks::get, (final(c), pid, ustack, kstack), found),
        old(c).next() < u64::MAX,
    ensures
        found == Some(id),
        id == old(c).next(),
        final(c).next() == old(c).next() + 1,
        other != (
            pid,
            DefaultHasher::spec_finish(hash_input(pid, ustack@, kstack@)),
        ) ==> final(c).known().contains_key(other) == old(c).known().contains_key(other)
            && final(c).known()[other] == old(c).known()[other],
{
}

} // verus!
