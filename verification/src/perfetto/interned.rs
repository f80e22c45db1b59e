//! Interned data for call stacks.

use crate::perfetto::model::{
    Callstack, CallstackView, Frame, InternedData, InternedDataView, InternedString,
    InternedStringView, Mapping, MappingView,
};
use vstd::prelude::*;
use vstd::string::*;
use vstd::utf8::*;

verus! {

/// What a frame of a call stack is given by: function name, module name and address.
pub type FrameView = (Seq<char>, Seq<char>, u64);

/// The functions of `frames`, numbered from `first` on.
pub open spec fn numbered_functions(frames: Seq<FrameView>, first: int) -> Seq<
    InternedStringView,
> {
    Seq::new(
        frames.len(),
        |i: int|
            InternedStringView {
                iid: Some((first + i) as u64),
                str: Some(encode_utf8(frames[i].0)),
            },
    )
}

/// The frames of `frames`, numbered from `first` on, each with the function numbered one higher.
pub open spec fn numbered_frames(frames: Seq<FrameView>, first: int) -> Seq<Frame> {
    Seq::new(
        frames.len(),
        |i: int|
            Frame {
                iid: Some((first + i) as u64),
                function_name_id: Some((first + 1 + i) as u64),
                mapping_id: Some(1),
                rel_pc: Some(frames[i].2),
            },
    )
}

/// The call stack of `n` frames numbered from `first` on.
pub open spec fn numbered_callstack(iid: u64, n: nat, first: int) -> CallstackView {
    CallstackView { iid: Some(iid), frame_ids: Seq::new(n, |i: int| (first + i) as u64) }
}

/// The mapping that all frames belong to.
pub open spec fn whole_mapping() -> MappingView {
    MappingView {
        iid: Some(1),
        build_id: Some(1),
        exact_offset: Some(0),
        start_offset: Some(0),
        start: Some(0),
        end: Some(0x7fff_ffff_ffff_ffff),
        load_bias: Some(0),
        path_string_ids: seq![],
    }
}

/// The interned data of the first call stack of a trace: function zero is unknown, the functions
/// and frames of the call stack follow, all in one mapping.
pub open spec fn first_callstack(iid: u64, frames: Seq<FrameView>) -> InternedDataView {
    InternedDataView {
        function_names: seq![
            InternedStringView { iid: Some(0), str: Some(encode_utf8("<unknown>"@)) },
        ] + numbered_functions(frames, 1),
        frames: numbered_frames(frames, 0),
        callstacks: seq![numbered_callstack(iid, frames.len(), 0)],
        mappings: seq![whole_mapping()],
        build_ids: seq![InternedStringView { iid: Some(1), str: Some(encode_utf8("unknown"@)) }],
    }
}

/// The interned data of a later call stack, whose frames are numbered from `first` on.
pub open spec fn next_callstack(iid: u64, first: u64, frames: Seq<FrameView>) -> InternedDataView {
    InternedDataView {
        function_names: numbered_functions(frames, first + 1),
        frames: numbered_frames(frames, first as int),
        callstacks: seq![numbered_callstack(iid, frames.len(), first as int)],
        mappings: seq![],
        build_ids: seq![],
    }
}

/// The functions of `frames`, numbered from `first` on, behind those in `out`.
fn push_functions(out: &mut Vec<InternedString>, frames: &Vec<(&str, &str, u64)>, first: u64)
    requires
        first + frames@.len() <= u64::MAX,
    ensures
        final(out).deep_view() == old(out).deep_view() + numbered_functions(
            frames.deep_view(),
            first as int,
        ),
{
    let mut i: usize = 0;
    assert(out.deep_view() =~= old(out).deep_view() + numbered_functions(
        frames.deep_view(),
        first as int,
    ).take(0));
    while i < frames.len()
        invariant
            i <= frames@.len(),
            first + frames@.len() <= u64::MAX,
            out.deep_view() == old(out).deep_view() + numbered_functions(
                frames.deep_view(),
                first as int,
            ).take(i as int),
        decreases frames@.len() - i,
    {
        let ghost before = out.deep_view();
        out.push(
            InternedString {
                iid: Some(first + i as u64),
                str: Some(frames[i].0.as_bytes_vec()),
            },
        );
        i += 1;
        proof {
            let all = numbered_functions(frames.deep_view(), first as int);
            assert(out.deep_view() =~= before.push(all[i - 1]));
            assert(all.take(i as int) =~= all.take(i - 1).push(all[i - 1]));
        }
    }
    proof {
        let all = numbered_functions(frames.deep_view(), first as int);
        assert(all.take(i as int) =~= all);
    }
}

/// The frames of `frames`, numbered from `first` on.
fn number_frames(frames: &Vec<(&str, &str, u64)>, first: u64) -> (out: Vec<Frame>)
    requires
        first + 1 + frames@.len() <= u64::MAX,
    ensures
        out@ == numbered_frames(frames.deep_view(), first as int),
{
    let mut out: Vec<Frame> = Vec::new();
    let mut i: usize = 0;
    while i < frames.len()
        invariant
            i <= frames@.len(),
            first + 1 + frames@.len() <= u64::MAX,
            out@ == numbered_frames(frames.deep_view(), first as int).take(i as int),
        decreases frames@.len() - i,
    {
        out.push(
            Frame {
                iid: Some(first + i as u64),
                function_name_id: Some(first + 1 + i as u64),
                mapping_id: Some(1),
                rel_pc: Some(frames[i].2),
            },
        );
        i += 1;
        assert(out@ =~= numbered_frames(frames.deep_view(), first as int).take(i as int));
    }
    assert(out@ =~= numbered_frames(frames.deep_view(), first as int));
    out
}

/// The call stack of `n` frames numbered from `first` on.
fn number_callstack(iid: u64, n: usize, first: u64) -> (c: Callstack)
    requires
        first + n <= u64::MAX,
    ensures
        c.deep_view() == numbered_callstack(iid, n as nat, first as int),
{
    let mut frame_ids: Vec<u64> = Vec::new();
    let mut i: usize = 0;
    while i < n
        invariant
            i <= n,
            first + n <= u64::MAX,
            frame_ids@ == Seq::new(i as nat, |k: int| (first + k) as u64),
        decreases n - i,
    {
        frame_ids.push(first + i as u64);
        i += 1;
        assert(frame_ids@ =~= Seq::new(i as nat, |k: int| (first + k) as u64));
    }
    Callstack { iid: Some(iid), frame_ids }
}

/// The interned data of the first call stack of a trace.
pub fn create_callstack_interned_data(
    callstack_iid: u64,
    frames: Vec<(&str, &str, u64)>,
) -> (data: InternedData)
    requires
        frames@.len() + 1 <= u64::MAX,
    ensures
        data.deep_view() == first_callstack(callstack_iid, frames.deep_view()),
{
    let mut function_names: Vec<InternedString> = Vec::new();
    function_names.push(InternedString { iid: Some(0), str: Some("<unknown>".as_bytes_vec()) });
    assert(function_names.deep_view() =~= seq![
        InternedStringView { iid: Some(0), str: Some(encode_utf8("<unknown>"@)) },
    ]);
    push_functions(&mut function_names, &frames, 1);
    let numbered: Vec<Frame> = number_frames(&frames, 0);
    let mut mappings: Vec<Mapping> = Vec::new();
    mappings.push(
        Mapping {
            iid: Some(1),
            build_id: Some(1),
            exact_offset: Some(0),
            start_offset: Some(0),
            start: Some(0),
            end: Some(0x7fff_ffff_ffff_ffff),
            load_bias: Some(0),
            path_string_ids: Vec::new(),
        },
    );
    let mut build_ids: Vec<InternedString> = Vec::new();
    build_ids.push(InternedString { iid: Some(1), str: Some("unknown".as_bytes_vec()) });
    let mut callstacks: Vec<Callstack> = Vec::new();
    callstacks.push(number_callstack(callstack_iid, frames.len(), 0));
    let data = InternedData { function_names, frames: numbered, callstacks, mappings, build_ids };
    assert(data.deep_view() =~~= first_callstack(callstack_iid, frames.deep_view()));
    data
}

/// The interned data of a later call stack, whose frames are numbered from `frame_idx_start` on.
pub fn create_callstack_interned_next(
    callstack_iid: u64,
    frame_idx_start: u64,
    frames: Vec<(&str, &str, u64)>,
) -> (data: InternedData)
    requires
        frame_idx_start + 1 + frames@.len() <= u64::MAX,
    ensures
        data.deep_view() == next_callstack(callstack_iid, frame_idx_start, frames.deep_view()),
{
    let mut function_names: Vec<InternedString> = Vec::new();
    push_functions(&mut function_names, &frames, frame_idx_start + 1);
    let numbered: Vec<Frame> = number_frames(&frames, frame_idx_start);
    let mut callstacks: Vec<Callstack> = Vec::new();
    callstacks.push(number_callstack(callstack_iid, frames.len(), frame_idx_start));
    let data = InternedData {
        function_names,
        frames: numbered,
        callstacks,
        mappings: Vec::new(),
        build_ids: Vec::new(),
    };
    assert(data.deep_view() =~~= next_callstack(
        callstack_iid,
        frame_idx_start,
        frames.deep_view(),
    ));
    data
}

} // verus!
