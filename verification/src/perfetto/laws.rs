//! What holds of interned call stacks.

use crate::perfetto::interned;
use crate::perfetto::interned::FrameView;
use crate::perfetto::model::{Frame, InternedDataView};
use vstd::prelude::*;
use vstd::utf8::*;

verus! {

/// The frame `f` has its function in `d`, and that is called `name`.
pub open spec fn has_function(d: InternedDataView, f: Frame, name: Seq<char>) -> bool {
    exists|k: int|
        0 <= k < d.function_names.len() && (#[trigger] d.function_names[k]).iid
            == f.function_name_id && d.function_names[k].str == Some(encode_utf8(name))
}

/// The number `id` is that of the frame at the place `i` of `d`, and of no other.
pub open spec fn is_frame_number(d: InternedDataView, id: u64, i: int) -> bool {
    &&& d.frames[i].iid == Some(id)
    &&& forall|k: int| 0 <= k < d.frames.len() && k != i ==> (#[trigger] d.frames[k]).iid != Some(id)
}

/// `d` describes one call stack with the given frames completely: each of its frame numbers is
/// that of a frame of `d`, with the address and the function of the given frame.
pub open spec fn describes_callstack(d: InternedDataView, iid: u64, frames: Seq<FrameView>) -> bool {
    &&& d.callstacks.len() == 1
    &&& d.callstacks[0].iid == Some(iid)
    &&& d.callstacks[0].frame_ids.len() == frames.len()
    &&& d.frames.len() == frames.len()
    &&& forall|i: int|
        #![trigger d.callstacks[0].frame_ids[i]]
        0 <= i < frames.len() ==> {
            &&& is_frame_number(d, d.callstacks[0].frame_ids[i], i)
            &&& d.frames[i].rel_pc == Some(frames[i].2)
            &&& has_function(d, d.frames[i], frames[i].0)
        }
}

/// The interned data of a call stack is complete: whatever it refers to by number is in it, with
/// the functions and addresses of the call stack.
pub proof fn callstack_is_described(iid: u64, first: u64, frames: Seq<FrameView>)
    requires
        first + 1 + frames.len() <= u64::MAX,
    ensures
        describes_callstack(interned::first_callstack(iid, frames), iid, frames),
        describes_callstack(interned::next_callstack(iid, first, frames), iid, frames),
{
    let d = interned::first_callstack(iid, frames);
    assert forall|i: int|
        #![trigger d.callstacks[0].frame_ids[i]]
        0 <= i < frames.len() implies {
        &&& is_frame_number(d, d.callstacks[0].frame_ids[i], i)
        &&& d.frames[i].rel_pc == Some(frames[i].2)
        &&& has_function(d, d.frames[i], frames[i].0)
    } by {
        assert(d.function_names[i + 1].iid == d.frames[i].function_name_id);
    }
    assert(describes_callstack(d, iid, frames));
    let d = interned::next_callstack(iid, first, frames);
    assert forall|i: int|
        #![trigger d.callstacks[0].frame_ids[i]]
        0 <= i < frames.len() implies {
        &&& is_frame_number(d, d.callstacks[0].frame_ids[i], i)
        &&& d.frames[i].rel_pc == Some(frames[i].2)
        &&& has_function(d, d.frames[i], frames[i].0)
    } by {
        assert(d.function_names[i].iid == d.frames[i].function_name_id);
    }
}

/// No number is used twice: where the frames of a call stack are numbered from `first` on, and
/// those of a later one from behind them on, as a writer does, no frame and no function of one
/// has the number of a frame or function of the other.
pub proof fn callstacks_share_no_numbers(
    iid: u64,
    first: u64,
    frames: Seq<FrameView>,
    later_iid: u64,
    later: u64,
    later_frames: Seq<FrameView>,
    i: int,
    k: int,
)
    requires
        first + frames.len() <= later,
        later + 1 + later_frames.len() <= u64::MAX,
        0 <= i < frames.len(),
        0 <= k < later_frames.len(),
    ensures
        ({
            let a = interned::next_callstack(iid, first, frames);
            let b = interned::next_callstack(later_iid, later, later_frames);
            &&& a.frames[i].iid != b.frames[k].iid
            &&& a.function_names[i].iid != b.function_names[k].iid
        }),
        first == 0 ==> ({
            let a = interned::first_callstack(iid, frames);
            let b = interned::next_callstack(later_iid, later, later_frames);
            &&& a.frames[i].iid != b.frames[k].iid
            &&& a.function_names[i + 1].iid != b.function_names[k].iid
            &&& a.function_names[0].iid != b.function_names[k].iid
        }),
{
}

} // verus!
