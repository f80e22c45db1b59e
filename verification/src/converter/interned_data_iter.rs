//! Reading interned data, whatever holds it.

use crate::protocol::events::{Callstack, Frame, InternedData, InternedString};
use vstd::prelude::*;
use vstd::string::*;

verus! {

/// A call stack: a number and the numbers of its frames.
pub trait CallstackIterable {
    type Item;

    spec fn iid_spec(&self) -> u64;

    spec fn frame_ids_spec(&self) -> Seq<u64>;

    fn iid(&self) -> (iid: u64)
        ensures
            iid == self.iid_spec(),
    ;

    fn frame_ids(&self) -> (ids: Vec<u64>)
        ensures
            ids@ == self.frame_ids_spec(),
    ;
}

/// A frame: a number, the number of its function, and its address.
pub trait FrameIterable {
    spec fn iid_spec(&self) -> u64;

    spec fn function_name_id_spec(&self) -> u64;

    spec fn rel_pc_spec(&self) -> u64;

    fn iid(&self) -> (iid: u64)
        ensures
            iid == self.iid_spec(),
    ;

    fn function_name_id(&self) -> (id: u64)
        ensures
            id == self.function_name_id_spec(),
    ;

    fn rel_pc(&self) -> (pc: u64)
        ensures
            pc == self.rel_pc_spec(),
    ;
}

/// A numbered text.
pub trait InternedStringIterable {
    spec fn iid_spec(&self) -> u64;

    spec fn str_spec(&self) -> Seq<char>;

    fn iid(&self) -> (iid: u64)
        ensures
            iid == self.iid_spec(),
    ;

    fn str_ref(&self) -> (s: &str)
        ensures
            s@ == self.str_spec(),
    ;
}

/// Interned data: call stacks, frames and function names.
pub trait InternedDataIterable {
    type Callstack: CallstackIterable;

    type Frame: FrameIterable;

    type FunctionName: InternedStringIterable;

    spec fn callstacks_spec(&self) -> Seq<Self::Callstack>;

    spec fn frames_spec(&self) -> Seq<Self::Frame>;

    spec fn function_names_spec(&self) -> Seq<Self::FunctionName>;

    fn callstacks(&self) -> (s: &[Self::Callstack])
        ensures
            s@ == self.callstacks_spec(),
    ;

    fn frames(&self) -> (s: &[Self::Frame])
        ensures
            s@ == self.frames_spec(),
    ;

    fn function_names(&self) -> (s: &[Self::FunctionName])
        ensures
            s@ == self.function_names_spec(),
    ;
}

impl CallstackIterable for Callstack {
    type Item = u64;

    open spec fn iid_spec(&self) -> u64 {
        self.iid
    }

    open spec fn frame_ids_spec(&self) -> Seq<u64> {
        self.frame_ids@
    }

    fn iid(&self) -> (iid: u64) {
        self.iid
    }

    fn frame_ids(&self) -> (ids: Vec<u64>) {
        let ids = self.frame_ids.clone();
        assert(ids@ =~= self.frame_ids@);
        ids
    }
}

impl FrameIterable for Frame {
    open spec fn iid_spec(&self) -> u64 {
        self.iid
    }

    open spec fn function_name_id_spec(&self) -> u64 {
        self.function_name_id
    }

    open spec fn rel_pc_spec(&self) -> u64 {
        self.rel_pc
    }

    fn iid(&self) -> (iid: u64) {
        self.iid
    }

    fn function_name_id(&self) -> (id: u64) {
        self.function_name_id
    }

    fn rel_pc(&self) -> (pc: u64) {
        self.rel_pc
    }
}

impl InternedStringIterable for InternedString {
    open spec fn iid_spec(&self) -> u64 {
        self.iid
    }

    open spec fn str_spec(&self) -> Seq<char> {
        self.str@
    }

    fn iid(&self) -> (iid: u64) {
        self.iid
    }

    fn str_ref(&self) -> (s: &str) {
        self.str.as_str()
    }
}

impl InternedDataIterable for InternedData {
    type Callstack = Callstack;

    type Frame = Frame;

    type FunctionName = InternedString;

    open spec fn callstacks_spec(&self) -> Seq<Callstack> {
        self.callstacks@
    }

    open spec fn frames_spec(&self) -> Seq<Frame> {
        self.frames@
    }

    open spec fn function_names_spec(&self) -> Seq<InternedString> {
        self.function_names@
    }

    fn callstacks(&self) -> (s: &[Callstack]) {
        self.callstacks.as_slice()
    }

    fn frames(&self) -> (s: &[Frame]) {
        self.frames.as_slice()
    }

    fn function_names(&self) -> (s: &[InternedString]) {
        self.function_names.as_slice()
    }
}

/// The first frame with the number `id`.
pub open spec fn frame_with<F: FrameIterable>(frames: Seq<F>, id: u64) -> Option<F>
    decreases frames.len(),
{
    if frames.len() == 0 {
        None
    } else if frames[0].iid_spec() == id {
        Some(frames[0])
    } else {
        frame_with(frames.drop_first(), id)
    }
}

/// The first text with the number `id`.
pub open spec fn text_with<S: InternedStringIterable>(texts: Seq<S>, id: u64) -> Option<S>
    decreases texts.len(),
{
    if texts.len() == 0 {
        None
    } else if texts[0].iid_spec() == id {
        Some(texts[0])
    } else {
        text_with(texts.drop_first(), id)
    }
}

/// Function name, module name and address of the frame `id`, where the frame and its function
/// are known.
pub open spec fn named_frame<D: InternedDataIterable>(data: D, id: u64) -> Option<
    (Seq<char>, Seq<char>, u64),
> {
    match frame_with(data.frames_spec(), id) {
        Some(frame) => match text_with(data.function_names_spec(), frame.function_name_id_spec()) {
            Some(func) => Some((func.str_spec(), ""@, frame.rel_pc_spec())),
            None => None,
        },
        None => None,
    }
}

/// The known ones of the frames `ids`, in order.
pub open spec fn named_frames<D: InternedDataIterable>(data: D, ids: Seq<u64>) -> Seq<
    (Seq<char>, Seq<char>, u64),
>
    decreases ids.len(),
{
    if ids.len() == 0 {
        seq![]
    } else {
        match named_frame(data, ids.last()) {
            Some(f) => named_frames(data, ids.drop_last()).push(f),
            None => named_frames(data, ids.drop_last()),
        }
    }
}

/// There are no more known frames than frames.
pub proof fn named_frames_len<D: InternedDataIterable>(data: D, ids: Seq<u64>)
    ensures
        named_frames(data, ids).len() <= ids.len(),
    decreases ids.len(),
{
    if ids.len() > 0 {
        named_frames_len(data, ids.drop_last());
    }
}

/// Finds the first frame with the number `id`.
pub fn find_frame<F: FrameIterable>(frames: &[F], id: u64) -> (r: Option<&F>)
    ensures
        match r {
            Some(f) => frame_with(frames@, id) == Some(*f),
            None => frame_with(frames@, id) is None,
        },
{
    let mut i: usize = 0;
    assert(frames@.skip(0) =~= frames@);
    while i < frames.len()
        invariant
            i <= frames@.len(),
            frame_with(frames@.skip(i as int), id) == frame_with(frames@, id),
        decreases frames@.len() - i,
    {
        assert(frames@.skip(i as int).drop_first() =~= frames@.skip(i + 1));
        if frames[i].iid() == id {
            return Some(&frames[i]);
        }
        i += 1;
    }
    None
}

/// Finds the first text with the number `id`.
pub fn find_text<S: InternedStringIterable>(texts: &[S], id: u64) -> (r: Option<&S>)
    ensures
        match r {
            Some(s) => text_with(texts@, id) == Some(*s),
            None => text_with(texts@, id) is None,
        },
{
    let mut i: usize = 0;
    assert(texts@.skip(0) =~= texts@);
    while i < texts.len()
        invariant
            i <= texts@.len(),
            text_with(texts@.skip(i as int), id) == text_with(texts@, id),
        decreases texts@.len() - i,
    {
        assert(texts@.skip(i as int).drop_first() =~= texts@.skip(i + 1));
        if texts[i].iid() == id {
            return Some(&texts[i]);
        }
        i += 1;
    }
    None
}

/// The known ones of the frames `ids`, in order.
pub fn resolve_frames<'a, D: InternedDataIterable>(data: &'a D, ids: &Vec<u64>) -> (out: Vec<
    (&'a str, &'a str, u64),
>)
    ensures
        out.deep_view() == named_frames(*data, ids@),
        out@.len() <= ids@.len(),
{
    let mut out: Vec<(&'a str, &'a str, u64)> = Vec::new();
    let mut i: usize = 0;
    assert(ids@.take(0) =~= seq![]);
    assert(out.deep_view() =~= named_frames(*data, ids@.take(0)));
    while i < ids.len()
        invariant
            i <= ids@.len(),
            out.deep_view() == named_frames(*data, ids@.take(i as int)),
        decreases ids@.len() - i,
    {
        let ghost before = out.deep_view();
        assert(ids@.take(i + 1).drop_last() =~= ids@.take(i as int));
        assert(ids@.take(i + 1).last() == ids@[i as int]);
        if let Some(frame) = find_frame(data.frames(), ids[i]) {
            if let Some(func) = find_text(data.function_names(), frame.function_name_id()) {
                out.push((func.str_ref(), "", frame.rel_pc()));
                proof {
                    assert(out.deep_view() =~= before.push(
                        named_frame(*data, ids@[i as int])->Some_0,
                    ));
                }
            }
        }
        i += 1;
    }
    proof {
        assert(ids@.take(i as int) =~= ids@);
        named_frames_len(*data, ids@);
    }
    out
}

} // verus!
