//! Extensions of an agent.

use crate::agent::error::AgentError;
use crate::agent::mpsc;
use crate::agent::mpsc::Producer;
use crate::agent::process::{AfterName, ThreadNameGate};
use crate::mpscbuf::ringbuf::{RingBuf, RingState};
use crate::mpscbuf::WakeupStrategy;
use crate::text::join2;
use vstd::prelude::*;
use vstd::string::*;

verus! {

/// Failures of an extension.
pub enum ExtensionError {
    ValidationError(String),
}

impl ExtensionError {
    /// The failure in words.
    pub fn message(&self) -> (s: String)
        ensures
            self matches ExtensionError::ValidationError(t) && s@ == "validation error: "@ + t@,
    {
        match self {
            ExtensionError::ValidationError(t) => join2("validation error: ", t.as_str()),
        }
    }
}

/// Something that an agent starts when a client asks for it, and stops when the client goes.
pub trait Extension: Send + Sync + Sized + 'static {
    /// What a client asks for.
    type Args;

    /// What events are submitted to.
    type Handle;

    /// Begins to submit events to `handle`.
    fn start(&mut self, args: &Self::Args, handle: Self::Handle) -> Result<(), ExtensionError>;

    /// Ends it.
    fn stop(&mut self) -> Result<(), ExtensionError>;
}

/// What came of submitting an event.
pub struct Submission {
    /// Whether to wake the consumer up.
    pub wake: bool,
    pub result: Result<(), AgentError>,
}

/// What an extension submits events to.
pub struct AgentHandle {
    producer: Producer,
}

/// The bytes behind a reference, where there is one.
pub open spec fn bytes_of(b: Option<&[u8]>) -> Option<Seq<u8>> {
    match b {
        Some(bytes) => Some(bytes@),
        None => None,
    }
}

/// The ring once the name of a thread, where it has one, was submitted unless it was before.
pub open spec fn after_name(ring: RingState, sent: bool, name: Option<Seq<u8>>) -> RingState {
    match name {
        Some(n) if !sent => mpsc::after_submit(ring, n),
        _ => ring,
    }
}

/// Whether submitting the name of a thread fails.
pub open spec fn name_fails(ring: RingState, sent: bool, name: Option<Seq<u8>>) -> bool {
    !sent && name is Some && !mpsc::has_room(ring, name->Some_0)
}

impl AgentHandle {
    /// When the consumer is woken up.
    pub closed spec fn strategy(self) -> WakeupStrategy {
        self.producer.strategy()
    }

    /// A handle of what `producer` writes to.
    pub fn new(producer: Producer) -> (h: AgentHandle)
        ensures
            h.strategy() == producer.strategy(),
    {
        AgentHandle { producer }
    }

    /// Submits the serialized event `event` of a thread. `name` is the serialized event with the
    /// name of the thread, where it has one, and `gate` tells whether that was submitted: if not,
    /// it goes first, and where it cannot be submitted, that is the failure and `event` is not
    /// submitted.
    pub fn submit(
        &self,
        gate: &mut ThreadNameGate,
        ring: &mut RingBuf,
        name: Option<&[u8]>,
        event: &[u8],
    ) -> (s: Submission)
        requires
            old(ring).wf(),
            !old(gate).is_sent() && name is Some ==> mpsc::can_submit(
                old(ring)@,
                name->Some_0@,
            ),
            !name_fails(old(ring)@, old(gate).is_sent(), bytes_of(name)) ==> mpsc::can_submit(
                after_name(old(ring)@, old(gate).is_sent(), bytes_of(name)),
                event@,
            ),
        ensures
            final(ring).wf(),
            ({
                let before = old(ring)@;
                let sent = old(gate).is_sent();
                let named = after_name(before, sent, bytes_of(name));
                if name_fails(before, sent, bytes_of(name)) {
                    &&& s.result == Err::<(), AgentError>(mpsc::no_room(before, name->Some_0@))
                    &&& !s.wake
                    &&& final(gate).is_sent() == sent
                    &&& final(ring)@ == named
                } else {
                    let first = !sent && name is Some && mpsc::wakes(before, self.strategy());
                    &&& final(gate).is_sent()
                    &&& final(ring)@ == mpsc::after_submit(named, event@)
                    &&& if mpsc::has_room(named, event@) {
                        &&& s.result is Ok
                        &&& s.wake == (first || mpsc::wakes(named, self.strategy()))
                    } else {
                        &&& s.result == Err::<(), AgentError>(mpsc::no_room(named, event@))
                        &&& s.wake == first
                    }
                }
            }),
    {
        let mut wake: bool = false;
        let named: Result<(), AgentError> = match name {
            Some(name) if !gate.was_sent() => match self.producer.submit(ring, name) {
                Ok(w) => {
                    wake = w;
                    Ok(())
                },
                Err(e) => Err(e),
            },
            _ => Ok(()),
        };
        match gate.noted(named) {
            AfterName::Fail(e) => Submission { wake, result: Err(e) },
            AfterName::SubmitEvent => match self.producer.submit(ring, event) {
                Ok(w) => Submission { wake: wake || w, result: Ok(()) },
                Err(e) => Submission { wake, result: Err(e) },
            },
        }
    }
}

/// The name of a thread goes before its first event, and no more than once: what is submitted once
/// the name was goes alone.
pub proof fn name_goes_first_and_once(
    ring: RingState,
    name: Seq<u8>,
    first: Seq<u8>,
    second: Seq<u8>,
)
    requires
        mpsc::has_room(ring, name),
        mpsc::has_room(mpsc::after_submit(ring, name), first),
        mpsc::has_room(mpsc::after_submit(mpsc::after_submit(ring, name), first), second),
    ensures
        ({
            let after = mpsc::after_submit(after_name(ring, false, Some(name)), first);
            let end = mpsc::after_submit(after_name(after, true, Some(name)), second);
            let n = ring.entries.len() as int;
            &&& end.entries.len() == n + 3
            &&& end.entries.take(n) == ring.entries
            &&& end.entries[n].data == name
            &&& end.entries[n + 1].data == first
            &&& end.entries[n + 2].data == second
        }),
{
    let after = mpsc::after_submit(after_name(ring, false, Some(name)), first);
    let end = mpsc::after_submit(after_name(after, true, Some(name)), second);
    assert(end.entries.take(ring.entries.len() as int) =~= ring.entries);
}

} // verus!
