//! How a process presents itself to its client.

use crate::agent::error::AgentError;
use crate::protocol::events::{Event, ProcessName, ThreadName};
use vstd::prelude::*;
use vstd::string::*;

verus! {

/// The option of a client that asks for a random process number.
pub const RANDOM_PROCESS_ID_OPTION: &'static str = "random_process_id";

/// The number under which a process reports.
pub struct ProcessIdentity {
    id: i32,
}

impl ProcessIdentity {
    pub closed spec fn id(self) -> i32 {
        self.id
    }

    /// A process that reports under the number that the system gave it.
    pub fn new(system_id: u32) -> (p: ProcessIdentity)
        ensures
            p.id() == system_id as i32,
    {
        ProcessIdentity { id: system_id as i32 }
    }

    /// The number under which the process reports.
    pub fn get_process_id(&self) -> (id: i32)
        ensures
            id == self.id(),
    {
        self.id
    }

    /// Has the process report under the number `id`.
    pub fn set_process_id(&mut self, id: i32)
        ensures
            final(self).id() == id,
    {
        self.id = id;
    }
}

/// The name of a process: the last component of its executable's path, where it has one and it
/// is text.
pub fn process_name_event(file_name: Option<&str>, pid: i32) -> (e: Event)
    ensures
        e matches Event::ProcessName(n) && n.pid == pid && n.name@ == match file_name {
            Some(f) => f@,
            None => "unknown"@,
        },
{
    let name = match file_name {
        Some(f) => f.to_owned(),
        None => "unknown".to_owned(),
    };
    Event::ProcessName(ProcessName { name, pid })
}

/// What follows on submitting the name of a thread.
pub enum AfterName {
    /// The event is submitted.
    SubmitEvent,
    /// The event is not submitted, because of this failure.
    Fail(AgentError),
}

/// Whether the name of a thread was submitted.
pub struct ThreadNameGate {
    sent: bool,
}

impl ThreadNameGate {
    pub closed spec fn is_sent(self) -> bool {
        self.sent
    }

    /// The name was not submitted.
    pub fn new() -> (g: ThreadNameGate)
        ensures
            !g.is_sent(),
    {
        ThreadNameGate { sent: false }
    }

    /// Whether the name was submitted.
    pub fn was_sent(&self) -> (b: bool)
        ensures
            b == self.is_sent(),
    {
        self.sent
    }

    /// The event to submit before the next event of the thread: its name, where it has one and
    /// it was not submitted.
    pub fn pending_event(&self, name: Option<&str>, tid: i32, pid: i32) -> (e: Option<ThreadName>)
        ensures
            e is Some <==> !self.is_sent() && name is Some,
            e matches Some(n) ==> n.name@ == name->Some_0@ && n.tid == tid && n.pid == pid,
    {
        if self.sent {
            return None;
        }
        match name {
            Some(n) => Some(ThreadName { name: n.to_owned(), tid, pid }),
            None => None,
        }
    }

    /// Notes that submitting the name was tried, whatever came of it.
    pub fn tried(&mut self)
        ensures
            final(self).is_sent(),
    {
        self.sent = true;
    }

    /// Takes in what came of submitting the name, a success where there was none to submit: from a
    /// success on the name counts as submitted, and the event follows; a failure is the answer, and
    /// the event does not follow.
    pub fn noted(&mut self, named: Result<(), AgentError>) -> (next: AfterName)
        ensures
            match named {
                Ok(_) => next is SubmitEvent && final(self).is_sent(),
                Err(e) => next == AfterName::Fail(e) && final(self).is_sent() == old(
                    self,
                ).is_sent(),
            },
    {
        match named {
            Ok(_) => {
                self.sent = true;
                AfterName::SubmitEvent
            },
            Err(e) => AfterName::Fail(e),
        }
    }
}

} // verus!
