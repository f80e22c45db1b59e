//! What can go wrong between an agent and its client.

use crate::mpscbuf::MpscBufError;
use vstd::prelude::*;
use vstd::string::*;

verus! {

/// Kinds of input/output failures that are told apart.
#[derive(Debug, Clone, Copy, PartialEq, Eq, Structural)]
pub enum IoErrorKind {
    InvalidData,
    TimedOut,
    WouldBlock,
    Other,
}

/// Failures of an agent or its client.
pub enum AgentError {
    /// Input or output failed, with the failure in words.
    Io(IoErrorKind, String),
    /// A system call failed, with the failure in words.
    Nix(String),
    /// The ring buffer refused.
    Mpscbuf(MpscBufError),
    /// A message could not be read, with the failure in words.
    Archive(String),
    /// No client is connected.
    NotEnabled,
    Other(String),
}

impl AgentError {
    /// What `message` says; `errno_text` is used as in `MpscBufError`.
    pub open spec fn message_spec(self, errno_text: Seq<char>) -> Seq<char> {
        match self {
            AgentError::Io(_, t) => "IO error: "@ + t@,
            AgentError::Nix(t) => "System error: "@ + t@,
            AgentError::Mpscbuf(e) => "MPSC buffer error: "@ + e.message_spec(errno_text),
            AgentError::Archive(t) => "Archive error: "@ + t@,
            AgentError::NotEnabled => "Agent not enabled"@,
            AgentError::Other(t) => t@,
        }
    }

    /// The failure in words.
    pub fn message(&self, errno_text: &str) -> (s: String)
        ensures
            s@ == self.message_spec(errno_text@),
    {
        match self {
            AgentError::Io(_, t) => crate::text::join2("IO error: ", t.as_str()),
            AgentError::Nix(t) => crate::text::join2("System error: ", t.as_str()),
            AgentError::Mpscbuf(e) => {
                let inner = e.message(errno_text);
                crate::text::join2("MPSC buffer error: ", inner.as_str())
            },
            AgentError::Archive(t) => crate::text::join2("Archive error: ", t.as_str()),
            AgentError::NotEnabled => "Agent not enabled".to_owned(),
            AgentError::Other(t) => t.clone(),
        }
    }

    /// A failure of input or output of the kind `kind` with the words `text`.
    pub open spec fn is_io(self, kind: IoErrorKind, text: Seq<char>) -> bool {
        self matches AgentError::Io(k, t) && k == kind && t@ == text
    }
}

} // verus!
