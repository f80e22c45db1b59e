//! What can go wrong with a BPF program.

use crate::text::join2;
use vstd::prelude::*;
use vstd::string::*;

verus! {

/// Failures of BPF programs, in words.
pub enum BpfError {
    LoadError(String),
    AttachError(String),
    MapError(String),
}

impl BpfError {
    /// What `message` says.
    pub open spec fn message_spec(self) -> Seq<char> {
        match self {
            BpfError::LoadError(t) => "failed to load BPF program: "@ + t@,
            BpfError::AttachError(t) => "failed to attach BPF program: "@ + t@,
            BpfError::MapError(t) => "BPF map operation failed: "@ + t@,
        }
    }

    /// The failure in words.
    pub fn message(&self) -> (s: String)
        ensures
            s@ == self.message_spec(),
    {
        match self {
            BpfError::LoadError(t) => join2("failed to load BPF program: ", t.as_str()),
            BpfError::AttachError(t) => join2("failed to attach BPF program: ", t.as_str()),
            BpfError::MapError(t) => join2("BPF map operation failed: ", t.as_str()),
        }
    }

    /// The program could not be loaded, for the reason `text`.
    pub open spec fn is_load(self, text: Seq<char>) -> bool {
        self matches BpfError::LoadError(t) && t@ == text
    }

    /// A map failed, for the reason `text`.
    pub open spec fn is_map(self, text: Seq<char>) -> bool {
        self matches BpfError::MapError(t) && t@ == text
    }
}

} // verus!
