//! How an agent answers the first message of a client.

use crate::agent::error::{AgentError, IoErrorKind};
use crate::agent::filter;
use crate::agent::filter::objection_to;
use crate::protocol::control::TimestampType;
use vstd::prelude::*;
use vstd::string::*;

verus! {

/// What a client asks of the tracing in the process.
pub struct TracingArgs {
    pub log_filter: String,
    pub timestamp_type: TimestampType,
}

/// What an agent received on a connection that has not started yet.
pub enum FirstMessage {
    /// Nothing: no data was there, or the message was empty.
    Nothing,
    /// A request to start, with the number of file descriptors in each of the groups that came
    /// with it.
    Start { buffer_size: u64, args: TracingArgs, fd_groups: Vec<usize> },
    /// Any other control message.
    Other,
}

/// What an agent does with the first message of a client.
pub enum StartDecision {
    /// Wait for another message.
    Ignore,
    /// Refuse, with these words, and wait for another message.
    Reject(String),
    /// Drop the connection.
    Fail(AgentError),
    /// Set up a producer with the buffer of the client: its memory and its notification are the
    /// first two file descriptors of the group at `fd_group`. Then acknowledge.
    Accept { buffer_size: u64, fd_group: usize },
}

/// The first group with at least two file descriptors, from the group `from` on.
pub open spec fn fd_pair_from(groups: Seq<usize>, from: int) -> Option<int>
    decreases groups.len() - from,
{
    if from < 0 || from >= groups.len() {
        None
    } else if groups[from] >= 2 {
        Some(from)
    } else {
        fd_pair_from(groups, from + 1)
    }
}

/// The words with which the log filter `log_filter` is refused.
pub open spec fn filter_refusal(log_filter: Seq<char>, objection: Seq<char>) -> Seq<char> {
    "Invalid log filter '"@ + log_filter + "': "@ + objection
}

/// The words with which a second client is refused.
pub open spec fn already_started() -> Seq<char> {
    "another client already started"@
}

/// How the first message `msg` is to be answered, where `objection` is what there is against its
/// log filter.
pub open spec fn start_decision(
    another_started: bool,
    msg: FirstMessage,
    objection: Option<Seq<char>>,
    d: StartDecision,
) -> bool {
    match msg {
        FirstMessage::Nothing => d is Ignore,
        FirstMessage::Other => d is Ignore,
        FirstMessage::Start { buffer_size, args, fd_groups } => if another_started {
            d matches StartDecision::Reject(t) && t@ == already_started()
        } else if objection is Some {
            d matches StartDecision::Reject(t) && t@ == filter_refusal(
                args.log_filter@,
                objection->Some_0,
            )
        } else {
            match fd_pair_from(fd_groups@, 0) {
                None => d matches StartDecision::Fail(e) && e.is_io(
                    IoErrorKind::InvalidData,
                    "failed to receive memory fd"@,
                ),
                Some(i) => d == (StartDecision::Accept { buffer_size, fd_group: i as usize }),
            }
        },
    }
}

/// What there is against the log filter of the first message `msg`.
pub open spec fn message_objection(msg: FirstMessage) -> Option<Seq<char>> {
    match msg {
        FirstMessage::Start { args, .. } => filter::objection_spec(args.log_filter@),
        _ => None,
    }
}

/// Finds the first group with at least two file descriptors.
pub fn find_fd_pair(groups: &Vec<usize>) -> (r: Option<usize>)
    ensures
        match r {
            Some(i) => fd_pair_from(groups@, 0) == Some(i as int) && i < groups@.len(),
            None => fd_pair_from(groups@, 0) is None,
        },
{
    let mut i: usize = 0;
    while i < groups.len()
        invariant
            i <= groups@.len(),
            fd_pair_from(groups@, i as int) == fd_pair_from(groups@, 0),
        decreases groups@.len() - i,
    {
        if groups[i] >= 2 {
            return Some(i);
        }
        i += 1;
    }
    None
}

/// Decides how to answer the first message of a client, where `objection` is what there is
/// against its log filter.
pub fn decide_start_with(
    another_started: bool,
    msg: &FirstMessage,
    objection: Option<String>,
) -> (d: StartDecision)
    ensures
        start_decision(another_started, *msg, objection.deep_view(), d),
{
    match msg {
        FirstMessage::Nothing => StartDecision::Ignore,
        FirstMessage::Other => StartDecision::Ignore,
        FirstMessage::Start { buffer_size, args, fd_groups } => {
            if another_started {
                return StartDecision::Reject("another client already started".to_owned());
            }
            if let Some(objection) = objection {
                let mut text = "Invalid log filter '".to_owned();
                text.append(args.log_filter.as_str());
                text.append("': ");
                text.append(objection.as_str());
                return StartDecision::Reject(text);
            }
            match find_fd_pair(fd_groups) {
                None => StartDecision::Fail(
                    AgentError::Io(
                        IoErrorKind::InvalidData,
                        "failed to receive memory fd".to_owned(),
                    ),
                ),
                Some(i) => StartDecision::Accept { buffer_size: *buffer_size, fd_group: i },
            }
        },
    }
}

/// Decides how to answer the first message of a client.
pub fn decide_start(another_started: bool, msg: &FirstMessage) -> (d: StartDecision)
    ensures
        start_decision(another_started, *msg, message_objection(*msg), d),
{
    let objection: Option<String> = match msg {
        FirstMessage::Start { args, .. } => {
            if another_started {
                None
            } else {
                objection_to(args.log_filter.as_str())
            }
        },
        _ => None,
    };
    decide_start_with(another_started, msg, objection)
}

} // verus!
