//! An agent that serves one client at a time, each connection by itself.

use crate::agent::error::{AgentError, IoErrorKind};
use crate::agent::start;
use crate::agent::start::find_fd_pair;
use crate::text;
use crate::text::push_signed_decimal;
use vstd::prelude::*;
use vstd::string::*;

verus! {

/// What such an agent knows.
#[derive(Debug, Clone, Copy, PartialEq, Eq, Structural)]
pub struct ConnectionState {
    /// Whether the process has a producer.
    pub has_producer: bool,
    /// When the client was last heard of.
    pub last_continue_ns: u64,
    /// How often the client wants to be heard of.
    pub keepalive_interval_ns: u64,
    /// The process of the client that started last.
    pub current_client_pid: i32,
}

/// What came first on a connection.
pub enum ConnectRequest {
    Disconnected,
    /// A request to start, with the number of file descriptors in each of the groups that came
    /// with it.
    Start {
        buffer_size: u64,
        keepalive_interval_ns: u64,
        pid: i32,
        force: bool,
        fd_groups: Vec<usize>,
    },
    Other,
}

/// What to do with a connection.
pub enum ConnectDecision {
    Close,
    /// Refuse, with these words, and close.
    Reject(String),
    /// Close because of an error.
    Fail(AgentError),
    /// Set up a producer with the first two file descriptors of the group at `fd_group`.
    Accept { buffer_size: u64, fd_group: usize },
}

/// The words with which a client is refused while another one, of the process `pid`, has a
/// producer.
pub open spec fn producer_exists(pid: i32) -> Seq<char> {
    "producer already exists for pid "@ + text::signed_decimal(pid as int)
}

/// How the request `request` is to be answered.
pub open spec fn connect_decision(
    state: ConnectionState,
    request: ConnectRequest,
    d: ConnectDecision,
) -> bool {
    match request {
        ConnectRequest::Disconnected => d is Close,
        ConnectRequest::Other => d is Close,
        ConnectRequest::Start { buffer_size, force, fd_groups, .. } => if state.has_producer
            && !force {
            d matches ConnectDecision::Reject(t) && t@ == producer_exists(
                state.current_client_pid,
            )
        } else {
            match start::fd_pair_from(fd_groups@, 0) {
                None => d matches ConnectDecision::Fail(e) && e.is_io(
                    IoErrorKind::InvalidData,
                    "failed to receive memory fd"@,
                ),
                Some(i) => d == (ConnectDecision::Accept { buffer_size, fd_group: i as usize }),
            }
        },
    }
}

/// What came from a client that has started.
#[derive(Debug, Clone, Copy, PartialEq, Eq, Structural)]
pub enum SessionMessage {
    Disconnected,
    Stop,
    Continue,
    Other,
}

impl ConnectionState {
    /// What the agent knows once the producer of a client was set up at `now_ns`.
    pub open spec fn after_set_up(
        self,
        keepalive_interval_ns: u64,
        pid: i32,
        now_ns: u64,
    ) -> ConnectionState {
        ConnectionState {
            has_producer: true,
            last_continue_ns: now_ns,
            keepalive_interval_ns,
            current_client_pid: pid,
        }
    }

    /// What the agent knows once `message` came from the client.
    pub open spec fn after_message(self, message: SessionMessage, now_ns: u64) -> ConnectionState {
        match message {
            SessionMessage::Stop => ConnectionState {
                has_producer: false,
                last_continue_ns: 0,
                ..self
            },
            SessionMessage::Continue => ConnectionState { last_continue_ns: now_ns, ..self },
            _ => self,
        }
    }

    /// What the agent knows once all `messages` came from the client, each with its time.
    pub open spec fn after_messages(self, messages: Seq<(SessionMessage, u64)>) -> ConnectionState
        decreases messages.len(),
    {
        if messages.len() == 0 {
            self
        } else {
            self.after_messages(messages.drop_last()).after_message(
                messages.last().0,
                messages.last().1,
            )
        }
    }

    /// An agent without a client.
    pub fn new() -> (s: ConnectionState)
        ensures
            s == (ConnectionState {
                has_producer: false,
                last_continue_ns: 0,
                keepalive_interval_ns: 0,
                current_client_pid: 0,
            }),
    {
        ConnectionState {
            has_producer: false,
            last_continue_ns: 0,
            keepalive_interval_ns: 0,
            current_client_pid: 0,
        }
    }

    /// Decides what to do with a connection.
    pub fn handle_client_connection(&self, request: &ConnectRequest) -> (d: ConnectDecision)
        ensures
            connect_decision(*self, *request, d),
    {
        match request {
            ConnectRequest::Disconnected => ConnectDecision::Close,
            ConnectRequest::Other => ConnectDecision::Close,
            ConnectRequest::Start { buffer_size, force, fd_groups, .. } => {
                if self.has_producer && !*force {
                    let mut t = "producer already exists for pid ".to_owned();
                    push_signed_decimal(&mut t, self.current_client_pid as i64);
                    return ConnectDecision::Reject(t);
                }
                match find_fd_pair(fd_groups) {
                    None => ConnectDecision::Fail(
                        AgentError::Io(
                            IoErrorKind::InvalidData,
                            "failed to receive memory fd".to_owned(),
                        ),
                    ),
                    Some(i) => ConnectDecision::Accept { buffer_size: *buffer_size, fd_group: i },
                }
            },
        }
    }

    /// Notes that the producer of a client was set up at `now_ns`.
    pub fn producer_set_up(&mut self, keepalive_interval_ns: u64, pid: i32, now_ns: u64)
        ensures
            *final(self) == old(self).after_set_up(keepalive_interval_ns, pid, now_ns),
    {
        self.has_producer = true;
        self.last_continue_ns = now_ns;
        self.keepalive_interval_ns = keepalive_interval_ns;
        self.current_client_pid = pid;
    }

    /// Takes in a message of a client that has started. Tells whether the connection goes on.
    pub fn handle_agent_connection(&mut self, message: SessionMessage, now_ns: u64) -> (go_on: bool)
        ensures
            go_on <==> message == SessionMessage::Continue || message == SessionMessage::Other,
            *final(self) == old(self).after_message(message, now_ns),
    {
        match message {
            SessionMessage::Disconnected => false,
            SessionMessage::Stop => {
                self.has_producer = false;
                self.last_continue_ns = 0;
                false
            },
            SessionMessage::Continue => {
                self.last_continue_ns = now_ns;
                true
            },
            SessionMessage::Other => true,
        }
    }
}

} // verus!
