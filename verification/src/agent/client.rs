//! The client of an agent.

use crate::agent::error::{AgentError, IoErrorKind};
use crate::agent::start::TracingArgs;
use crate::protocol::control::{ControlMessage, LogLevel, TimestampType};
use crate::text;
use crate::text::{join2, utf8_text};
use vstd::prelude::*;
use vstd::string::*;
use vstd::utf8::*;

verus! {

/// How long a client waits for an agent to answer.
pub const CLIENT_READ_TIMEOUT_MS: u16 = 5000;

/// What came back on a request to start.
pub enum StartReply {
    /// Nothing, in the time that a client waits.
    TimedOut,
    /// Something came, but no data was there.
    NoData,
    /// Connecting, sending or receiving failed.
    Failed(AgentError),
    Ack,
    /// The agent refused; its words are UTF-8 text, or should be.
    Nack(Vec<u8>),
    /// Any other control message.
    Other,
}

/// What became of a message.
pub enum SendOutcome {
    Sent,
    /// There was no room for it.
    WouldBlock,
    /// The other side is gone.
    BrokenPipe(AgentError),
    Failed(AgentError),
}

/// The text that `bytes` encode, where they do.
pub open spec fn words_of(bytes: Seq<u8>, words: Seq<char>) -> bool {
    if valid_utf8(bytes) {
        encode_utf8(words) == bytes
    } else {
        words == "unknown error"@
    }
}

/// The client of an agent.
pub struct AgentClient {
    socket_path: String,
    connected: bool,
}

impl AgentClient {
    /// The path of the agent's socket.
    pub closed spec fn path(self) -> Seq<char> {
        self.socket_path@
    }

    /// Whether an agent has accepted the client.
    pub closed spec fn is_enabled(self) -> bool {
        self.connected
    }

    /// A client that is not connected.
    pub fn new(socket_path: String) -> (c: AgentClient)
        ensures
            c.path() == socket_path@,
            !c.is_enabled(),
    {
        AgentClient { socket_path, connected: false }
    }

    /// The path of the agent's socket.
    pub fn socket_path(&self) -> (p: &str)
        ensures
            p@ == self.path(),
    {
        self.socket_path.as_str()
    }

    /// The request to start, for a buffer of `data_size` bytes.
    pub fn start_message(
        data_size: usize,
        log_level: LogLevel,
        timestamp_type: TimestampType,
    ) -> (m: ControlMessage)
        ensures
            m == (ControlMessage::Start { buffer_size: data_size as u64, log_level, timestamp_type }),
    {
        ControlMessage::Start { buffer_size: data_size as u64, log_level, timestamp_type }
    }

    /// Takes in the answer to a request to start: the client is connected once the agent has
    /// acknowledged it, and stays as it was else.
    pub fn start(&mut self, reply: StartReply) -> (r: Result<(), AgentError>)
        ensures
            final(self).path() == old(self).path(),
            final(self).is_enabled() <==> old(self).is_enabled() || reply is Ack,
            r is Ok <==> reply is Ack,
            match reply {
                StartReply::TimedOut => r matches Err(e) && e.is_io(
                    IoErrorKind::TimedOut,
                    "timeout waiting for agent response"@,
                ),
                StartReply::NoData => r matches Err(e) && e.is_io(
                    IoErrorKind::WouldBlock,
                    "no data available"@,
                ),
                StartReply::Failed(f) => r == Err::<(), _>(f),
                StartReply::Ack => true,
                StartReply::Nack(bytes) => exists|words: Seq<char>|
                    words_of(bytes@, words) && #[trigger] rejected(r, words),
                StartReply::Other => r matches Err(e) && e.is_io(
                    IoErrorKind::Other,
                    "unexpected response from agent"@,
                ),
            },
    {
        match reply {
            StartReply::TimedOut => Err(
                AgentError::Io(
                    IoErrorKind::TimedOut,
                    "timeout waiting for agent response".to_owned(),
                ),
            ),
            StartReply::NoData => Err(
                AgentError::Io(IoErrorKind::WouldBlock, "no data available".to_owned()),
            ),
            StartReply::Failed(f) => Err(f),
            StartReply::Ack => {
                self.connected = true;
                Ok(())
            },
            StartReply::Nack(bytes) => {
                let words = match utf8_text(bytes.as_slice()) {
                    Some(s) => s,
                    None => "unknown error",
                };
                let r: Result<(), AgentError> = Err(
                    AgentError::Io(IoErrorKind::Other, join2("agent rejected start: ", words)),
                );
                assert(words_of(bytes@, words@) && rejected(r, words@));
                r
            },
            StartReply::Other => Err(
                AgentError::Io(IoErrorKind::Other, "unexpected response from agent".to_owned()),
            ),
        }
    }

    /// Takes in what became of a request to stop. Only a connected client sends one; it is no
    /// longer connected once the request is sent or the agent is gone.
    pub fn stop(&mut self, sent: SendOutcome) -> (r: Result<(), AgentError>)
        ensures
            final(self).path() == old(self).path(),
            final(self).is_enabled() <==> old(self).is_enabled() && !(sent is Sent
                || sent is BrokenPipe),
            r is Ok <==> !old(self).is_enabled() || sent is Sent || sent is BrokenPipe,
            old(self).is_enabled() && sent is WouldBlock ==> (r matches Err(e) && e.is_io(
                IoErrorKind::WouldBlock,
                "stop message would block"@,
            )),
            old(self).is_enabled() ==> (sent matches SendOutcome::Failed(f) ==> r == Err::<(), _>(f)),
    {
        if !self.connected {
            return Ok(());
        }
        match sent {
            SendOutcome::Sent => {
                self.connected = false;
                Ok(())
            },
            SendOutcome::WouldBlock => Err(
                AgentError::Io(IoErrorKind::WouldBlock, "stop message would block".to_owned()),
            ),
            SendOutcome::BrokenPipe(_) => {
                self.connected = false;
                Ok(())
            },
            SendOutcome::Failed(f) => Err(f),
        }
    }

    /// Takes in what became of a request to continue. Only a connected client sends one.
    pub fn send_continue(&self, sent: SendOutcome) -> (r: Result<(), AgentError>)
        ensures
            r is Ok <==> !self.is_enabled() || sent is Sent,
            self.is_enabled() && sent is WouldBlock ==> (r matches Err(e) && e.is_io(
                IoErrorKind::WouldBlock,
                "continue message would block"@,
            )),
            self.is_enabled() ==> (sent matches SendOutcome::BrokenPipe(f) ==> r == Err::<(), _>(f)),
            self.is_enabled() ==> (sent matches SendOutcome::Failed(f) ==> r == Err::<(), _>(f)),
    {
        if !self.connected {
            return Ok(());
        }
        match sent {
            SendOutcome::Sent => Ok(()),
            SendOutcome::WouldBlock => Err(
                AgentError::Io(IoErrorKind::WouldBlock, "continue message would block".to_owned()),
            ),
            SendOutcome::BrokenPipe(f) => Err(f),
            SendOutcome::Failed(f) => Err(f),
        }
    }

    /// Whether an agent has accepted the client.
    pub fn enabled(&self) -> (b: bool)
        ensures
            b == self.is_enabled(),
    {
        self.connected
    }

    /// Takes in what became of a request to continue that keeps the connection alive. There is
    /// none to keep alive where the client is not connected.
    pub fn keepalive(&self, sent: SendOutcome) -> (r: Result<(), AgentError>)
        ensures
            !self.is_enabled() ==> r == Err::<(), _>(AgentError::NotEnabled),
            r is Ok <==> self.is_enabled() && sent is Sent,
            self.is_enabled() && sent is WouldBlock ==> (r matches Err(e) && e.is_io(
                IoErrorKind::WouldBlock,
                "continue message would block"@,
            )),
            self.is_enabled() ==> (sent matches SendOutcome::BrokenPipe(f) ==> r == Err::<(), _>(f)),
            self.is_enabled() ==> (sent matches SendOutcome::Failed(f) ==> r == Err::<(), _>(f)),
    {
        if self.enabled() {
            self.send_continue(sent)
        } else {
            Err(AgentError::NotEnabled)
        }
    }
}

/// The client was refused with `words`.
pub open spec fn rejected(r: Result<(), AgentError>, words: Seq<char>) -> bool {
    r matches Err(e) && e.is_io(IoErrorKind::Other, "agent rejected start: "@ + words)
}

} // verus!
