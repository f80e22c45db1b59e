//! What agents and clients do on each occasion.

use crate::agent::agent_state;
use crate::agent::agent_state::{
    classify_message, deleted_tokens, AgentClientState, AgentState, ClientInput, ClientMessage,
    EpollAction, EventOutcome, MessageResult, Role, StartOutcome, TimerOutcome,
};
use crate::agent::client::{AgentClient, SendOutcome, StartReply};
use crate::agent::connection::{
    ConnectDecision, ConnectRequest, ConnectionState, SessionMessage,
};
use crate::agent::error::AgentError;
use crate::agent::extension::{AgentHandle, ExtensionError, Submission};
use crate::agent::filter;
use crate::agent::filter::objection_to;
use crate::agent::mpsc;
use crate::agent::process::{
    process_name_event, AfterName, ProcessIdentity, ThreadNameGate,
};
use crate::agent::start;
use crate::agent::start::{
    decide_start, decide_start_with, find_fd_pair, FirstMessage, StartDecision,
};
use crate::mpscbuf::consumer::Record;
use crate::mpscbuf::error::MpscBufError;
use crate::mpscbuf::ringbuf;
use crate::mpscbuf::ringbuf::RingBuf;
use crate::protocol::control::{ControlMessage, LogLevel, TimestampType};
use crate::protocol::events::{Event, ThreadName};
use crate::text;
use vstd::prelude::*;
use vstd::utf8::*;

verus! {

/// The group `i` is the first with two file descriptors.
pub open spec fn is_first_pair(groups: Seq<usize>, i: int) -> bool {
    &&& 0 <= i < groups.len()
    &&& groups[i] >= 2
    &&& forall|j: int| 0 <= j < i ==> #[trigger] groups[j] < 2
}

/// No group has two file descriptors.
pub open spec fn has_no_pair(groups: Seq<usize>) -> bool {
    forall|j: int| 0 <= j < groups.len() ==> #[trigger] groups[j] < 2
}

proof fn first_pair_is_found(groups: Seq<usize>, from: int)
    requires
        0 <= from <= groups.len(),
        forall|j: int| 0 <= j < from ==> #[trigger] groups[j] < 2,
    ensures
        match start::fd_pair_from(groups, from) {
            Some(i) => is_first_pair(groups, i),
            None => has_no_pair(groups),
        },
    decreases groups.len() - from,
{
    if from < groups.len() && groups[from] < 2 {
        first_pair_is_found(groups, from + 1);
    }
}

/// The file descriptors of the buffer are in the first group that has two.
pub proof fn buffer_is_in_first_pair(groups: &Vec<usize>, r: Option<usize>)
    requires
        call_ensures(find_fd_pair, (groups,), r),
    ensures
        r matches Some(i) ==> is_first_pair(groups@, i as int),
        r is None ==> has_no_pair(groups@),
{
    first_pair_is_found(groups@, 0);
}

/// A request to start is accepted with its own buffer where no other client has started, nothing
/// is against its log filter and the buffer came with it; it is refused where one of the first
/// two does not hold, and fails where only the buffer is missing. Anything else is waited over.
pub proof fn start_is_decided(
    another_started: bool,
    msg: &FirstMessage,
    objection: Option<String>,
    d: StartDecision,
)
    requires
        call_ensures(decide_start_with, (another_started, msg, objection), d),
    ensures
        d is Ignore <==> !(msg is Start),
        msg matches FirstMessage::Start { buffer_size, args, fd_groups } ==> {
            &&& d is Reject <==> another_started || objection is Some
            &&& another_started ==> (d matches StartDecision::Reject(t) && t@
                == "another client already started"@)
            &&& !another_started ==> (objection matches Some(words) ==> (
            d matches StartDecision::Reject(t) && t@ == "Invalid log filter '"@
                + args.log_filter@ + "': "@ + words@))
            &&& d matches StartDecision::Accept { buffer_size: size, fd_group } ==> size
                == buffer_size && is_first_pair(fd_groups@, fd_group as int)
            &&& d is Fail ==> has_no_pair(fd_groups@)
            &&& !another_started && objection is None ==> (d is Fail <==> has_no_pair(
                fd_groups@,
            ))
        },
{
    if let FirstMessage::Start { buffer_size, args, fd_groups } = *msg {
        first_pair_is_found(fd_groups@, 0);
        assert(fd_groups.len() == fd_groups@.len());
    }
}

/// What is against the log filter of a request is what there is against that very filter.
pub proof fn own_filter_is_looked_at(another_started: bool, msg: &FirstMessage, d: StartDecision)
    requires
        call_ensures(decide_start, (another_started, msg), d),
        !another_started,
    ensures
        msg matches FirstMessage::Start { buffer_size, args, fd_groups } ==> {
            &&& d is Reject <==> filter::objection_spec(args.log_filter@) is Some
            &&& d matches StartDecision::Accept { buffer_size: size, fd_group } ==> size
                == buffer_size && is_first_pair(fd_groups@, fd_group as int)
        },
{
    if let FirstMessage::Start { buffer_size, args, fd_groups } = *msg {
        first_pair_is_found(fd_groups@, 0);
        assert(fd_groups.len() == fd_groups@.len());
    }
}

/// An agent that serves one client at a time takes a new one where it has none or the new one
/// insists; else it refuses with the process of the client that it has.
pub proof fn connection_is_decided(s: &ConnectionState, request: &ConnectRequest, d: ConnectDecision)
    requires
        call_ensures(ConnectionState::handle_client_connection, (s, request), d),
    ensures
        d is Close <==> !(request is Start),
        request matches ConnectRequest::Start {
            buffer_size,
            keepalive_interval_ns,
            pid,
            force,
            fd_groups,
        } ==> {
            &&& d is Reject <==> s.has_producer && !*force
            &&& d matches ConnectDecision::Reject(t) ==> t@ == "producer already exists for pid "@
                + text::signed_decimal(s.current_client_pid as int)
            &&& d matches ConnectDecision::Accept { buffer_size: size, fd_group } ==> size
                == buffer_size && is_first_pair(fd_groups@, fd_group as int)
            &&& d is Fail ==> has_no_pair(fd_groups@)
        },
{
    if let ConnectRequest::Start { fd_groups, .. } = *request {
        first_pair_is_found(fd_groups@, 0);
        assert(fd_groups.len() == fd_groups@.len());
    }
}

/// A client whose producer is set up is the one that the agent has, heard of just now.
pub proof fn client_is_taken(s: &mut ConnectionState, interval_ns: u64, pid: i32, now_ns: u64)
    requires
        call_ensures(ConnectionState::producer_set_up, (s, interval_ns, pid, now_ns), ()),
    ensures
        final(s).has_producer,
        final(s).current_client_pid == pid,
        final(s).keepalive_interval_ns == interval_ns,
        final(s).last_continue_ns == now_ns,
{
}

/// The connection goes on until the client stops or is gone. A stop takes the producer away, a
/// continue notes the time, and nothing else changes anything.
pub proof fn session_goes_on(
    s: &mut ConnectionState,
    message: SessionMessage,
    now_ns: u64,
    go_on: bool,
)
    requires
        call_ensures(ConnectionState::handle_agent_connection, (s, message, now_ns), go_on),
    ensures
        !go_on <==> message is Stop || message is Disconnected,
        final(s).has_producer <==> old(s).has_producer && !(message is Stop),
        message is Continue ==> final(s).last_continue_ns == now_ns,
        message is Stop ==> final(s).last_continue_ns == 0,
        !(message is Continue) && !(message is Stop) ==> *final(s) == *old(s),
        final(s).current_client_pid == old(s).current_client_pid,
        final(s).keepalive_interval_ns == old(s).keepalive_interval_ns,
{
}

/// Only a stop and a continue are messages of a client that has started; all others end its
/// connection.
pub proof fn messages_are_told_apart(msg: Option<&ControlMessage>, m: ClientMessage)
    requires
        call_ensures(classify_message, (msg,), m),
    ensures
        m is Stop <==> (msg matches Some(c) && *c is Stop),
        m is Continue <==> (msg matches Some(c) && *c is Continue),
        m is Stop || m is Continue || m is Closed,
{
}

/// A new connection waits, under a number that no connection had before.
pub proof fn connection_waits(
    a: &mut AgentState,
    set_up: bool,
    now_ns: u64,
    r: Option<(u64, EpollAction)>,
    other: u64,
)
    requires
        call_ensures(AgentState::accept_connection, (a, set_up, now_ns), r),
        old(a)@.wf(),
        old(a)@.next_client_id < u64::MAX,
    ensures
        r is Some <==> set_up,
        r matches Some((id, action)) ==> {
            &&& action == (EpollAction::Add { token: id })
            &&& id != 0
            &&& !old(a)@.pending.contains_key(id)
            &&& old(a)@.started matches Some(c) ==> c.client_id != id
            &&& final(a)@.pending.contains_key(id)
            &&& final(a)@.pending[id].client_id == id
            &&& final(a)@.pending[id].timestamp_ns == now_ns
            &&& final(a)@.pending[id].state is Pending
            &&& final(a)@.next_client_id > id
            &&& other != id ==> final(a)@.pending.contains_key(other)
                == old(a)@.pending.contains_key(other)
            &&& other != id && old(a)@.pending.contains_key(other) ==> final(a)@.pending[other]
                == old(a)@.pending[other]
        },
        !set_up ==> final(a)@.pending == old(a)@.pending,
        final(a)@.started == old(a)@.started,
        final(a)@.timeout_ns == old(a)@.timeout_ns,
{
    let id = old(a)@.next_client_id;
    if old(a)@.pending.contains_key(id) {
        assert(old(a)@.pending[id].client_id == id);
    }
}

/// A waiting connection whose start was accepted becomes the started client, heard of just now;
/// one that failed is dropped; and one that still waits is left as it is. None is acknowledged
/// here.
pub proof fn waiting_connection_starts(
    a: &mut AgentState,
    token: u64,
    outcome: StartOutcome,
    now_ns: u64,
    o: EventOutcome,
)
    requires
        call_ensures(
            AgentState::handle_event,
            (a, token, ClientInput::Pending(outcome), now_ns),
            o,
        ),
        old(a)@.wf(),
        old(a)@.pending.contains_key(token),
        outcome is Accepted ==> old(a)@.started is None,
    ensures
        !o.acknowledge,
        outcome is Waiting ==> final(a)@ == old(a)@ && o.action is None && o.producer is Keep,
        outcome is Accepted ==> {
            &&& final(a)@.started matches Some(c) && c.client_id == token && c.timestamp_ns
                == now_ns && c.state is Started
            &&& !final(a)@.pending.contains_key(token)
            &&& final(a)@.another_started
            &&& o.action is None
            &&& o.producer is Install
        },
        outcome is Failed ==> {
            &&& final(a)@.started == old(a)@.started
            &&& !final(a)@.pending.contains_key(token)
            &&& o.action == Some(EpollAction::Delete { token })
            &&& o.producer is Keep
        },
{
}

/// A stop of the started client, its end or a failure leave no client and no producer; only a
/// stop and a continue are acknowledged, and a continue notes the time.
pub proof fn started_client_is_heard(
    a: &mut AgentState,
    token: u64,
    message: ClientMessage,
    now_ns: u64,
    o: EventOutcome,
)
    requires
        call_ensures(
            AgentState::handle_event,
            (a, token, ClientInput::Started(message), now_ns),
            o,
        ),
        old(a)@.wf(),
        old(a)@.started matches Some(c) && c.client_id == token,
    ensures
        final(a)@.pending == old(a)@.pending,
        o.acknowledge <==> message is Stop || message is Continue,
        message is Stop || message is Closed || message is Failed ==> {
            &&& final(a)@.started is None
            &&& !final(a)@.another_started
            &&& o.action == Some(EpollAction::Delete { token })
            &&& o.producer is Remove
        },
        message is Continue || message is WouldBlock ==> {
            &&& final(a)@.started matches Some(c) && c.client_id == token && c.timestamp_ns == (
            if message is Continue {
                now_ns
            } else {
                old(a)@.started->Some_0.timestamp_ns
            })
            &&& final(a)@.another_started
            &&& o.action is None
            &&& o.producer is Keep
        },
{
}

/// Who was not heard of for longer than the timeout is dropped, and nobody else; the producer goes
/// with the started client.
pub proof fn silent_connections_are_dropped(
    a: &mut AgentState,
    now_ns: u64,
    o: TimerOutcome,
    id: u64,
)
    requires
        call_ensures(AgentState::timer, (a, now_ns), o),
        old(a)@.wf(),
    ensures
        final(a)@.pending.contains_key(id) <==> old(a)@.pending.contains_key(id) && now_ns
            - old(a)@.pending[id].timestamp_ns <= old(a)@.timeout_ns,
        final(a)@.pending.contains_key(id) ==> final(a)@.pending[id] == old(a)@.pending[id],
        old(a)@.started is None ==> final(a)@.started is None && o.producer is Keep,
        old(a)@.started matches Some(c) ==> {
            let alive = now_ns - c.timestamp_ns <= old(a)@.timeout_ns;
            &&& final(a)@.started == (if alive {
                Some(c)
            } else {
                None
            })
            &&& final(a)@.another_started == alive
            &&& alive <==> o.producer is Keep
            &&& !alive <==> o.producer is Remove
            &&& o.actions@.contains(EpollAction::Delete { token: c.client_id }) <==> !alive
        },
        old(a)@.pending.contains_key(id) ==> (o.actions@.contains(
            EpollAction::Delete { token: id },
        ) <==> !final(a)@.pending.contains_key(id)),
        forall|k: int| 0 <= k < o.actions@.len() ==> (#[trigger] o.actions@[k]) is Delete,
{
    let d = EpollAction::Delete { token: id };
    if let Some(c) = old(a)@.started {
        let e = EpollAction::Delete { token: c.client_id };
        assert(o.actions@.contains(e) <==> old(a)@.timed_out(c.client_id, now_ns));
    }
    assert(o.actions@.contains(d) <==> old(a)@.timed_out(id, now_ns));
    assert forall|k: int| 0 <= k < o.actions@.len() implies (#[trigger] o.actions@[k]) is Delete by {
        assert(o.actions@.contains(o.actions@[k]));
    }
}

/// The timeout that is asked for in milliseconds is that many million nanoseconds.
pub proof fn timeout_is_milliseconds(timeout_ms: u16, a: AgentState)
    requires
        call_ensures(AgentState::new, (timeout_ms,), a),
    ensures
        a@.timeout_ns == 1_000_000 * timeout_ms,
        a@.started is None,
        forall|id: u64| !a@.pending.contains_key(id),
{
}

/// The request of a client asks for what the client was told to ask for.
pub proof fn request_asks_for_what_is_wanted(
    data_size: usize,
    level: LogLevel,
    clock: TimestampType,
    m: ControlMessage,
)
    requires
        call_ensures(AgentClient::start_message, (data_size, level, clock), m),
        data_size <= u64::MAX,
    ensures
        m matches ControlMessage::Start { buffer_size, log_level, timestamp_type } && buffer_size
            == data_size && log_level == level && timestamp_type == clock,
{
}

/// A client has started exactly where the agent acknowledged; else it is told why it has not.
pub proof fn client_starts_with_acknowledgement(
    c: &mut AgentClient,
    reply: StartReply,
    r: Result<(), AgentError>,
)
    requires
        call_ensures(AgentClient::start, (c, reply), r),
    ensures
        r is Ok <==> reply is Ack,
        reply is Ack ==> final(c).is_enabled(),
        !(reply is Ack) ==> final(c).is_enabled() == old(c).is_enabled(),
        final(c).path() == old(c).path(),
        reply is TimedOut ==> (r matches Err(AgentError::Io(k, t)) && k is TimedOut && t@
            == "timeout waiting for agent response"@),
        reply is NoData ==> (r matches Err(AgentError::Io(k, t)) && k is WouldBlock && t@
            == "no data available"@),
        reply matches StartReply::Failed(f) ==> r == Err::<(), AgentError>(f),
        reply matches StartReply::Nack(bytes) ==> (r matches Err(AgentError::Io(k, t)) && k is Other
            && exists|words: Seq<char>|
            t@ == "agent rejected start: "@ + words && if valid_utf8(bytes@) {
                #[trigger] encode_utf8(words) == bytes@
            } else {
                words == "unknown error"@
            }),
        reply is Other ==> (r matches Err(AgentError::Io(k, t)) && k is Other && t@
            == "unexpected response from agent"@),
{
    if let StartReply::Nack(bytes) = reply {
        let words = choose|words: Seq<char>|
            crate::agent::client::words_of(bytes@, words)
                && #[trigger] crate::agent::client::rejected(r, words);
        let e = encode_utf8(words);
    }
}

/// A client that has started is stopped once the agent knows or is gone; else it stays started and
/// is told why. One that has not started has nothing to stop.
pub proof fn client_stops(
    c: &mut AgentClient,
    sent: SendOutcome,
    r: Result<(), AgentError>,
)
    requires
        call_ensures(AgentClient::stop, (c, sent), r),
    ensures
        !old(c).is_enabled() ==> r is Ok && !final(c).is_enabled(),
        old(c).is_enabled() && (sent is Sent || sent is BrokenPipe) ==> r is Ok
            && !final(c).is_enabled(),
        old(c).is_enabled() && sent is WouldBlock ==> final(c).is_enabled() && (r matches Err(
            AgentError::Io(k, t),
        ) && k is WouldBlock && t@ == "stop message would block"@),
        old(c).is_enabled() ==> (sent matches SendOutcome::Failed(f) ==> final(c).is_enabled() && r
            == Err::<(), AgentError>(f)),
        final(c).path() == old(c).path(),
{
}

/// Asking to continue succeeds exactly where it was sent; a client that has not started has
/// nothing to ask, and keeping it alive fails.
pub proof fn client_continues(
    c: &AgentClient,
    sent: SendOutcome,
    r: Result<(), AgentError>,
    kept: Result<(), AgentError>,
)
    requires
        call_ensures(AgentClient::send_continue, (c, sent), r),
        call_ensures(AgentClient::keepalive, (c, sent), kept),
    ensures
        c.is_enabled() ==> (r is Ok <==> sent is Sent) && (kept is Ok <==> sent is Sent),
        !c.is_enabled() ==> r is Ok && (kept matches Err(e) && e is NotEnabled),
        c.is_enabled() && sent is WouldBlock ==> {
            &&& r matches Err(AgentError::Io(k, t)) && k is WouldBlock && t@
                == "continue message would block"@
            &&& kept matches Err(AgentError::Io(k, t)) && k is WouldBlock && t@
                == "continue message would block"@
        },
        c.is_enabled() ==> (sent matches SendOutcome::BrokenPipe(f) ==> r == Err::<
            (),
            AgentError,
        >(f) && kept == Err::<(), AgentError>(f)),
        c.is_enabled() ==> (sent matches SendOutcome::Failed(f) ==> r == Err::<(), AgentError>(f)
            && kept == Err::<(), AgentError>(f)),
{
}

/// The name of the process is that of its program, with its number.
pub proof fn process_is_named(file_name: Option<&str>, pid: i32, e: Event)
    requires
        call_ensures(process_name_event, (file_name, pid), e),
    ensures
        e matches Event::ProcessName(n) && n.pid == pid && (file_name matches Some(f) ==> n.name@
            == f@) && (file_name is None ==> n.name@ == "unknown"@),
{
}

/// The name of a thread is due until it was sent, with the numbers of the thread and its process.
pub proof fn thread_name_is_due(
    g: &ThreadNameGate,
    name: Option<&str>,
    tid: i32,
    pid: i32,
    e: Option<ThreadName>,
)
    requires
        call_ensures(ThreadNameGate::pending_event, (g, name, tid, pid), e),
    ensures
        e is Some <==> !g.is_sent() && name is Some,
        e matches Some(n) ==> n.tid == tid && n.pid == pid && n.name@ == name->Some_0@,
{
}

/// Where the name could be sent the event follows; where not, the failure is told and the name is
/// due again.
pub proof fn event_follows_name(
    g: &mut ThreadNameGate,
    named: Result<(), AgentError>,
    next: AfterName,
)
    requires
        call_ensures(ThreadNameGate::noted, (g, named), next),
    ensures
        named is Ok <==> next is SubmitEvent,
        named is Ok ==> final(g).is_sent(),
        named matches Err(e) ==> next == AfterName::Fail(e) && final(g).is_sent()
            == old(g).is_sent(),
{
}

/// An event that is submitted is what comes last of what can be received, behind finished records;
/// one that there is no room for is counted as dropped, and what can be received stays the same.
pub proof fn event_is_submitted(
    p: &mpsc::Producer,
    ring: &mut RingBuf,
    event: &[u8],
    r: Result<bool, AgentError>,
)
    requires
        call_ensures(mpsc::Producer::submit, (p, ring, event), r),
        crate::mpscbuf::laws::all_finished(old(ring)@.entries),
    ensures
        r is Ok ==> {
            &&& ringbuf::deliverable(final(ring)@.entries) == ringbuf::deliverable(
                old(ring)@.entries,
            ).push(event@)
            &&& final(ring)@.entries.last().data == event@
            &&& final(ring)@.entries.last().state is Committed
            &&& final(ring)@.dropped == old(ring)@.dropped
            &&& final(ring)@.producer - old(ring)@.producer >= event@.len() + 8
            &&& final(ring)@.producer - old(ring)@.consumer < old(ring)@.capacity
        },
        r is Err ==> {
            &&& final(ring)@.entries == old(ring)@.entries
            &&& final(ring)@.producer == old(ring)@.producer
            &&& old(ring)@.dropped < u64::MAX ==> final(ring)@.dropped == old(ring)@.dropped + 1
        },
        final(ring)@.consumer == old(ring)@.consumer,
        final(ring)@.capacity == old(ring)@.capacity,
{
    if r is Ok {
        crate::mpscbuf::laws::written_is_read_back(
            old(ring)@.entries,
            old(ring)@.producer,
            event@,
        );
    }
}

/// The tokens to forget are those that are deleted, in order, and no others.
pub proof fn deleted_tokens_are_told(actions: &Vec<EpollAction>, ids: Vec<u64>, token: u64)
    requires
        call_ensures(deleted_tokens, (actions,), ids),
    ensures
        ids@.contains(token) <==> actions@.contains(EpollAction::Delete { token }),
        ids@.len() <= actions@.len(),
{
    deleted_are_told(actions@, token);
}

proof fn deleted_are_told(actions: Seq<EpollAction>, token: u64)
    ensures
        agent_state::deleted(actions).contains(token) <==> actions.contains(
            EpollAction::Delete { token },
        ),
        agent_state::deleted(actions).len() <= actions.len(),
    decreases actions.len(),
{
    if actions.len() > 0 {
        let init = actions.drop_last();
        let all = agent_state::deleted(actions);
        let before = agent_state::deleted(init);
        let d = EpollAction::Delete { token };
        deleted_are_told(init, token);
        if actions.contains(d) {
            let i = choose|i: int| 0 <= i < actions.len() && actions[i] == d;
            if i < init.len() {
                assert(init[i] == d);
                let j = choose|j: int| 0 <= j < before.len() && before[j] == token;
                assert(all[j] == token);
            } else {
                assert(all[before.len() as int] == token);
            }
        }
        if all.contains(token) {
            let j = choose|j: int| 0 <= j < all.len() && all[j] == token;
            if j < before.len() {
                assert(before[j] == token);
                let i = choose|i: int| 0 <= i < init.len() && init[i] == d;
                assert(actions[i] == d);
            } else {
                assert(actions[actions.len() - 1] == d);
            }
        }
    }
}

/// A connection is what it is known as: the listener, the started client, or one that waits.
pub proof fn roles_are_told_apart(a: &AgentState, token: u64, r: Role)
    requires
        call_ensures(AgentState::role, (a, token), r),
        a@.wf(),
    ensures
        r is Listener <==> token == 0,
        r is Pending <==> a@.pending.contains_key(token),
        r is Started <==> (a@.started matches Some(c) && c.client_id == token),
{
    if a@.pending.contains_key(token) {
        assert(a@.pending[token].client_id == token);
    }
}

/// A single connection goes from waiting to started with an accepted start, and stays what it is
/// else; only a stop and a continue are acknowledged.
pub proof fn connection_hears(
    c: &mut AgentClientState,
    input: ClientInput,
    now_ns: u64,
    r: (MessageResult, bool),
)
    requires
        call_ensures(AgentClientState::handle_message, (c, input, now_ns), r),
    ensures
        final(c).client_id == old(c).client_id,
        r.1 <==> input == ClientInput::Started(ClientMessage::Stop) || input
            == ClientInput::Started(ClientMessage::Continue),
        input == ClientInput::Pending(StartOutcome::Accepted) ==> r.0 is Started
            && final(c).state is Started && final(c).timestamp_ns == now_ns,
        input == ClientInput::Pending(StartOutcome::Waiting) ==> r.0 is Continue && *final(c)
            == *old(c),
        input == ClientInput::Pending(StartOutcome::Failed) ==> r.0 is Error && *final(c)
            == *old(c),
        input == ClientInput::Started(ClientMessage::Continue) ==> r.0 is Continue
            && final(c).timestamp_ns == now_ns && final(c).state == old(c).state,
        input == ClientInput::Started(ClientMessage::WouldBlock) ==> r.0 is Continue && *final(c)
            == *old(c),
        input == ClientInput::Started(ClientMessage::Stop) || input == ClientInput::Started(
            ClientMessage::Closed,
        ) ==> r.0 is Disconnect && *final(c) == *old(c),
        input == ClientInput::Started(ClientMessage::Failed) ==> r.0 is Error && *final(c)
            == *old(c),
{
}

/// The number of the process is the last one that it was given.
pub proof fn process_number_is_last_given(
    p: &mut ProcessIdentity,
    given: i32,
    id: i32,
    system_id: u32,
    first: ProcessIdentity,
    first_id: i32,
)
    requires
        call_ensures(ProcessIdentity::set_process_id, (p, given), ()),
        call_ensures(ProcessIdentity::get_process_id, (final(p),), id),
        call_ensures(ProcessIdentity::new, (system_id,), first),
        call_ensures(ProcessIdentity::get_process_id, (&first,), first_id),
    ensures
        id == given,
        system_id <= i32::MAX ==> first_id == system_id,
{
}

/// A failure in words tells of which kind it is, and its details.
pub proof fn failures_are_told(
    e: &AgentError,
    errno_text: &str,
    s: String,
    inner: String,
)
    requires
        call_ensures(AgentError::message, (e, errno_text), s),
        e matches AgentError::Mpscbuf(m) ==> call_ensures(
            MpscBufError::message,
            (&m, errno_text),
            inner,
        ),
    ensures
        e matches AgentError::Io(k, t) ==> s@ == "IO error: "@ + t@,
        e matches AgentError::Nix(t) ==> s@ == "System error: "@ + t@,
        e matches AgentError::Mpscbuf(m) ==> s@ == "MPSC buffer error: "@ + inner@,
        e matches AgentError::Archive(t) ==> s@ == "Archive error: "@ + t@,
        e is NotEnabled ==> s@ == "Agent not enabled"@,
        e matches AgentError::Other(t) ==> s@ == t@,
{
}

/// The failure of an extension in words.
pub proof fn objections_are_told(e: &ExtensionError, s: String)
    requires
        call_ensures(ExtensionError::message, (e,), s),
    ensures
        e matches ExtensionError::ValidationError(t) && s@ == "validation error: "@ + t@,
{
}

/// The name of a thread goes before its first event; both are received in this order, behind
/// finished records, and the name does not go again. Where there is no room for the name, neither
/// goes, and the name is due again.
pub proof fn name_goes_before_event(
    h: &AgentHandle,
    gate: &mut ThreadNameGate,
    ring: &mut RingBuf,
    name: &[u8],
    event: &[u8],
    s: Submission,
)
    requires
        call_ensures(AgentHandle::submit, (h, gate, ring, Some(name), event), s),
        crate::mpscbuf::laws::all_finished(old(ring)@.entries),
        !old(gate).is_sent(),
    ensures
        ({
            let before = ringbuf::deliverable(old(ring)@.entries);
            let after = ringbuf::deliverable(final(ring)@.entries);
            &&& s.result is Ok ==> after == before.push(name@).push(event@)
            &&& s.result is Ok ==> final(gate).is_sent() && final(ring)@.dropped
                == old(ring)@.dropped
            &&& s.result is Err ==> after == if final(gate).is_sent() {
                before.push(name@)
            } else {
                before
            }
            &&& s.result is Err && old(ring)@.dropped < u64::MAX ==> final(ring)@.dropped
                == old(ring)@.dropped + 1
            &&& h.strategy() is NoWakeup ==> !s.wake
            &&& h.strategy() is Forced ==> (s.wake <==> final(gate).is_sent())
        }),
{
    let ring0 = old(ring)@;
    if mpsc::has_room(ring0, name@) {
        let named = mpsc::after_submit(ring0, name@);
        crate::mpscbuf::laws::written_is_read_back(ring0.entries, ring0.producer, name@);
        assert(crate::mpscbuf::laws::all_finished(named.entries));
        if mpsc::has_room(named, event@) {
            crate::mpscbuf::laws::written_is_read_back(named.entries, named.producer, event@);
        }
    }
}

/// Once the name of a thread was sent, or where it has none, its events go alone.
pub proof fn event_goes_alone(
    h: &AgentHandle,
    gate: &mut ThreadNameGate,
    ring: &mut RingBuf,
    name: Option<&[u8]>,
    event: &[u8],
    s: Submission,
)
    requires
        call_ensures(AgentHandle::submit, (h, gate, ring, name, event), s),
        crate::mpscbuf::laws::all_finished(old(ring)@.entries),
        old(gate).is_sent() || name is None,
    ensures
        final(gate).is_sent(),
        ({
            let before = ringbuf::deliverable(old(ring)@.entries);
            let after = ringbuf::deliverable(final(ring)@.entries);
            &&& s.result is Ok ==> after == before.push(event@) && final(ring)@.dropped
                == old(ring)@.dropped
            &&& s.result is Err ==> after == before && !s.wake
            &&& s.result is Err && old(ring)@.dropped < u64::MAX ==> final(ring)@.dropped
                == old(ring)@.dropped + 1
            &&& h.strategy() is NoWakeup ==> !s.wake
            &&& h.strategy() is Forced && s.result is Ok ==> s.wake
        }),
{
    let ring0 = old(ring)@;
    if mpsc::has_room(ring0, event@) {
        crate::mpscbuf::laws::written_is_read_back(ring0.entries, ring0.producer, event@);
    }
}

/// The consumer is woken up by each event, by none, or by one that is written where it stands, as
/// the strategy says.
pub proof fn strategy_wakes_up(
    p: &mpsc::Producer,
    ring: &mut RingBuf,
    event: &[u8],
    wake: bool,
)
    requires
        call_ensures(mpsc::Producer::submit, (p, ring, event), Ok(wake)),
    ensures
        p.strategy() is Forced ==> wake,
        p.strategy() is NoWakeup ==> !wake,
        p.strategy() is SelfPacing && old(ring)@.consumer == old(ring)@.producer ==> wake,
{
}

/// What is received is the oldest event that can be.
pub proof fn oldest_event_is_received(
    c: &mut mpsc::Consumer,
    ring: &mut RingBuf,
    r: Option<Record>,
)
    requires
        call_ensures(mpsc::Consumer::consume, (c, ring), r),
    ensures
        ({
            let ready = ringbuf::deliverable(old(ring)@.entries);
            &&& r is Some <==> ready.len() > 0
            &&& r matches Some(record) ==> record.bytes() == ready[0]
            &&& ringbuf::deliverable(final(ring)@.entries) == ready
            &&& final(ring)@.dropped == old(ring)@.dropped
        }),
{
    ringbuf::lemma_skip_discarded(old(ring)@.entries);
}

/// Of a log filter that is plain, there is against it what the filter itself is objected to for;
/// one that cannot be cut is objected to in any case.
pub proof fn filter_is_objected_to(directives: &str, r: Option<String>)
    requires
        call_ensures(objection_to, (directives,), r),
    ensures
        filter::is_plain(directives@) ==> r.deep_view() == filter::filter_objection(directives@),
        !filter::fits(directives@) ==> r is Some,
        directives@.len() == 0 ==> r is None,
{
    if filter::is_plain(directives@) {
        filter::plain_filter_fits(directives@);
    }
}

} // verus!
