//! What holds of an agent over several events.

use crate::agent::agent_state::{
    AgentClientState, AgentView, ClientInput, ClientMessage, EpollAction, ProducerChange, Role,
    StartOutcome, State,
};
use crate::agent::connection;
use crate::agent::connection::{
    ConnectDecision, ConnectRequest, ConnectionState, SessionMessage,
};
use crate::agent::mpsc;
use crate::agent::start;
use crate::agent::start::{FirstMessage, StartDecision};
use crate::mpscbuf::ringbuf;
use crate::mpscbuf::ringbuf::{Entry, EntryState, RingState};
use vstd::prelude::*;

verus! {

/// At most one client has started: while one has, the agent refuses every other request to
/// start, and no report makes another connection the started one.
pub proof fn second_client_is_refused(
    agent: AgentView,
    msg: FirstMessage,
    objection: Option<Seq<char>>,
    decision: StartDecision,
)
    requires
        agent.wf(),
        agent.started is Some,
        msg is Start,
        start::start_decision(agent.another_started, msg, objection, decision),
    ensures
        decision matches StartDecision::Reject(t) && t@ == start::already_started(),
{
}

/// While a client has started, a report of any connection leaves that client the started one, or
/// leaves none.
pub proof fn started_client_is_not_replaced(
    agent: AgentView,
    token: u64,
    input: ClientInput,
    now_ns: u64,
)
    requires
        agent.wf(),
        agent.started is Some,
        agent.reports(token, input),
    ensures
        agent.after_event(token, input, now_ns).started matches Some(c) ==> c.client_id
            == agent.started->Some_0.client_id,
{
}

/// The producer of the process is there exactly while a client has started: it is installed when
/// one starts and removed when that one goes, and stays as it is else.
pub proof fn producer_follows_started_client(
    agent: AgentView,
    token: u64,
    input: ClientInput,
    now_ns: u64,
)
    requires
        agent.wf(),
        agent.reports(token, input),
    ensures
        ({
            let after = agent.after_event(token, input, now_ns);
            match agent.event_outcome(token, input).producer {
                ProducerChange::Install => agent.started is None && after.started is Some,
                ProducerChange::Remove => agent.started is Some && after.started is None,
                ProducerChange::Keep => (agent.started is Some) == (after.started is Some),
            }
        }),
{
}

/// A report concerns its own connection only: all other waiting connections stay as they are.
pub proof fn other_connections_are_untouched(
    agent: AgentView,
    token: u64,
    input: ClientInput,
    now_ns: u64,
    other: u64,
)
    requires
        agent.wf(),
        agent.reports(token, input),
        other != token,
    ensures
        ({
            let after = agent.after_event(token, input, now_ns);
            &&& after.pending.contains_key(other) == agent.pending.contains_key(other)
            &&& agent.pending.contains_key(other) ==> after.pending[other] == agent.pending[other]
        }),
{
}

/// A connection that is deleted is forgotten, and one that is not is not.
pub proof fn deleted_connections_are_forgotten(
    agent: AgentView,
    token: u64,
    input: ClientInput,
    now_ns: u64,
)
    requires
        agent.wf(),
        agent.reports(token, input),
        agent.role(token) == Role::Pending || agent.role(token) == Role::Started,
    ensures
        agent.event_outcome(token, input).action is Some <==> agent.after_event(
            token,
            input,
            now_ns,
        ).role(token) == Role::Unknown,
{
}

/// A client that keeps asking to continue in time is never dropped for its silence.
pub proof fn continuing_client_is_kept(agent: AgentView, asked_ns: u64, looked_ns: u64)
    requires
        agent.wf(),
        agent.started is Some,
        looked_ns - asked_ns <= agent.timeout_ns,
    ensures
        ({
            let id = agent.started->Some_0.client_id;
            let asked = agent.after_event(
                id,
                ClientInput::Started(ClientMessage::Continue),
                asked_ns,
            );
            let looked = asked.after_timer(looked_ns);
            &&& looked.started matches Some(c) && c.client_id == id
            &&& looked.another_started
        }),
{
}

/// Once a client that has started was silent for too long, it is dropped, and another one can
/// start.
pub proof fn silent_client_is_dropped(agent: AgentView, looked_ns: u64)
    requires
        agent.wf(),
        agent.started matches Some(c) && looked_ns - c.timestamp_ns > agent.timeout_ns,
    ensures
        agent.after_timer(looked_ns).started is None,
        !agent.after_timer(looked_ns).another_started,
{
}

/// An event that is submitted behind finished records is what a consumer that reads on receives
/// last.
pub proof fn submitted_event_is_received(entries: Seq<Entry>, pos: int, event: Seq<u8>)
    requires
        crate::mpscbuf::laws::all_finished(entries),
    ensures
        ringbuf::deliverable(
            entries.push(Entry { pos, data: event, state: EntryState::Committed }),
        ) == ringbuf::deliverable(entries).push(event),
{
    crate::mpscbuf::laws::written_is_read_back(entries, pos, event);
}

/// The ring once all `events` were submitted, one after the other.
pub open spec fn after_submits(ring: RingState, events: Seq<Seq<u8>>) -> RingState
    decreases events.len(),
{
    if events.len() == 0 {
        ring
    } else {
        mpsc::after_submit(after_submits(ring, events.drop_last()), events.last())
    }
}

/// Those of `events` that there was room for when they were submitted, one after the other.
pub open spec fn accepted(ring: RingState, events: Seq<Seq<u8>>) -> Seq<Seq<u8>>
    decreases events.len(),
{
    if events.len() == 0 {
        seq![]
    } else if mpsc::has_room(after_submits(ring, events.drop_last()), events.last()) {
        accepted(ring, events.drop_last()).push(events.last())
    } else {
        accepted(ring, events.drop_last())
    }
}

/// No event gets lost unnoticed: of the events that are submitted behind finished records, those
/// that there is room for are received, in order, and all others are counted as dropped.
pub proof fn submits_are_counted(ring: RingState, events: Seq<Seq<u8>>)
    requires
        crate::mpscbuf::laws::all_finished(ring.entries),
        ring.dropped + events.len() <= u64::MAX,
    ensures
        ({
            let after = after_submits(ring, events);
            &&& ringbuf::deliverable(after.entries) == ringbuf::deliverable(ring.entries)
                + accepted(ring, events)
            &&& after.dropped == ring.dropped + (events.len() - accepted(ring, events).len())
            &&& crate::mpscbuf::laws::all_finished(after.entries)
        }),
        0 <= accepted(ring, events).len() <= events.len(),
    decreases events.len(),
{
    if events.len() > 0 {
        submits_are_counted(ring, events.drop_last());
        let before = after_submits(ring, events.drop_last());
        if mpsc::has_room(before, events.last()) {
            submitted_event_is_received(before.entries, before.producer, events.last());
        }
    }
    assert(ringbuf::deliverable(after_submits(ring, events).entries) =~= ringbuf::deliverable(
        ring.entries,
    ) + accepted(ring, events));
}

/// An agent that serves one client at a time keeps its client: from when the client's producer is
/// set up until it says stop, another one that does not insist is refused, with the process of
/// the client; and one that insists, or comes after the stop, is not.
pub proof fn client_is_kept_until_stop(
    before: ConnectionState,
    keepalive_interval_ns: u64,
    pid: i32,
    now_ns: u64,
    messages: Seq<(SessionMessage, u64)>,
    request: ConnectRequest,
    d: ConnectDecision,
)
    requires
        request is Start,
        connection::connect_decision(
            before.after_set_up(keepalive_interval_ns, pid, now_ns).after_messages(messages),
            request,
            d,
        ),
    ensures
        d matches ConnectDecision::Reject(words) ==> words@ == connection::producer_exists(pid),
        d is Reject <==> !request->force && forall|i: int|
            0 <= i < messages.len() ==> (#[trigger] messages[i]).0 != SessionMessage::Stop,
{
    let set_up = before.after_set_up(keepalive_interval_ns, pid, now_ns);
    producer_stays_until_stop(set_up, messages);
}

proof fn producer_stays_until_stop(s: ConnectionState, messages: Seq<(SessionMessage, u64)>)
    requires
        s.has_producer,
    ensures
        s.after_messages(messages).has_producer <==> forall|i: int|
            0 <= i < messages.len() ==> (#[trigger] messages[i]).0 != SessionMessage::Stop,
        s.after_messages(messages).current_client_pid == s.current_client_pid,
    decreases messages.len(),
{
    if messages.len() > 0 {
        let before = messages.drop_last();
        producer_stays_until_stop(s, before);
        assert(messages.last() == messages[messages.len() - 1]);
        if forall|i: int| 0 <= i < messages.len() ==> (#[trigger] messages[i]).0
            != SessionMessage::Stop {
            assert forall|i: int| 0 <= i < before.len() implies (#[trigger] before[i]).0
                != SessionMessage::Stop by {
                assert(messages[i] == before[i]);
            }
        }
        if messages.last().0 != SessionMessage::Stop && forall|i: int|
            0 <= i < before.len() ==> (#[trigger] before[i]).0 != SessionMessage::Stop {
            assert forall|i: int| 0 <= i < messages.len() implies (#[trigger] messages[i]).0
                != SessionMessage::Stop by {
                if i < before.len() {
                    assert(messages[i] == before[i]);
                }
            }
        }
    }
}

} // verus!
