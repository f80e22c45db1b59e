//! The connections of an agent: any number that wait, and at most one that has started.

use crate::agent::error::AgentError;
use crate::protocol::control::ControlMessage;
use std::collections::HashMap;
use vstd::prelude::*;

verus! {

broadcast use vstd::std_specs::hash::group_hash_axioms;

/// What the connections of an agent know of each other.
pub struct AgentContext {
    pub another_started: bool,
}

/// How long a client may stay silent.
pub const CLIENT_TIMEOUT_NS: u64 = 2_000_000_000;

/// The token of the listening socket. No client has it.
pub const LISTENER_TOKEN: u64 = 0;

/// How far a connection has come.
#[derive(Debug, Clone, Copy, PartialEq, Eq, Structural)]
pub enum State {
    Pending,
    Started,
}

/// What became of the first message of a client.
#[derive(Debug, Clone, Copy, PartialEq, Eq, Structural)]
pub enum StartOutcome {
    /// There was none that starts the client.
    Waiting,
    /// The client has started.
    Accepted,
    /// Receiving it or setting up the producer failed.
    Failed,
}

/// What came from a client that has started.
#[derive(Debug, Clone, Copy, PartialEq, Eq, Structural)]
pub enum ClientMessage {
    Stop,
    Continue,
    /// Nothing that could be answered: an empty message, or one that only an agent sends.
    Closed,
    /// No data was there.
    WouldBlock,
    /// Receiving failed.
    Failed,
}

/// Tells what a message from a client that has started asks for. An empty message is `None`.
pub fn classify_message(msg: Option<&ControlMessage>) -> (m: ClientMessage)
    ensures
        m == match msg {
            Some(ControlMessage::Stop) => ClientMessage::Stop,
            Some(ControlMessage::Continue) => ClientMessage::Continue,
            _ => ClientMessage::Closed,
        },
{
    match msg {
        Some(ControlMessage::Stop) => ClientMessage::Stop,
        Some(ControlMessage::Continue) => ClientMessage::Continue,
        _ => ClientMessage::Closed,
    }
}

/// What a connection reports, by how far it has come.
#[derive(Debug, Clone, Copy, PartialEq, Eq, Structural)]
pub enum ClientInput {
    Pending(StartOutcome),
    Started(ClientMessage),
}

/// What follows for a connection.
#[derive(Debug, Clone, Copy, PartialEq, Eq, Structural)]
pub enum MessageResult {
    Continue,
    Started,
    Disconnect,
    Error,
}

/// A connection of an agent.
#[derive(Debug, Clone, Copy, PartialEq, Eq, Structural)]
pub struct AgentClientState {
    pub client_id: u64,
    pub state: State,
    pub timestamp_ns: u64,
}

impl AgentClientState {
    /// Whether the connection was last heard of no longer than `timeout_ns` before `now_ns`.
    pub open spec fn alive(self, now_ns: u64, timeout_ns: u64) -> bool {
        now_ns - self.timestamp_ns <= timeout_ns
    }

    /// Whether `input` is a report of this connection.
    pub open spec fn reports(self, input: ClientInput) -> bool {
        (self.state == State::Pending) == (input is Pending)
    }

    /// What follows from `input`.
    pub open spec fn result_of(input: ClientInput) -> MessageResult {
        match input {
            ClientInput::Pending(StartOutcome::Waiting) => MessageResult::Continue,
            ClientInput::Pending(StartOutcome::Accepted) => MessageResult::Started,
            ClientInput::Pending(StartOutcome::Failed) => MessageResult::Error,
            ClientInput::Started(ClientMessage::Stop) => MessageResult::Disconnect,
            ClientInput::Started(ClientMessage::Continue) => MessageResult::Continue,
            ClientInput::Started(ClientMessage::Closed) => MessageResult::Disconnect,
            ClientInput::Started(ClientMessage::WouldBlock) => MessageResult::Continue,
            ClientInput::Started(ClientMessage::Failed) => MessageResult::Error,
        }
    }

    /// The connection after `input` at `now_ns`: it starts where it was accepted, and it counts
    /// as heard of where it was accepted or asked to continue.
    pub open spec fn after(self, input: ClientInput, now_ns: u64) -> AgentClientState {
        match input {
            ClientInput::Pending(StartOutcome::Accepted) => AgentClientState {
                state: State::Started,
                timestamp_ns: now_ns,
                ..self
            },
            ClientInput::Started(ClientMessage::Continue) => AgentClientState {
                timestamp_ns: now_ns,
                ..self
            },
            _ => self,
        }
    }

    /// A new connection.
    pub fn new(client_id: u64, now_ns: u64) -> (c: AgentClientState)
        ensures
            c == (AgentClientState { client_id, state: State::Pending, timestamp_ns: now_ns }),
    {
        AgentClientState { client_id, state: State::Pending, timestamp_ns: now_ns }
    }

    /// Whether the connection was last heard of no longer than `timeout_ns` before `now_ns`.
    pub fn timer(&self, now_ns: u64, timeout_ns: u64) -> (alive: bool)
        ensures
            alive == self.alive(now_ns, timeout_ns),
    {
        let elapsed: u64 = now_ns.saturating_sub(self.timestamp_ns);
        elapsed <= timeout_ns
    }

    /// Takes in what the connection reports. The second result tells whether to acknowledge it.
    pub fn handle_message(&mut self, input: ClientInput, now_ns: u64) -> (r: (MessageResult, bool))
        requires
            old(self).reports(input),
        ensures
            r.0 == Self::result_of(input),
            r.1 <==> input == ClientInput::Started(ClientMessage::Stop) || input
                == ClientInput::Started(ClientMessage::Continue),
            *final(self) == old(self).after(input, now_ns),
    {
        match input {
            ClientInput::Pending(outcome) => (self.handle_pending_state(outcome, now_ns), false),
            ClientInput::Started(message) => self.handle_started_state(message, now_ns),
        }
    }

    fn handle_pending_state(&mut self, outcome: StartOutcome, now_ns: u64) -> (r: MessageResult)
        ensures
            r == Self::result_of(ClientInput::Pending(outcome)),
            *final(self) == old(self).after(ClientInput::Pending(outcome), now_ns),
    {
        match outcome {
            StartOutcome::Accepted => {
                self.timestamp_ns = now_ns;
                self.state = State::Started;
                MessageResult::Started
            },
            StartOutcome::Waiting => MessageResult::Continue,
            StartOutcome::Failed => MessageResult::Error,
        }
    }

    fn handle_started_state(&mut self, message: ClientMessage, now_ns: u64) -> (r: (
        MessageResult,
        bool,
    ))
        ensures
            r.0 == Self::result_of(ClientInput::Started(message)),
            r.1 <==> message == ClientMessage::Stop || message == ClientMessage::Continue,
            *final(self) == old(self).after(ClientInput::Started(message), now_ns),
    {
        match message {
            ClientMessage::Stop => (MessageResult::Disconnect, true),
            ClientMessage::Continue => {
                self.timestamp_ns = now_ns;
                (MessageResult::Continue, true)
            },
            ClientMessage::Closed => (MessageResult::Disconnect, false),
            ClientMessage::WouldBlock => (MessageResult::Continue, false),
            ClientMessage::Failed => (MessageResult::Error, false),
        }
    }
}

/// What to do with the connection that has a token.
#[derive(Debug, Clone, Copy, PartialEq, Eq, Structural)]
pub enum EpollAction {
    Add { token: u64 },
    Delete { token: u64 },
}

/// The tokens that `actions` delete, in order.
pub open spec fn deleted(actions: Seq<EpollAction>) -> Seq<u64>
    decreases actions.len(),
{
    if actions.len() == 0 {
        seq![]
    } else {
        match actions.last() {
            EpollAction::Delete { token } => deleted(actions.drop_last()).push(token),
            EpollAction::Add { .. } => deleted(actions.drop_last()),
        }
    }
}

/// The tokens that `actions` delete, in order.
pub fn deleted_tokens(actions: &Vec<EpollAction>) -> (ids: Vec<u64>)
    ensures
        ids@ == deleted(actions@),
{
    let mut ids: Vec<u64> = Vec::new();
    let mut i: usize = 0;
    assert(actions@.take(0) =~= seq![]);
    while i < actions.len()
        invariant
            i <= actions@.len(),
            ids@ == deleted(actions@.take(i as int)),
        decreases actions@.len() - i,
    {
        assert(actions@.take(i + 1).drop_last() =~= actions@.take(i as int));
        if let EpollAction::Delete { token } = actions[i] {
            ids.push(token);
        }
        i += 1;
    }
    assert(actions@.take(i as int) =~= actions@);
    ids
}

/// What becomes of the producer of the process.
#[derive(Debug, Clone, Copy, PartialEq, Eq, Structural)]
pub enum ProducerChange {
    Keep,
    /// The one that was set up for the client that has just started takes its place.
    Install,
    Remove,
}

/// What follows from a report of a connection.
#[derive(Debug, Clone, Copy, PartialEq, Eq, Structural)]
pub struct EventOutcome {
    pub action: Option<EpollAction>,
    pub producer: ProducerChange,
    /// Whether to acknowledge the report.
    pub acknowledge: bool,
}

/// Which part a token has in an agent.
#[derive(Debug, Clone, Copy, PartialEq, Eq, Structural)]
pub enum Role {
    Listener,
    Pending,
    Started,
    Unknown,
}

/// The connections of an agent.
pub struct AgentView {
    pub pending: Map<u64, AgentClientState>,
    pub started: Option<AgentClientState>,
    pub next_client_id: u64,
    pub another_started: bool,
    pub timeout_ns: u64,
}

impl AgentView {
    /// The connections are numbered from one on; the waiting ones and the started one are
    /// different; and the agent knows whether one has started.
    pub open spec fn wf(self) -> bool {
        &&& self.next_client_id > LISTENER_TOKEN
        &&& self.pending.dom().finite()
        &&& forall|id: u64|
            self.pending.contains_key(id) ==> (#[trigger] self.pending[id]).client_id == id
                && self.pending[id].state == State::Pending && LISTENER_TOKEN < id
                && id < self.next_client_id
        &&& self.started matches Some(c) ==> {
            &&& c.state == State::Started
            &&& LISTENER_TOKEN < c.client_id < self.next_client_id
            &&& !self.pending.contains_key(c.client_id)
        }
        &&& self.another_started == (self.started is Some)
    }

    /// The part that `token` has.
    pub open spec fn role(self, token: u64) -> Role {
        if token == LISTENER_TOKEN {
            Role::Listener
        } else if self.pending.contains_key(token) {
            Role::Pending
        } else if self.started is Some && self.started->Some_0.client_id == token {
            Role::Started
        } else {
            Role::Unknown
        }
    }

    /// Whether `input` is a report that the connection `token` can make. No connection starts
    /// while another one has.
    pub open spec fn reports(self, token: u64, input: ClientInput) -> bool {
        match self.role(token) {
            Role::Pending => input is Pending && (input == ClientInput::Pending(
                StartOutcome::Accepted,
            ) ==> !self.another_started),
            Role::Started => input is Started,
            _ => true,
        }
    }

    /// The connections after a report.
    pub open spec fn after_event(self, token: u64, input: ClientInput, now_ns: u64) -> AgentView {
        let result = AgentClientState::result_of(input);
        match self.role(token) {
            Role::Pending => match result {
                MessageResult::Continue => self,
                MessageResult::Started => AgentView {
                    pending: self.pending.remove(token),
                    started: Some(self.pending[token].after(input, now_ns)),
                    another_started: true,
                    ..self
                },
                _ => AgentView { pending: self.pending.remove(token), ..self },
            },
            Role::Started => match result {
                MessageResult::Disconnect | MessageResult::Error => AgentView {
                    started: None,
                    another_started: false,
                    ..self
                },
                _ => AgentView {
                    started: Some(self.started->Some_0.after(input, now_ns)),
                    ..self
                },
            },
            _ => self,
        }
    }

    /// What follows from a report.
    pub open spec fn event_outcome(self, token: u64, input: ClientInput) -> EventOutcome {
        let result = AgentClientState::result_of(input);
        let gone = result == MessageResult::Disconnect || result == MessageResult::Error;
        match self.role(token) {
            Role::Pending => EventOutcome {
                action: if gone {
                    Some(EpollAction::Delete { token })
                } else {
                    None
                },
                producer: if result == MessageResult::Started {
                    ProducerChange::Install
                } else {
                    ProducerChange::Keep
                },
                acknowledge: false,
            },
            Role::Started => EventOutcome {
                action: if gone {
                    Some(EpollAction::Delete { token })
                } else {
                    None
                },
                producer: if gone {
                    ProducerChange::Remove
                } else {
                    ProducerChange::Keep
                },
                acknowledge: input == ClientInput::Started(ClientMessage::Stop) || input
                    == ClientInput::Started(ClientMessage::Continue),
            },
            _ => EventOutcome {
                action: None,
                producer: ProducerChange::Keep,
                acknowledge: false,
            },
        }
    }

    /// The waiting connections that are still alive at `now_ns`.
    pub open spec fn alive_pending(self, now_ns: u64) -> Map<u64, AgentClientState> {
        self.pending.restrict(
            Set::new(
                |id: u64|
                    self.pending.contains_key(id) && self.pending[id].alive(
                        now_ns,
                        self.timeout_ns,
                    ),
            ),
        )
    }

    /// Whether the connection that has started is still alive at `now_ns`.
    pub open spec fn started_alive(self, now_ns: u64) -> bool {
        self.started matches Some(c) ==> c.alive(now_ns, self.timeout_ns)
    }

    /// The connections once those are gone that were silent for too long.
    pub open spec fn after_timer(self, now_ns: u64) -> AgentView {
        AgentView {
            pending: self.alive_pending(now_ns),
            started: if self.started_alive(now_ns) {
                self.started
            } else {
                None
            },
            another_started: self.another_started && self.started_alive(now_ns),
            ..self
        }
    }
}

/// The connections of an agent.
pub struct AgentState {
    pending_clients: HashMap<u64, AgentClientState>,
    started_client: Option<AgentClientState>,
    next_client_id: u64,
    ctx: AgentContext,
    timeout_ns: u64,
}

impl View for AgentState {
    type V = AgentView;

    closed spec fn view(&self) -> AgentView {
        AgentView {
            pending: self.pending_clients@,
            started: self.started_client,
            next_client_id: self.next_client_id,
            another_started: self.ctx.another_started,
            timeout_ns: self.timeout_ns,
        }
    }
}

impl AgentState {
    /// An agent without connections, whose clients may stay silent for `timeout_ms`.
    pub fn new(timeout_ms: u16) -> (a: AgentState)
        ensures
            a@ == (AgentView {
                pending: Map::empty(),
                started: None,
                next_client_id: 1,
                another_started: false,
                timeout_ns: (timeout_ms * 1_000_000) as u64,
            }),
            a@.wf(),
    {
        AgentState {
            pending_clients: HashMap::new(),
            started_client: None,
            next_client_id: 1,
            ctx: AgentContext { another_started: false },
            timeout_ns: timeout_ms as u64 * 1_000_000,
        }
    }

    /// Whether a client has started.
    pub fn another_started(&self) -> (b: bool)
        ensures
            b == self@.another_started,
    {
        self.ctx.another_started
    }

    /// The part that `token` has.
    pub fn role(&self, token: u64) -> (r: Role)
        ensures
            r == self@.role(token),
    {
        if token == LISTENER_TOKEN {
            return Role::Listener;
        }
        if self.pending_clients.contains_key(&token) {
            return Role::Pending;
        }
        match &self.started_client {
            Some(client) => if client.client_id == token {
                Role::Started
            } else {
                Role::Unknown
            },
            None => Role::Unknown,
        }
    }

    /// Takes a new connection in. Its number is used up in any case; where the connection could
    /// not be set up, nothing else changes.
    pub fn accept_connection(&mut self, set_up: bool, now_ns: u64) -> (r: Option<
        (u64, EpollAction),
    >)
        requires
            old(self)@.wf(),
            old(self)@.next_client_id < u64::MAX,
        ensures
            final(self)@.wf(),
            ({
                let id = old(self)@.next_client_id;
                &&& r == if set_up {
                    Some((id, EpollAction::Add { token: id }))
                } else {
                    None
                }
                &&& final(self)@ == (AgentView {
                    next_client_id: (id + 1) as u64,
                    pending: if set_up {
                        old(self)@.pending.insert(
                            id,
                            AgentClientState {
                                client_id: id,
                                state: State::Pending,
                                timestamp_ns: now_ns,
                            },
                        )
                    } else {
                        old(self)@.pending
                    },
                    ..old(self)@
                })
            }),
    {
        let client_id: u64 = self.next_client_id;
        self.next_client_id = self.next_client_id + 1;
        if !set_up {
            return None;
        }
        self.pending_clients.insert(client_id, AgentClientState::new(client_id, now_ns));
        Some((client_id, EpollAction::Add { token: client_id }))
    }

    /// Takes in what the connection `token` reports.
    pub fn handle_event(&mut self, token: u64, input: ClientInput, now_ns: u64) -> (o: EventOutcome)
        requires
            old(self)@.wf(),
            old(self)@.reports(token, input),
        ensures
            final(self)@.wf(),
            final(self)@ == old(self)@.after_event(token, input, now_ns),
            o == old(self)@.event_outcome(token, input),
    {
        let none = EventOutcome {
            action: None,
            producer: ProducerChange::Keep,
            acknowledge: false,
        };
        if let Some(pending) = self.pending_clients.remove(&token) {
            let mut client = pending;
            assert(old(self)@.pending[token] == client);
            let (result, acknowledge) = client.handle_message(input, now_ns);
            match result {
                MessageResult::Continue => {
                    self.pending_clients.insert(token, client);
                    assert(self@.pending =~= old(self)@.pending);
                    EventOutcome { action: None, producer: ProducerChange::Keep, acknowledge }
                },
                MessageResult::Started => {
                    self.ctx.another_started = true;
                    self.started_client = Some(client);
                    EventOutcome { action: None, producer: ProducerChange::Install, acknowledge }
                },
                MessageResult::Disconnect | MessageResult::Error => {
                    EventOutcome {
                        action: Some(EpollAction::Delete { token }),
                        producer: ProducerChange::Keep,
                        acknowledge,
                    }
                },
            }
        } else {
            assert(self@.pending =~= old(self)@.pending);
            match self.started_client {
                None => none,
                Some(started) => {
                    if started.client_id != token {
                        return none;
                    }
                    let mut client = started;
                    let (result, acknowledge) = client.handle_message(input, now_ns);
                    match result {
                        MessageResult::Continue | MessageResult::Started => {
                            self.started_client = Some(client);
                            EventOutcome {
                                action: None,
                                producer: ProducerChange::Keep,
                                acknowledge,
                            }
                        },
                        MessageResult::Disconnect | MessageResult::Error => {
                            self.started_client = None;
                            self.ctx.another_started = false;
                            EventOutcome {
                                action: Some(EpollAction::Delete { token }),
                                producer: ProducerChange::Remove,
                                acknowledge,
                            }
                        },
                    }
                },
            }
        }
    }
}

/// What follows from a look at the clock.
pub struct TimerOutcome {
    pub actions: Vec<EpollAction>,
    pub producer: ProducerChange,
}

impl AgentView {
    /// Whether the connection `token` was silent for too long at `now_ns`.
    pub open spec fn timed_out(self, token: u64, now_ns: u64) -> bool {
        ||| self.pending.contains_key(token) && !self.pending[token].alive(now_ns, self.timeout_ns)
        ||| self.started matches Some(c) && c.client_id == token && !c.alive(
            now_ns,
            self.timeout_ns,
        )
    }
}

impl AgentState {
    /// The waiting connections that were silent for too long, in no particular order.
    fn timed_out_pending(&self, now_ns: u64) -> (ids: Vec<u64>)
        ensures
            ids@.no_duplicates(),
            forall|id: u64| #[trigger]
                ids@.contains(id) <==> self@.pending.contains_key(id) && !self@.pending[id].alive(
                    now_ns,
                    self@.timeout_ns,
                ),
    {
        let mut ids: Vec<u64> = Vec::new();
        for (client_id, client) in it: self.pending_clients.iter()
            invariant
                it.seq().no_duplicates(),
                it.seq().len() == self@.pending.dom().len(),
                forall|i: int|
                    #![trigger it.seq()[i]]
                    0 <= i < it.seq().len() ==> self@.pending.contains_key(*it.seq()[i].0)
                        && self@.pending[*it.seq()[i].0] == *it.seq()[i].1,
                forall|k: u64| #[trigger]
                    self@.pending.contains_key(k) ==> it.seq().contains((&k, &self@.pending[k])),
                ids@.no_duplicates(),
                forall|j: int|
                    0 <= j < ids@.len() ==> self@.pending.contains_key(#[trigger] ids@[j])
                        && !self@.pending[ids@[j]].alive(now_ns, self@.timeout_ns) && it.seq().take(
                        it.index() as int,
                    ).contains((&ids@[j], &self@.pending[ids@[j]])),
                forall|i: int|
                    0 <= i < it.index() && !(#[trigger] it.seq()[i]).1.alive(
                        now_ns,
                        self@.timeout_ns,
                    ) ==> ids@.contains(*it.seq()[i].0),
        {
            let ghost before = ids@;
            proof {
                let at = it.index() as int;
                let seen = it.seq().take(at);
                let seen_next = it.seq().take(at + 1);
                assert(seen_next =~= seen.push(it.seq()[at]));
                assert(seen_next[at] == it.seq()[at]);
                assert forall|j: int| 0 <= j < before.len() implies seen_next.contains(
                    (&(#[trigger] before[j]), &self@.pending[before[j]]),
                ) by {
                    let pair = (&before[j], &self@.pending[before[j]]);
                    let i = choose|i: int| 0 <= i < seen.len() && seen[i] == pair;
                    assert(seen_next[i] == pair);
                }
            }
            if !client.timer(now_ns, self.timeout_ns) {
                ids.push(*client_id);
                proof {
                    let at = it.index() as int;
                    assert(*it.seq()[at].0 == *client_id);
                    assert forall|j: int| 0 <= j < before.len() implies before[j]
                        != *client_id by {
                        if before[j] == *client_id {
                            let pair = (&before[j], &self@.pending[before[j]]);
                            assert(it.seq().take(at).contains(pair));
                            let i = choose|i: int|
                                0 <= i < at && it.seq().take(at)[i] == pair;
                            assert(it.seq()[i] == it.seq()[at]);
                        }
                    }
                    assert(ids@[before.len() as int] == *client_id);
                    assert forall|i: int|
                        0 <= i <= at && !(#[trigger] it.seq()[i]).1.alive(
                            now_ns,
                            self@.timeout_ns,
                        ) implies ids@.contains(*it.seq()[i].0) by {
                        if i < at {
                            let j = choose|j: int|
                                0 <= j < before.len() && before[j] == *it.seq()[i].0;
                            assert(ids@[j] == *it.seq()[i].0);
                        }
                    }
                }
            }
        }
        ids
    }

    /// Drops the connections that were silent for too long: each of them is deleted once, and
    /// with the one that has started goes the producer.
    pub fn timer(&mut self, now_ns: u64) -> (o: TimerOutcome)
        requires
            old(self)@.wf(),
        ensures
            final(self)@.wf(),
            final(self)@ == old(self)@.after_timer(now_ns),
            o.actions@.no_duplicates(),
            forall|a: EpollAction| #[trigger]
                o.actions@.contains(a) <==> (a matches EpollAction::Delete { token } && old(
                    self,
                )@.timed_out(token, now_ns)),
            o.producer == if old(self)@.started_alive(now_ns) {
                ProducerChange::Keep
            } else {
                ProducerChange::Remove
            },
    {
        let mut actions: Vec<EpollAction> = Vec::new();
        let timed_out: Vec<u64> = self.timed_out_pending(now_ns);
        let mut i: usize = 0;
        while i < timed_out.len()
            invariant
                i <= timed_out@.len(),
                old(self)@.wf(),
                self@ == (AgentView { pending: self@.pending, ..old(self)@ }),
                forall|id: u64| #[trigger]
                    self@.pending.contains_key(id) <==> old(self)@.pending.contains_key(id)
                        && !timed_out@.take(i as int).contains(id),
                forall|id: u64| #[trigger]
                    self@.pending.contains_key(id) ==> self@.pending[id] == old(self)@.pending[id],
                timed_out@.no_duplicates(),
                forall|id: u64| #[trigger]
                    timed_out@.contains(id) <==> old(self)@.pending.contains_key(id) && !old(
                        self,
                    )@.pending[id].alive(now_ns, old(self)@.timeout_ns),
                actions@ == Seq::new(
                    i as nat,
                    |k: int| EpollAction::Delete { token: timed_out@[k] },
                ),
            decreases timed_out@.len() - i,
        {
            let client_id: u64 = timed_out[i];
            let ghost before = self@.pending;
            self.pending_clients.remove(&client_id);
            actions.push(EpollAction::Delete { token: client_id });
            i += 1;
            proof {
                assert(timed_out@.contains(timed_out@[i - 1]));
                assert(timed_out@.take(i as int) =~= timed_out@.take(i - 1).push(client_id));
                assert forall|id: u64| #[trigger]
                    self@.pending.contains_key(id) <==> old(self)@.pending.contains_key(id)
                        && !timed_out@.take(i as int).contains(id) by {
                    let shorter = timed_out@.take(i - 1);
                    if id == client_id {
                        assert(timed_out@.take(i as int)[i - 1] == id);
                    } else {
                        if shorter.contains(id) {
                            let k = choose|k: int| 0 <= k < shorter.len() && shorter[k] == id;
                            assert(timed_out@.take(i as int)[k] == id);
                        }
                        if timed_out@.take(i as int).contains(id) {
                            let k = choose|k: int|
                                0 <= k < i && timed_out@.take(i as int)[k] == id;
                            assert(shorter[k] == id);
                        }
                    }
                }
                assert(actions@ =~= Seq::new(
                    i as nat,
                    |k: int| EpollAction::Delete { token: timed_out@[k] },
                ));
            }
        }
        assert(timed_out@.take(i as int) =~= timed_out@);
        assert(self@.pending =~= old(self)@.alive_pending(now_ns));
        proof {
            assert forall|a: EpollAction| #[trigger] actions@.contains(a) <==> (a matches EpollAction::Delete { token }
                && timed_out@.contains(token)) by {
                if let EpollAction::Delete { token } = a {
                    if timed_out@.contains(token) {
                        let k = choose|k: int| 0 <= k < timed_out@.len() && timed_out@[k] == token;
                        assert(actions@[k] == a);
                    }
                    if actions@.contains(a) {
                        let k = choose|k: int| 0 <= k < actions@.len() && actions@[k] == a;
                        assert(timed_out@[k] == token);
                    }
                }
            }
        }
        let mut producer = ProducerChange::Keep;
        if let Some(client) = self.started_client {
            if !client.timer(now_ns, self.timeout_ns) {
                let ghost before = actions@;
                let last = EpollAction::Delete { token: client.client_id };
                actions.push(last);
                self.started_client = None;
                self.ctx.another_started = false;
                producer = ProducerChange::Remove;
                proof {
                    assert(!before.contains(last));
                    assert(actions@[before.len() as int] == last);
                    assert forall|a: EpollAction| #[trigger] actions@.contains(a) <==> before.contains(
                        a,
                    ) || a == last by {
                        if before.contains(a) {
                            let k = choose|k: int| 0 <= k < before.len() && before[k] == a;
                            assert(actions@[k] == a);
                        }
                    }
                }
            }
        }
        TimerOutcome { actions, producer }
    }
}

} // verus!
