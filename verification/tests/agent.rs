use manytrace::agent::agent_state::{
    classify_message, deleted_tokens, ClientInput, ClientMessage, EpollAction, ProducerChange,
    Role, StartOutcome, CLIENT_TIMEOUT_NS,
};
use manytrace::agent::client::{AgentClient, SendOutcome, StartReply};
use manytrace::agent::connection::{
    ConnectDecision, ConnectRequest, ConnectionState, SessionMessage,
};
use manytrace::agent::error::IoErrorKind;
use manytrace::agent::process::{
    process_name_event, AfterName, ProcessIdentity, ThreadNameGate,
};
use manytrace::agent::start::{
    decide_start, decide_start_with, find_fd_pair, FirstMessage, StartDecision, TracingArgs,
};
use manytrace::agent::{AgentError, AgentState, ExtensionError};
use manytrace::protocol::{ControlMessage, Event, LogLevel, TimestampType};

fn request(log_filter: &str, fd_groups: Vec<usize>) -> FirstMessage {
    FirstMessage::Start {
        buffer_size: 8192,
        args: TracingArgs {
            log_filter: log_filter.to_string(),
            timestamp_type: TimestampType::Monotonic,
        },
        fd_groups,
    }
}

fn is_io(e: &AgentError, kind: IoErrorKind, words: &str) -> bool {
    matches!(e, AgentError::Io(k, t) if *k == kind && t == words)
}

#[test]
fn a_request_with_descriptors_is_accepted() {
    match decide_start(false, &request("info", vec![1, 2])) {
        StartDecision::Accept { buffer_size, fd_group } => {
            assert_eq!(buffer_size, 8192);
            assert_eq!(fd_group, 1);
        }
        _ => panic!("not accepted"),
    }
}

#[test]
fn a_bad_log_filter_is_refused_with_words() {
    match decide_start(false, &request("a=b=c", vec![2])) {
        StartDecision::Reject(words) => {
            assert!(words.starts_with("Invalid log filter 'a=b=c': "));
            assert!(words.len() > "Invalid log filter 'a=b=c': ".len());
        }
        _ => panic!("not refused"),
    }
    match decide_start_with(false, &request("x", vec![2]), Some("why".to_string())) {
        StartDecision::Reject(words) => assert_eq!(words, "Invalid log filter 'x': why"),
        _ => panic!("not refused"),
    }
}

fn accepted(filter: &str) -> bool {
    matches!(
        decide_start(false, &request(filter, vec![2])),
        StartDecision::Accept { .. }
    )
}

fn words_against(filter: &str) -> String {
    match decide_start(false, &request(filter, vec![2])) {
        StartDecision::Reject(words) => {
            let start = format!("Invalid log filter '{}': ", filter);
            assert!(words.starts_with(&start));
            words[start.len()..].to_string()
        }
        _ => panic!("not refused"),
    }
}

#[test]
fn log_filters_are_not_cut_inside_of_characters() {
    let cut = "white space before a directive with characters outside ASCII";
    for filter in [
        " x\u{e9}=info",
        "info, x\u{e9}=info",
        "\u{2003}x=info",
        " [\u{e9}]",
        " [x{\u{e9}}]",
        " a[\u{e9}{b}]=info",
        "  [x{a=\u{20ac}}]=info",
        "    [x{a=\u{e9}\u{e9}}]=info",
        "  \u{e9}\u{e9}=info",
        " \u{e9}\u{e9}[x",
    ] {
        assert_eq!(words_against(filter), cut);
    }
    // All cuts fall between characters.
    for filter in [
        " x\u{e9}",
        " \u{e9}",
        "info, x\u{e9}",
        "   \u{e9}=info",
        " x=inf\u{e9}",
        " [x]\u{e9}",
        "  \u{e9}\u{e9}[x",
        "x\u{e9}=info",
        "x\u{e9}=info,debug",
        "\u{2003}info",
    ] {
        assert_eq!(
            accepted(filter),
            tracing_subscriber::EnvFilter::try_new(filter).is_ok(),
            "{}",
            filter
        );
    }
    assert!(accepted(" x\u{e9}"));
    assert!(accepted("info, \u{e9}"));
}

#[test]
fn other_objections_to_log_filters_come_first() {
    for filter in [
        "a=b=c, x\u{e9}=info",
        "[x{a=(}]=info, x\u{e9}=info",
        " \u{20ac}\u{20ac}=info",
        "    [=({a\u{e9}\u{e9}}]=info",
    ] {
        match tracing_subscriber::EnvFilter::try_new(filter) {
            Ok(_) => panic!("no objection"),
            Err(e) => assert_eq!(words_against(filter), e.to_string()),
        }
    }
    assert_ne!(words_against("[x{a=(}]=info, x\u{e9}=info"), words_against("a=b=c"));
}

#[test]
fn an_empty_log_filter_is_accepted() {
    assert!(matches!(
        decide_start(false, &request("", vec![2])),
        StartDecision::Accept { buffer_size: 8192, fd_group: 0 }
    ));
}

#[test]
fn a_second_client_is_refused() {
    match decide_start(true, &request("info", vec![2])) {
        StartDecision::Reject(words) => assert_eq!(words, "another client already started"),
        _ => panic!("not refused"),
    }
}

#[test]
fn a_request_without_descriptors_fails() {
    match decide_start(false, &request("info", vec![0, 1])) {
        StartDecision::Fail(e) => {
            assert!(is_io(&e, IoErrorKind::InvalidData, "failed to receive memory fd"))
        }
        _ => panic!("not failed"),
    }
    assert_eq!(find_fd_pair(&vec![]), None);
    assert_eq!(find_fd_pair(&vec![1, 3, 2]), Some(1));
}

#[test]
fn other_first_messages_are_ignored() {
    assert!(matches!(decide_start(false, &FirstMessage::Nothing), StartDecision::Ignore));
    assert!(matches!(decide_start(false, &FirstMessage::Other), StartDecision::Ignore));
}

#[test]
fn a_client_starts_continues_and_stops() {
    let mut agent = AgentState::new(2000);
    let (id, action) = match agent.accept_connection(true, 5) {
        Some(x) => x,
        None => panic!("not taken in"),
    };
    assert_eq!(id, 1);
    assert_eq!(action, EpollAction::Add { token: 1 });
    assert!(matches!(agent.role(0), Role::Listener));
    assert!(matches!(agent.role(1), Role::Pending));
    assert!(matches!(agent.role(2), Role::Unknown));
    assert!(!agent.another_started());

    let o = agent.handle_event(1, ClientInput::Pending(StartOutcome::Waiting), 6);
    assert_eq!(o.action, None);
    assert_eq!(o.producer, ProducerChange::Keep);

    let o = agent.handle_event(1, ClientInput::Pending(StartOutcome::Accepted), 7);
    assert_eq!(o.action, None);
    assert_eq!(o.producer, ProducerChange::Install);
    assert!(agent.another_started());
    assert!(matches!(agent.role(1), Role::Started));

    let o = agent.handle_event(1, ClientInput::Started(ClientMessage::Continue), 8);
    assert_eq!(o.action, None);
    assert_eq!(o.producer, ProducerChange::Keep);

    let o = agent.handle_event(1, ClientInput::Started(ClientMessage::Stop), 9);
    assert_eq!(o.action, Some(EpollAction::Delete { token: 1 }));
    assert_eq!(o.producer, ProducerChange::Remove);
    assert!(!agent.another_started());
    assert!(matches!(agent.role(1), Role::Unknown));
}

#[test]
fn a_failed_start_drops_the_connection_only() {
    let mut agent = AgentState::new(2000);
    agent.accept_connection(true, 0);
    agent.accept_connection(true, 0);
    let o = agent.handle_event(1, ClientInput::Pending(StartOutcome::Failed), 1);
    assert_eq!(o.action, Some(EpollAction::Delete { token: 1 }));
    assert_eq!(o.producer, ProducerChange::Keep);
    assert!(matches!(agent.role(2), Role::Pending));
}

#[test]
fn numbers_are_used_up_by_failed_connections() {
    let mut agent = AgentState::new(2000);
    assert!(agent.accept_connection(false, 0).is_none());
    match agent.accept_connection(true, 0) {
        Some((id, _)) => assert_eq!(id, 2),
        None => panic!("not taken in"),
    }
}

#[test]
fn test_handle_event_nonexistent_client() {
    let mut agent = AgentState::new(2000);
    for input in [
        ClientInput::Pending(StartOutcome::Accepted),
        ClientInput::Pending(StartOutcome::Failed),
        ClientInput::Started(ClientMessage::Continue),
        ClientInput::Started(ClientMessage::Stop),
    ] {
        let o = agent.handle_event(999, input, 5);
        assert!(o.action.is_none());
        assert_eq!(o.producer, ProducerChange::Keep);
        assert!(!o.acknowledge);
    }
    // The connections that are known stay as they are.
    assert!(agent.accept_connection(true, 6).is_some());
    let o = agent.handle_event(999, ClientInput::Pending(StartOutcome::Accepted), 7);
    assert!(o.action.is_none());
    let o = agent.handle_event(1, ClientInput::Pending(StartOutcome::Accepted), 8);
    assert_eq!(o.producer, ProducerChange::Install);
    let o = agent.handle_event(999, ClientInput::Started(ClientMessage::Stop), 9);
    assert!(o.action.is_none());
    let o = agent.handle_event(1, ClientInput::Started(ClientMessage::Stop), 10);
    assert_eq!(o.producer, ProducerChange::Remove);
}

#[test]
fn silent_clients_are_dropped() {
    let mut agent = AgentState::new(2000);
    agent.accept_connection(true, 0);
    agent.accept_connection(true, 1_000_000_000);
    agent.handle_event(1, ClientInput::Pending(StartOutcome::Accepted), 0);
    let o = agent.timer(2_000_000_000);
    assert!(o.actions.is_empty());
    assert_eq!(o.producer, ProducerChange::Keep);
    let o = agent.timer(2_000_000_001);
    assert_eq!(o.actions, vec![EpollAction::Delete { token: 1 }]);
    assert_eq!(deleted_tokens(&o.actions), vec![1]);
    assert_eq!(o.producer, ProducerChange::Remove);
    assert!(matches!(agent.role(2), Role::Pending));
    let o = agent.timer(3_000_000_001);
    assert_eq!(deleted_tokens(&o.actions), vec![2]);
    assert_eq!(CLIENT_TIMEOUT_NS, 2_000_000_000);
}

#[test]
fn a_continuing_client_is_kept() {
    let mut agent = AgentState::new(2000);
    agent.accept_connection(true, 0);
    agent.handle_event(1, ClientInput::Pending(StartOutcome::Accepted), 0);
    agent.handle_event(1, ClientInput::Started(ClientMessage::Continue), 1_900_000_000);
    assert!(agent.timer(3_900_000_000).actions.is_empty());
    assert_eq!(agent.timer(3_900_000_001).actions.len(), 1);
}

#[test]
fn messages_are_told_apart() {
    assert_eq!(classify_message(Some(&ControlMessage::Stop)), ClientMessage::Stop);
    assert_eq!(classify_message(Some(&ControlMessage::Continue)), ClientMessage::Continue);
}

#[test]
fn an_acknowledged_client_is_enabled() {
    let mut client = AgentClient::new("/tmp/manytrace.sock".to_string());
    assert_eq!(client.socket_path(), "/tmp/manytrace.sock");
    assert!(!client.enabled());
    assert!(client.start(StartReply::Ack).is_ok());
    assert!(client.enabled());
    assert!(client.keepalive(SendOutcome::Sent).is_ok());
    assert!(client.stop(SendOutcome::Sent).is_ok());
    assert!(!client.enabled());
    match client.keepalive(SendOutcome::Sent) {
        Err(e) => assert_eq!(e.message(""), "Agent not enabled"),
        Ok(()) => panic!("kept alive"),
    }
}

#[test]
fn a_refused_client_learns_why() {
    let mut client = AgentClient::new("s".to_string());
    match client.start(StartReply::Nack(b"busy".to_vec())) {
        Err(e) => assert_eq!(e.message(""), "IO error: agent rejected start: busy"),
        Ok(()) => panic!("started"),
    }
    match client.start(StartReply::Nack(vec![0xff])) {
        Err(e) => assert_eq!(e.message(""), "IO error: agent rejected start: unknown error"),
        Ok(()) => panic!("started"),
    }
    match client.start(StartReply::TimedOut) {
        Err(e) => assert!(is_io(
            &e,
            IoErrorKind::TimedOut,
            "timeout waiting for agent response"
        )),
        Ok(()) => panic!("started"),
    }
    match client.start(StartReply::NoData) {
        Err(e) => assert!(is_io(&e, IoErrorKind::WouldBlock, "no data available")),
        Ok(()) => panic!("started"),
    }
    match client.start(StartReply::Other) {
        Err(e) => assert!(is_io(&e, IoErrorKind::Other, "unexpected response from agent")),
        Ok(()) => panic!("started"),
    }
    match client.start(StartReply::Failed(AgentError::Nix("EPIPE".to_string()))) {
        Err(e) => assert_eq!(e.message(""), "System error: EPIPE"),
        Ok(()) => panic!("started"),
    }
    assert!(!client.enabled());
}

#[test]
fn requests_that_would_block_fail() {
    let mut client = AgentClient::new("s".to_string());
    assert!(client.stop(SendOutcome::WouldBlock).is_ok());
    assert!(client.send_continue(SendOutcome::WouldBlock).is_ok());
    assert!(client.start(StartReply::Ack).is_ok());
    match client.stop(SendOutcome::WouldBlock) {
        Err(e) => assert!(is_io(&e, IoErrorKind::WouldBlock, "stop message would block")),
        Ok(()) => panic!("stopped"),
    }
    assert!(client.enabled());
    match client.send_continue(SendOutcome::WouldBlock) {
        Err(e) => assert!(is_io(&e, IoErrorKind::WouldBlock, "continue message would block")),
        Ok(()) => panic!("continued"),
    }
    assert!(client.stop(SendOutcome::BrokenPipe(AgentError::Nix("x".to_string()))).is_ok());
    assert!(!client.enabled());
}

#[test]
fn the_request_carries_the_buffer() {
    match AgentClient::start_message(4096, LogLevel::Debug, TimestampType::Boottime) {
        ControlMessage::Start { buffer_size, log_level, timestamp_type } => {
            assert_eq!(buffer_size, 4096);
            assert_eq!(log_level, LogLevel::Debug);
            assert_eq!(timestamp_type, TimestampType::Boottime);
        }
        _ => panic!("another message"),
    }
}

fn connect(force: bool, fd_groups: Vec<usize>) -> ConnectRequest {
    ConnectRequest::Start {
        buffer_size: 4096,
        keepalive_interval_ns: 100,
        pid: 77,
        force,
        fd_groups,
    }
}

#[test]
fn one_producer_at_a_time() {
    let mut state = ConnectionState::new();
    assert!(matches!(
        state.handle_client_connection(&connect(false, vec![2])),
        ConnectDecision::Accept { buffer_size: 4096, fd_group: 0 }
    ));
    state.producer_set_up(100, -77, 5);
    match state.handle_client_connection(&connect(false, vec![2])) {
        ConnectDecision::Reject(words) => {
            assert_eq!(words, "producer already exists for pid -77")
        }
        _ => panic!("not refused"),
    }
    assert!(matches!(
        state.handle_client_connection(&connect(true, vec![2])),
        ConnectDecision::Accept { .. }
    ));
    assert!(matches!(
        state.handle_client_connection(&connect(true, vec![])),
        ConnectDecision::Fail(_)
    ));
    assert!(matches!(
        state.handle_client_connection(&ConnectRequest::Other),
        ConnectDecision::Close
    ));
    assert!(state.handle_agent_connection(SessionMessage::Continue, 9));
    assert_eq!(state.last_continue_ns, 9);
    assert!(state.handle_agent_connection(SessionMessage::Other, 10));
    assert!(!state.handle_agent_connection(SessionMessage::Disconnected, 10));
    assert!(state.has_producer);
    assert!(!state.handle_agent_connection(SessionMessage::Stop, 11));
    assert!(!state.has_producer);
}

#[test]
fn processes_and_threads_are_named() {
    let mut id = ProcessIdentity::new(42);
    assert_eq!(id.get_process_id(), 42);
    id.set_process_id(-3);
    assert_eq!(id.get_process_id(), -3);
    match process_name_event(Some("prog"), 42) {
        Event::ProcessName(n) => {
            assert_eq!(n.name, "prog");
            assert_eq!(n.pid, 42);
        }
        _ => panic!("another event"),
    }
    match process_name_event(None, 42) {
        Event::ProcessName(n) => assert_eq!(n.name, "unknown"),
        _ => panic!("another event"),
    }
    let mut gate = ThreadNameGate::new();
    match gate.pending_event(Some("worker"), 5, 42) {
        Some(n) => {
            assert_eq!(n.name, "worker");
            assert_eq!(n.tid, 5);
            assert_eq!(n.pid, 42);
        }
        None => panic!("no name"),
    }
    assert!(gate.pending_event(None, 5, 42).is_none());
    assert!(matches!(
        gate.noted(Err(AgentError::NotEnabled)),
        AfterName::Fail(AgentError::NotEnabled)
    ));
    assert!(gate.pending_event(Some("worker"), 5, 42).is_some());
    gate.tried();
    assert!(gate.pending_event(Some("worker"), 5, 42).is_none());
}

#[test]
fn agent_failures_have_words() {
    assert_eq!(
        AgentError::Archive("short".to_string()).message(""),
        "Archive error: short"
    );
    assert_eq!(AgentError::Other("odd".to_string()).message(""), "odd");
    assert_eq!(
        ExtensionError::ValidationError("bad".to_string()).message(),
        "validation error: bad"
    );
}
