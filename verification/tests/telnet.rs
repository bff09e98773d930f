use draugr::telnet::{
    io_error_event, ConnectionState, IoAction, NegotiationAction, ProtocolEvent, ProtocolOption,
    SocketCommand, TelnetEvent, TelnetRequest,
};

fn info_text(ev: &TelnetEvent) -> &str {
    match ev {
        TelnetEvent::Info(m) => m,
        _ => panic!("expected an info event"),
    }
}

fn error_text(ev: &TelnetEvent) -> &str {
    match ev {
        TelnetEvent::Error(m) => m,
        _ => panic!("expected an error event"),
    }
}

#[test]
fn send_while_disconnected_yields_an_error() {
    let st = ConnectionState::new();
    assert!(!st.connected());
    let (events, action, stop) = st.handle_request(&TelnetRequest::Send("look".to_string()));
    assert_eq!(events.len(), 1);
    assert_eq!(error_text(&events[0]), "Connection is closed");
    assert!(action.is_none());
    assert!(!stop);
    assert!(!st.connected());
}

#[test]
fn connect_request_announces_and_opens() {
    let st = ConnectionState::new();
    let (events, action, stop) = st.handle_request(
        &TelnetRequest::Connect("example.org".to_string(), 4000),
    );
    assert_eq!(events.len(), 1);
    assert_eq!(info_text(&events[0]), "Connecting to example.org:4000...");
    match action {
        Some(IoAction::OpenConnection(host, port)) => {
            assert_eq!(host, "example.org");
            assert_eq!(port, 4000);
        },
        _ => panic!("expected an open-connection action"),
    }
    assert!(!stop);
}

#[test]
fn failure_while_connected_warns_once_then_sends_error_until_reconnect() {
    let mut st = ConnectionState::new();
    let events = st.handle_connect_result(true, String::new());
    assert_eq!(events.len(), 1);
    assert_eq!(info_text(&events[0]), "Connected.");
    assert!(st.connected());

    // A send goes through while connected.
    let (events, action, _) = st.handle_request(&TelnetRequest::Send("north".to_string()));
    assert!(events.is_empty());
    match action {
        Some(IoAction::WriteLine(line)) => assert_eq!(line, "north"),
        _ => panic!("expected a write action"),
    }

    // The read fails: exactly one error, then exactly one warning.
    let events = st.handle_recv_failure("read: connection reset".to_string());
    assert_eq!(events.len(), 2);
    assert_eq!(error_text(&events[0]), "read: connection reset");
    match &events[1] {
        TelnetEvent::Warning(m) => assert_eq!(m, "Disconnected."),
        _ => panic!("expected a warning event"),
    }
    assert!(!st.connected());

    // Until a new connect succeeds, sends are refused.
    let (events, action, _) = st.handle_request(&TelnetRequest::Send("north".to_string()));
    assert_eq!(events.len(), 1);
    assert_eq!(error_text(&events[0]), "Connection is closed");
    assert!(action.is_none());

    let _ = st.handle_connect_result(true, String::new());
    assert!(st.connected());
    let (_, action, _) = st.handle_request(&TelnetRequest::Send("north".to_string()));
    assert!(matches!(action, Some(IoAction::WriteLine(_))));
}

#[test]
fn failed_connect_keeps_state_and_reports() {
    let mut st = ConnectionState::new();
    let events = st.handle_connect_result(false, "no route to host".to_string());
    assert_eq!(events.len(), 1);
    assert_eq!(error_text(&events[0]), "no route to host");
    assert!(!st.connected());
}

#[test]
fn disconnect_stops_only_when_connected() {
    let mut st = ConnectionState::new();
    let (events, _, stop) = st.handle_request(&TelnetRequest::Disconnect);
    assert!(!stop);
    assert_eq!(error_text(&events[0]), "Connection is closed");

    let _ = st.handle_connect_result(true, String::new());
    let (events, _, stop) = st.handle_request(&TelnetRequest::Disconnect);
    assert!(events.is_empty());
    assert!(stop);
}

#[test]
fn shutdown_always_stops() {
    let st = ConnectionState::new();
    let (events, action, stop) = st.handle_request(&TelnetRequest::Shutdown);
    assert!(events.is_empty());
    assert!(action.is_none());
    assert!(stop);
}

#[test]
fn data_is_surfaced_as_a_data_event() {
    let st = ConnectionState::new();
    let (events, commands) = st.handle_protocol_event(
        ProtocolEvent::Data("You are standing in a field.".to_string()),
    );
    assert!(commands.is_empty());
    assert_eq!(events.len(), 1);
    match &events[0] {
        TelnetEvent::Data(s) => assert_eq!(s, "You are standing in a field."),
        _ => panic!("expected a data event"),
    }
}

#[test]
fn timeout_and_end_of_prompt_are_absorbed() {
    let st = ConnectionState::new();
    let (events, commands) = st.handle_protocol_event(ProtocolEvent::TimedOut);
    assert!(events.is_empty() && commands.is_empty());
    let (events, commands) = st.handle_protocol_event(ProtocolEvent::UnknownIac(249));
    assert!(events.is_empty() && commands.is_empty());
}

#[test]
fn other_command_bytes_are_surfaced_unhandled() {
    let st = ConnectionState::new();
    let (events, commands) = st.handle_protocol_event(ProtocolEvent::UnknownIac(241));
    assert!(commands.is_empty());
    assert_eq!(events.len(), 1);
    match &events[0] {
        TelnetEvent::Unhandled(ProtocolEvent::UnknownIac(b)) => assert_eq!(*b, 241),
        _ => panic!("expected an unhandled event"),
    }
}

#[test]
fn compression_offer_is_accepted_and_announced() {
    let st = ConnectionState::new();
    let (events, commands) = st.handle_protocol_event(
        ProtocolEvent::Negotiation(NegotiationAction::Will, ProtocolOption::Compress2),
    );
    assert_eq!(events.len(), 1);
    assert_eq!(info_text(&events[0]), "Server supports MCCP2");
    assert_eq!(commands.len(), 1);
    assert!(matches!(commands[0], SocketCommand::AcceptCompression));
}

#[test]
fn other_negotiations_are_absorbed() {
    let st = ConnectionState::new();
    let (events, commands) = st.handle_protocol_event(
        ProtocolEvent::Negotiation(NegotiationAction::Do, ProtocolOption::Other(31)),
    );
    assert!(events.is_empty() && commands.is_empty());
    let (events, commands) = st.handle_protocol_event(
        ProtocolEvent::Subnegotiation(ProtocolOption::Other(31)),
    );
    assert!(events.is_empty() && commands.is_empty());
}

#[test]
fn compression_subnegotiation_enables_decompression() {
    let st = ConnectionState::new();
    let (events, commands) = st.handle_protocol_event(
        ProtocolEvent::Subnegotiation(ProtocolOption::Compress2),
    );
    assert_eq!(events.len(), 1);
    assert_eq!(info_text(&events[0]), "MCCP2 enabled");
    assert_eq!(commands.len(), 1);
    assert!(matches!(commands[0], SocketCommand::EnableDecompression));
}

#[test]
fn event_descriptions_are_exact() {
    assert_eq!(ProtocolEvent::TimedOut.describe(), "timed out");
    assert_eq!(ProtocolEvent::Data("hi".to_string()).describe(), "data: hi");
    assert_eq!(ProtocolEvent::UnknownIac(249).describe(), "IAC 249");
    assert_eq!(
        ProtocolEvent::Negotiation(NegotiationAction::Dont, ProtocolOption::Other(86)).describe(),
        "negotiation DONT option 86"
    );
    assert_eq!(
        ProtocolEvent::Subnegotiation(ProtocolOption::Compress2).describe(),
        "subnegotiation COMPRESS2"
    );
    assert_eq!(ProtocolEvent::Other("weird".to_string()).describe(), "weird");
}

#[test]
fn write_failures_become_plain_error_events() {
    let ev = io_error_event("write: broken pipe".to_string());
    assert_eq!(error_text(&ev), "write: broken pipe");
}
