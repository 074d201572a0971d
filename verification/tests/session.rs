use cockatiel_client::client::{judge_answer, CockatielClient};
use cockatiel_client::config::CockatielConfig;
use cockatiel_client::handshake::{ConnectAction, ConnectEvent, ConnectState};
use cockatiel_client::proto::{AuthVerify, ConnectionRequestReturn, Container, Payload};
use cockatiel_client::receiving::{ReceiveAction, ReceiveEvent, ReceiveState};
use cockatiel_client::transport::{
    connect_ws, endpoint, pinned_certificate, receive_raw, send_raw, DialStep, Incoming, Outgoing,
};

fn settings() -> CockatielConfig {
    let mut c = CockatielConfig::unnamed();
    c.pin = 42;
    c.module_name = "tts".to_string();
    c
}

fn session() -> CockatielClient {
    CockatielClient { config: settings(), auth_token: "jwt".to_string(), instance_uuid7: "id".to_string() }
}

fn container(token: &str, payload: Option<Payload<u8>>) -> Container<u8> {
    Container {
        version: 1,
        auth_token: token.to_string(),
        module_name: "engine".to_string(),
        module_instance_uuid7: "engine-id".to_string(),
        payload,
    }
}

fn answer(token: &str, new_port: i64) -> Container<u8> {
    let ret = ConnectionRequestReturn { new_port, module_instance_uuid7: "assigned".to_string() };
    container(token, Some(Payload::ConnectionRequestReturn(ret)))
}

fn probe() -> Container<u8> {
    container("", Some(Payload::AuthVerify(AuthVerify { cur_auth: "?".to_string() })))
}

fn failed(state: ConnectState) -> String {
    match state {
        ConnectState::Failed { message } => message,
        _ => panic!(),
    }
}

#[test]
fn a_payload_is_sent_with_token_and_identity() {
    let c = session().send(Payload::Other(7u8));
    assert_eq!(c.version, 1);
    assert_eq!(c.auth_token, "jwt");
    assert_eq!(c.module_name, "tts");
    assert_eq!(c.module_instance_uuid7, "id");
    assert!(matches!(c.payload, Some(Payload::Other(7))));
}

#[test]
fn a_handshake_begins_under_a_fresh_uuid() {
    let mut seen: Vec<String> = vec![];
    for _ in 0..20 {
        match CockatielClient::connect(settings()) {
            ConnectState::Dialing { instance_id, .. } => {
                let id: uuid::Uuid = instance_id.parse().unwrap();
                assert_eq!(id.get_version_num(), 7);
                assert_eq!(id.to_string(), instance_id);
                let chars: Vec<char> = instance_id.chars().collect();
                assert_eq!(chars.len(), 36);
                assert_eq!((chars[8], chars[13], chars[18], chars[23]), ('-', '-', '-', '-'));
                assert_eq!(chars[14], '7');
                assert!(['8', '9', 'a', 'b'].contains(&chars[19]));
                assert!(!seen.contains(&instance_id));
                seen.push(instance_id);
            }
            _ => panic!(),
        }
    }
}

#[test]
fn the_handshake_takes_two_phases() {
    let state = CockatielClient::connect_as(settings(), "mine".to_string());
    match state.action::<u8>() {
        ConnectAction::Dial(url) => assert_eq!(url, "ws://127.0.0.1:9734"),
        _ => panic!(),
    }
    let state = state.advance::<u8>(ConnectEvent::Dialed);
    match state.action::<u8>() {
        ConnectAction::Send(c) => {
            assert_eq!((c.version, c.auth_token.as_str(), c.module_name.as_str()), (1, "", "tts"));
            assert_eq!(c.module_instance_uuid7, "mine");
            match c.payload {
                Some(Payload::ConnectionRequest(r)) => {
                    assert_eq!((r.pin, r.process_position, r.priority), (42, 1, 100));
                    assert_eq!(r.module_instance_uuid7, "");
                }
                _ => panic!(),
            }
        }
        _ => panic!(),
    }
    let state = state.advance::<u8>(ConnectEvent::Sent);
    assert!(matches!(state.action::<u8>(), ConnectAction::Await(15000)));
    let state = state.advance(ConnectEvent::Answered { answer: answer("jwt", 0), shown: String::new() });
    assert!(matches!(state.action::<u8>(), ConnectAction::Sever));
    let state = state.advance::<u8>(ConnectEvent::Severed);
    assert!(matches!(state.action::<u8>(), ConnectAction::Pause(100)));
    let state = state.advance::<u8>(ConnectEvent::Paused);
    match state.action::<u8>() {
        ConnectAction::Dial(url) => assert_eq!(url, "ws://127.0.0.1:9734"),
        _ => panic!(),
    }
    let state = state.advance::<u8>(ConnectEvent::Dialed);
    match state.action::<u8>() {
        ConnectAction::Send(c) => {
            assert_eq!((c.version, c.auth_token.as_str(), c.module_name.as_str()), (1, "jwt", "tts"));
            assert_eq!(c.module_instance_uuid7, "assigned");
            match c.payload {
                Some(Payload::ConnectionRequest(r)) => {
                    assert_eq!((r.pin, r.process_position, r.priority), (0, 1, 100));
                    assert_eq!(r.module_instance_uuid7, "assigned");
                }
                _ => panic!(),
            }
        }
        _ => panic!(),
    }
    match state.advance::<u8>(ConnectEvent::Sent) {
        ConnectState::Connected { client } => {
            assert_eq!(client.auth_token, "jwt");
            assert_eq!(client.instance_uuid7, "assigned");
            assert_eq!(client.config.pin, 42);
        }
        _ => panic!(),
    }
}

#[test]
fn the_engine_turns_a_module_down() {
    let judge = |a: Container<u8>| judge_answer(settings(), a, "Some(Other)".to_string()).err().unwrap();
    assert_eq!(
        judge(answer("", 0)),
        "Connection rejected: invalid PIN or module not whitelisted. Pass --pin <PIN> or set pin in your config.json",
    );
    assert_eq!(judge(answer("", 8080)), "Connection rejected: new_port=8080, auth_token_empty=true");
    assert_eq!(judge(answer("jwt", -1)), "Connection rejected: new_port=-1, auth_token_empty=false");
    assert_eq!(
        judge(container("jwt", Some(Payload::Other(1)))),
        "Expected ConnectionRequestReturn, got: Some(Other)",
    );
    assert_eq!(judge(container("jwt", None)), "Expected ConnectionRequestReturn, got: Some(Other)");
    let state = ConnectState::Awaiting { config: settings() };
    let state = state.advance(ConnectEvent::Answered { answer: answer("", 3), shown: String::new() });
    assert_eq!(failed(state), "Connection rejected: new_port=3, auth_token_empty=true");
}

#[test]
fn a_failure_ends_the_handshake() {
    let fail = || ConnectEvent::<u8>::Failed("why".to_string());
    let id = || "mine".to_string();
    assert_eq!(failed(ConnectState::Dialing { config: settings(), instance_id: id() }.advance(fail())), "why");
    assert_eq!(failed(ConnectState::Requesting { config: settings(), instance_id: id() }.advance(fail())), "why");
    assert_eq!(failed(ConnectState::Awaiting { config: settings() }.advance(fail())), "why");
    assert_eq!(failed(ConnectState::Redialing { client: session() }.advance(fail())), "why");
    assert_eq!(failed(ConnectState::Reauthenticating { client: session() }.advance(fail())), "why");
    assert!(matches!(ConnectState::Severing { client: session() }.advance(fail()), ConnectState::Pausing { .. }));
    let over = ConnectState::Failed { message: "first".to_string() };
    assert!(matches!(over.action::<u8>(), ConnectAction::Finish));
    assert_eq!(failed(over.advance(fail())), "first");
}

#[test]
fn an_event_out_of_turn_changes_nothing() {
    let state = ConnectState::Awaiting { config: settings() }.advance::<u8>(ConnectEvent::Paused);
    assert!(matches!(state, ConnectState::Awaiting { .. }));
    let state = ConnectState::Connected { client: session() }.advance::<u8>(ConnectEvent::Dialed);
    assert!(matches!(state, ConnectState::Connected { .. }));
    assert!(matches!(state.action::<u8>(), ConnectAction::Finish));
    let state: ReceiveState<u8> = ReceiveState::Answering { timeout_ms: 5 };
    assert!(matches!(state.advance(ReceiveEvent::Arrived(probe()), 1), ReceiveState::Answering { timeout_ms: 5 }));
}

#[test]
fn reconnecting_uses_the_stored_token() {
    let mut state = session().reconnect();
    for event in [ConnectEvent::<u8>::Severed, ConnectEvent::Paused, ConnectEvent::Dialed] {
        state = state.advance(event);
    }
    match state.action::<u8>() {
        ConnectAction::Send(c) => assert_eq!((c.auth_token.as_str(), c.module_instance_uuid7.as_str()), ("jwt", "id")),
        _ => panic!(),
    }
    match state.advance::<u8>(ConnectEvent::Sent) {
        ConnectState::Connected { client } => assert_eq!(client.auth_token, session().auth_token),
        _ => panic!(),
    }
}

#[test]
fn the_greeting_names_module_and_identity() {
    assert_eq!(session().clone().greeting(), "[tts] Authenticated as tts [id]");
}

#[test]
fn a_container_is_handed_on() {
    let state = session().receive::<u8>();
    assert!(matches!(state.action(&session()), ReceiveAction::Await(u64::MAX)));
    match state.advance(ReceiveEvent::Arrived(container("", Some(Payload::Other(9)))), 5) {
        ReceiveState::Delivered { container } => assert!(matches!(container.payload, Some(Payload::Other(9)))),
        _ => panic!(),
    }
    let state = session().receive::<u8>().advance(ReceiveEvent::Arrived(container("", None)), 0);
    assert!(matches!(state.action(&session()), ReceiveAction::Finish));
    assert!(matches!(state, ReceiveState::Delivered { .. }));
}

#[test]
fn probes_are_answered_on_the_way() {
    let client = session();
    let mut state = client.receive_timeout::<u8>(250);
    for (round, left) in [(0, 250), (1, 190), (2, 130)] {
        match state.action(&client) {
            ReceiveAction::Await(millis) => assert_eq!(millis, left),
            _ => panic!(),
        }
        state = state.advance(ReceiveEvent::Arrived(probe()), 50);
        match state.action(&client) {
            ReceiveAction::Send(c) => {
                assert_eq!((c.version, c.auth_token.as_str(), c.module_name.as_str()), (1, "jwt", "tts"));
                assert_eq!(c.module_instance_uuid7, "id");
                match c.payload {
                    Some(Payload::AuthVerify(v)) => assert_eq!(v.cur_auth, "jwt"),
                    _ => panic!(),
                }
            }
            _ => panic!(),
        }
        let sent = if round == 1 { ReceiveEvent::Failed("unsent".to_string()) } else { ReceiveEvent::Answered };
        state = state.advance(sent, 10);
    }
    assert!(matches!(state, ReceiveState::Reading { timeout_ms: 70, probed: true }));
    assert!(matches!(
        state.advance(ReceiveEvent::Arrived(container("", Some(Payload::Other(9)))), 70),
        ReceiveState::Delivered { .. }
    ));
}

#[test]
fn the_timeout_is_that_of_the_whole_call() {
    let client = session();
    let state = client.receive_timeout::<u8>(100).advance(ReceiveEvent::Arrived(probe()), 60);
    let state = state.advance(ReceiveEvent::Answered, 60);
    assert!(matches!(state.action(&client), ReceiveAction::Await(0)));
    let state = client.receive::<u8>().advance(ReceiveEvent::Arrived(probe()), 60);
    let state = state.advance(ReceiveEvent::Answered, 60);
    assert!(matches!(state.action(&client), ReceiveAction::Await(u64::MAX)));
}

#[test]
fn a_failure_to_receive_is_told() {
    let fail = || ReceiveEvent::<u8>::Failed("Timeout".to_string());
    match session().receive_timeout(1).advance(fail(), 1) {
        ReceiveState::Broken { message } => assert_eq!(message, "Timeout"),
        _ => panic!(),
    }
    let state = session().receive_timeout(1).advance(ReceiveEvent::Arrived(probe()), 0).advance(ReceiveEvent::Answered, 0);
    match state.advance(fail(), 1) {
        ReceiveState::Broken { message } => assert_eq!(message, "connection closed while answering a liveness probe"),
        _ => panic!(),
    }
}

#[test]
fn the_engine_is_dialled_sixty_times() {
    let mut failures = 0;
    for n in 1..60 {
        match connect_ws(failures, Err("refused".to_string())) {
            DialStep::Retry { attempt, notice, seconds } => {
                assert_eq!((attempt, seconds), (n, 5));
                assert_eq!(
                    notice,
                    format!("[cockatiel] Connection failed (attempt {}/60): refused. Retrying in 5s...", n),
                );
                failures = attempt;
            }
            _ => panic!(),
        }
    }
    assert!(matches!(connect_ws(failures, Ok(())), DialStep::Connected));
    match connect_ws(failures, Err("refused".to_string())) {
        DialStep::GiveUp(message) => assert_eq!(message, "Failed to connect after 60 attempts: refused"),
        _ => panic!(),
    }
    assert!(matches!(connect_ws(u32::MAX, Err(String::new())), DialStep::GiveUp(_)));
}

#[test]
fn the_scheme_follows_the_pinned_certificate() {
    assert_eq!(endpoint("ws://h:1", false), "ws://h:1");
    assert_eq!(endpoint("ws://h:1", true), "wss://h:1");
    assert_eq!(endpoint("wss://h:1", false), "ws://h:1");
    assert_eq!(endpoint("wss://h:1", true), "wss://h:1");
    assert_eq!(endpoint("h:1", true), "wss://h:1");
    assert_eq!(endpoint("ws://wss://h", true), "wss://wss://h");
    assert_eq!(pinned_certificate(None), None);
    assert_eq!(pinned_certificate(Some(" \t".to_string())), None);
    assert_eq!(pinned_certificate(Some(" a.pem".to_string())), Some(" a.pem".to_string()));
}

#[test]
fn sending_fails_for_a_reason() {
    assert_eq!(send_raw(Outgoing::Sent), Ok(()));
    assert_eq!(send_raw(Outgoing::EncodeError("x".to_string())), Err("Encode error: x".to_string()));
    assert_eq!(send_raw(Outgoing::SendError("x".to_string())), Err("Send error: x".to_string()));
}

#[test]
fn receiving_fails_for_a_reason() {
    let reason = |i: Incoming<u8>| receive_raw(i).unwrap_err();
    assert_eq!(receive_raw(Incoming::Binary(Ok(3u8))), Ok(3));
    assert_eq!(reason(Incoming::Binary(Err("x".to_string()))), "Decode error: x");
    assert_eq!(reason(Incoming::Close), "Connection closed by server");
    assert_eq!(reason(Incoming::OtherFrame), "Received non-binary message");
    assert_eq!(reason(Incoming::SocketError("x".to_string())), "WebSocket error: x");
    assert_eq!(reason(Incoming::Ended), "Stream ended");
    assert_eq!(reason(Incoming::TimedOut), "Timeout");
}
