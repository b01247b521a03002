use clasp::backoff::{next_reconnect_delay, reconnect_delay_ms};
use clasp::builder::ClaspBuilder;
use clasp::client::{
    ClientAction, ClientState, GetStep, bundle_message, emit_message, set_locked_message,
    set_message, stream_message,
};
use clasp::message::{
    AnnounceMessage, BundleMessage, ErrorMessage, Message, ParamValue, PublishMessage,
    SetMessage, SignalDefinition, SignalType, SnapshotMessage, WelcomeMessage,
};
use clasp::client_error::ClientError;
use clasp::connection::{Connection, HandshakeEvent, HandshakeStep, handshake_step, hello_message};
use clasp::pattern::glob_match;
use clasp::value::ClaspValue;

fn set(address: &str, value: ClaspValue) -> Message {
    Message::SetParam(SetMessage {
        address: address.to_string(),
        value,
        revision: None,
        lock: false,
        unlock: false,
    })
}

fn signal(address: &str) -> SignalDefinition {
    SignalDefinition { address: address.to_string(), signal_type: SignalType::Param, description: None }
}

#[test]
fn glob_patterns() {
    assert!(glob_match("/path/*/value", "/path/foo/value"));
    assert!(!glob_match("/path/*/value", "/path/foo/bar/value"));
    assert!(glob_match("/path/**", "/path/a/b/c"));
    assert!(glob_match("/app/**", "/app/level1"));
    assert!(glob_match("/**", "/a"));
    assert!(glob_match("/a/*/c/**", "/a/b/c/d/e"));
    assert!(glob_match("/test/**", "/test"));
    assert!(!glob_match("/sensors/*", "/sensor/temp"));
    assert!(glob_match("/exact/addr", "/exact/addr"));
    assert!(!glob_match("/exact/addr", "/exact/addr2"));
    assert!(glob_match("/lumen/scene/*/layer/*/opacity", "/lumen/scene/0/layer/3/opacity"));
}

#[test]
fn builder_defaults_and_chain() {
    let config = ClaspBuilder::new("ws://localhost:7330").build();
    assert_eq!(config.url, "ws://localhost:7330");
    assert_eq!(config.name, "Clasp Client");
    assert_eq!(config.features, vec!["param".to_string(), "event".to_string(), "stream".to_string()]);
    assert!(config.token.is_none());
    assert!(config.reconnect);
    assert_eq!(config.reconnect_interval_ms, 5000);
    assert_eq!(config.max_reconnect_attempts, 10);

    let config = ClaspBuilder::new("ws://h")
        .name("my-app")
        .features(vec!["param".to_string()])
        .token("cpsk_x")
        .reconnect(false)
        .reconnect_interval(250)
        .build();
    assert_eq!(config.name, "my-app");
    assert_eq!(config.features, vec!["param".to_string()]);
    assert_eq!(config.token.as_deref(), Some("cpsk_x"));
    assert!(!config.reconnect);
    assert_eq!(config.reconnect_interval_ms, 250);
}

#[test]
fn backoff_schedule() {
    assert_eq!(reconnect_delay_ms(5000, 0), 5000);
    assert_eq!(reconnect_delay_ms(5000, 1), 7500);
    assert_eq!(reconnect_delay_ms(5000, 2), 11250);
    assert_eq!(reconnect_delay_ms(5000, 3), 16875);
    assert_eq!(reconnect_delay_ms(5000, 4), 25312);
    assert_eq!(reconnect_delay_ms(5000, 5), 30000);
    assert_eq!(reconnect_delay_ms(5000, 4_000_000_000), 30000);
    assert_eq!(reconnect_delay_ms(0, 40), 0);
    assert_eq!(reconnect_delay_ms(1, 25), 25251);
    assert_eq!(reconnect_delay_ms(u64::MAX, 0), 30000);
    assert_eq!(next_reconnect_delay(1000, 9, 10), Some(reconnect_delay_ms(1000, 9)));
    assert_eq!(next_reconnect_delay(1000, 10, 10), None);
    assert_eq!(next_reconnect_delay(1000, 50, 0), Some(30000));
}

#[test]
fn set_updates_cache_and_notifies_matching() {
    let mut st = ClientState::new();
    let (id1, m1) = st.subscribe("/sensors/*");
    let (id2, _) = st.subscribe("/other/**");
    assert_eq!(id1, 1);
    assert_eq!(id2, 2);
    assert!(matches!(m1, Message::Subscribe(ref s) if s.id == 1 && s.pattern == "/sensors/*"));
    let actions = st.handle_message(&set("/sensors/temp", ClaspValue::Int(25)));
    assert_eq!(actions.len(), 1);
    match &actions[0] {
        ClientAction::Notify { subscription, address, value } => {
            assert_eq!(*subscription, 1);
            assert_eq!(address, "/sensors/temp");
            assert!(matches!(value, ClaspValue::Int(25)));
        }
        _ => panic!("expected a notification"),
    }
    assert!(matches!(st.cached("/sensors/temp"), Some(ClaspValue::Int(25))));
    assert!(st.cached("/sensors/none").is_none());
}

#[test]
fn unsubscribe_stops_notifications() {
    let mut st = ClientState::new();
    let (id, _) = st.subscribe("/a/**");
    assert!(matches!(st.unsubscribe(id), Message::Unsubscribe(1)));
    let actions = st.handle_message(&set("/a/b", ClaspValue::Null));
    assert!(actions.is_empty());
}

#[test]
fn snapshot_completes_pending_get() {
    let mut st = ClientState::new();
    st.subscribe("/x/**");
    match st.get("/x/y") {
        GetStep::Request(Message::Get(a)) => assert_eq!(a, "/x/y"),
        _ => panic!("expected a request"),
    }
    let snap = Message::Snapshot(SnapshotMessage {
        params: vec![ParamValue { address: "/x/y".to_string(), value: ClaspValue::Int(7), revision: 1 }],
    });
    let actions = st.handle_message(&snap);
    assert_eq!(actions.len(), 2);
    assert!(matches!(&actions[0], ClientAction::Deliver { address, value: ClaspValue::Int(7) } if address == "/x/y"));
    assert!(matches!(&actions[1], ClientAction::Notify { subscription: 1, .. }));
    assert!(st.pending_gets.is_empty());
    assert!(matches!(st.get("/x/y"), GetStep::Cached(ClaspValue::Int(7))));
}

#[test]
fn publish_value_payload_or_null() {
    let mut st = ClientState::new();
    st.subscribe("/e/*");
    let p = Message::Publish(PublishMessage {
        address: "/e/1".to_string(),
        signal: Some(SignalType::Event),
        value: None,
        payload: Some(ClaspValue::Bool(true)),
        id: None,
        timestamp: None,
    });
    let actions = st.handle_message(&p);
    assert!(matches!(&actions[0], ClientAction::Notify { value: ClaspValue::Bool(true), .. }));
    assert!(st.cached("/e/1").is_none());
}

#[test]
fn errors_signals_and_bundles() {
    let mut st = ClientState::new();
    st.handle_message(&Message::Error(ErrorMessage { code: 403, message: "denied".to_string(), address: None }));
    assert_eq!(st.last_error().unwrap().code, 403);
    st.clear_error();
    assert!(st.last_error().is_none());

    st.handle_message(&Message::Announce(AnnounceMessage {
        namespace: "/lights".to_string(),
        signals: vec![signal("/lights/a"), signal("/lights/b"), signal("/lights/a")],
    }));
    assert_eq!(st.signals().len(), 2);
    assert_eq!(st.query_signals("/lights/*").len(), 2);
    assert_eq!(st.query_signals("/other/*").len(), 0);

    let b = Message::Bundle(BundleMessage {
        timestamp: None,
        messages: vec![set("/b/1", ClaspValue::Int(1)), set("/b/1", ClaspValue::Int(2))],
    });
    st.handle_message(&b);
    assert!(matches!(st.cached("/b/1"), Some(ClaspValue::Int(2))));
}

#[test]
fn outgoing_messages() {
    assert!(matches!(set_message("/a", ClaspValue::Int(1)), Message::SetParam(ref s) if !s.lock && s.address == "/a"));
    assert!(matches!(set_locked_message("/a", ClaspValue::Int(1)), Message::SetParam(ref s) if s.lock && !s.unlock));
    assert!(matches!(emit_message("/e", ClaspValue::Null, 9),
        Message::Publish(ref p) if p.signal == Some(SignalType::Event) && p.timestamp == Some(9) && p.value.is_none()));
    assert!(matches!(stream_message("/s", ClaspValue::Int(3), 4),
        Message::Publish(ref p) if p.signal == Some(SignalType::Stream) && p.payload.is_none()));
    assert!(matches!(bundle_message(vec![], Some(5)), Message::Bundle(ref b) if b.timestamp == Some(5)));
}

#[test]
fn subscription_ids_wrap() {
    let mut st = ClientState::new();
    st.next_sub_id = u32::MAX;
    let (id, _) = st.subscribe("/a");
    assert_eq!(id, u32::MAX);
    assert_eq!(st.next_sub_id, 0);
    st.cancel_get("/nothing");
}

#[test]
fn handshake_steps() {
    let welcome = Message::Welcome(WelcomeMessage {
        version: 2,
        session: "s-1".to_string(),
        name: "router".to_string(),
        features: vec![],
        time: 42,
    });
    assert!(matches!(handshake_step(HandshakeEvent::Received(welcome)),
        HandshakeStep::Welcomed { ref session, server_time: 42 } if session == "s-1"));
    assert!(matches!(handshake_step(HandshakeEvent::Received(Message::Ping)), HandshakeStep::Wait));
    assert!(matches!(handshake_step(HandshakeEvent::Other), HandshakeStep::Wait));
    assert!(matches!(handshake_step(HandshakeEvent::Error("boom".to_string())),
        HandshakeStep::Failed(ClientError::ConnectionFailed(ref m)) if m == "boom"));
    assert!(matches!(handshake_step(HandshakeEvent::Disconnected(None)),
        HandshakeStep::Failed(ClientError::ConnectionFailed(ref m)) if m == "Disconnected"));
    assert!(matches!(handshake_step(HandshakeEvent::Disconnected(Some("bye".to_string()))),
        HandshakeStep::Failed(ClientError::ConnectionFailed(ref m)) if m == "bye"));
    assert!(matches!(handshake_step(HandshakeEvent::Closed),
        HandshakeStep::Failed(ClientError::ConnectionFailed(ref m)) if m == "Connection closed"));
    assert!(matches!(handshake_step(HandshakeEvent::TimedOut), HandshakeStep::Failed(ClientError::Timeout)));
}

#[test]
fn connection_lifecycle_and_reconnects() {
    let config = ClaspBuilder::new("ws://localhost:7330").token("t").build();
    match hello_message(&config, 3) {
        Message::Hello(h) => {
            assert_eq!(h.version, 3);
            assert_eq!(h.name, "Clasp Client");
            assert_eq!(h.features, vec!["param".to_string(), "event".to_string(), "stream".to_string()]);
            assert_eq!(h.token.as_deref(), Some("t"));
        }
        _ => panic!("expected a HELLO"),
    }
    let mut c = Connection::new();
    assert!(c.check_can_connect().is_ok());
    assert!(matches!(c.check_can_send(), Err(ClientError::NotConnected)));
    c.transport_opened();
    assert!(c.check_can_send().is_ok());
    c.welcomed("s-1".to_string());
    c.connect_completed();
    assert!(matches!(c.check_can_connect(), Err(ClientError::AlreadyConnected)));
    assert!(c.transport_disconnected(true));
    assert!(!c.connected);
    assert_eq!(c.next_attempt(&config), Some(5000));
    assert_eq!(c.next_attempt(&config), Some(7500));
    c.reconnected("s-2".to_string());
    assert_eq!(c.reconnect_attempts, 0);
    assert_eq!(c.session_id.as_deref(), Some("s-2"));
    assert!(c.check_can_send().is_ok());
    c.close();
    assert!(!c.connected);
    assert!(matches!(c.check_can_send(), Err(ClientError::NotConnected)));
    c.close();
    assert!(!c.connected && c.intentionally_closed);
    assert!(matches!(c.check_can_send(), Err(ClientError::NotConnected)));
    assert!(!c.transport_disconnected(true));
    c.reconnect_attempts = 10;
    assert_eq!(c.next_attempt(&config), None);
    assert_eq!(c.reconnect_attempts, 11);
}

#[test]
fn resubscribe_after_reconnect() {
    let mut state = ClientState::new();
    let (a, _) = state.subscribe("/lights/**");
    let (b, _) = state.subscribe("/audio/*");
    let msgs = state.resubscribe_messages();
    assert_eq!(msgs.len(), 2);
    assert!(matches!(&msgs[0], Message::Subscribe(m) if m.id == a && m.pattern == "/lights/**"));
    assert!(matches!(&msgs[1], Message::Subscribe(m) if m.id == b && m.pattern == "/audio/*"));
}
