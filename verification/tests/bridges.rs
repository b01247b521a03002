use clasp::artnet::{ArtNetBridge, ArtNetBridgeConfig, ArtNetPacket, DmxUpdate, artnet_to_clasp};
use clasp::bridge::BridgeError;
use clasp::dmx::{DmxBridge, DmxBridgeConfig, DmxInterfaceType, PortSystem, dmx_port_path};
use clasp::frames::UniverseFrames;
use clasp::levels::LevelTracker;
use clasp::http::{request_value, rest_publish, rest_set, HttpBridge, HttpBridgeConfig, HttpMethod, HttpMode};
use clasp::message::{Message, PublishMessage, SetMessage, SignalType};
use clasp::midi::{MidiBridgeConfig, clasp_to_midi, midi_message_to_clasp, select_port};
use clasp::mqtt::{MqttBridge, MqttBridgeConfig, QoS, parse_qos, plain_payload};
use clasp::sacn::{DmxLevel, SacnBridge, SacnBridgeConfig, SacnMode};
use clasp::socketio::{SioPayload, SocketIOBridge, SocketIOBridgeConfig};
use clasp::value::ClaspValue;
use clasp::websocket::{WebSocketBridge, WebSocketBridgeConfig, WsFrame, WsIncoming, WsMessageFormat, WsMode, WsOutgoing};

fn set(address: &str, value: ClaspValue) -> Message {
    Message::SetParam(SetMessage {
        address: address.to_string(),
        value,
        revision: None,
        lock: false,
        unlock: false,
    })
}

fn publish(address: &str, value: Option<ClaspValue>) -> Message {
    Message::Publish(PublishMessage {
        address: address.to_string(),
        signal: Some(SignalType::Event),
        value,
        payload: None,
        id: None,
        timestamp: None,
    })
}

#[test]
fn artnet_test_config_default() {
    let config = ArtNetBridgeConfig::default();
    assert_eq!(config.namespace, "/artnet");
    assert!(config.universes.is_empty());
}

#[test]
fn artnet_default_bind_address() {
    assert_eq!(ArtNetBridgeConfig::default().bind_addr, "0.0.0.0:6454");
}

#[test]
fn artnet_changes_only() {
    let mut frames = UniverseFrames::new();
    let packet = ArtNetPacket::Output { universe: 2, data: vec![0, 10, 0] };
    let msgs = artnet_to_clasp(&packet, "/artnet", &vec![], &mut frames).expect("one change");
    assert_eq!(msgs.len(), 1);
    match &msgs[0] {
        Message::SetParam(s) => {
            assert_eq!(s.address, "/artnet/2/2");
            assert!(matches!(s.value, ClaspValue::Int(10)));
        }
        _ => panic!("expected a SET"),
    }
    // The same frame again changes nothing.
    assert!(artnet_to_clasp(&packet, "/artnet", &vec![], &mut frames).is_none());
    // A filtered universe is ignored.
    let other = ArtNetPacket::Output { universe: 3, data: vec![5] };
    assert!(artnet_to_clasp(&other, "/artnet", &vec![2], &mut frames).is_none());
}

#[test]
fn artnet_packet_roundtrip() {
    let bytes = ArtNetBridge::dmx_packet(1, &[1, 2, 3, 4]).expect("encodable");
    let mut bridge = ArtNetBridge::new(ArtNetBridgeConfig::default());
    assert!(!ArtNetBridge::oversized_dmx(&bytes));
    let messages = bridge.receive(&bytes).expect("changed channels");
    assert_eq!(messages.len(), 4);
    assert!(matches!(&messages[0], Message::SetParam(s) if s.address == "/artnet/1/1" && matches!(s.value, ClaspValue::Int(1))));
    assert!(matches!(&messages[3], Message::SetParam(s) if s.address == "/artnet/1/4" && matches!(s.value, ClaspValue::Int(4))));
    // The same frame again changes nothing.
    assert!(bridge.receive(&bytes).is_none());
    let poll = ArtNetBridge::poll_packet();
    assert!(bridge.receive(&poll).is_none());
    assert_eq!(&poll[..8], b"Art-Net\0");
    assert!(bridge.receive(&[1, 2, 3]).is_none());
    let mut big = bytes.clone();
    big.resize(600, 0);
    assert!(ArtNetBridge::oversized_dmx(&big));
    assert!(!ArtNetBridge::oversized_dmx(&vec![0u8; 600]));
}

#[test]
fn artnet_dmx_update_errors() {
    let mut bridge = ArtNetBridge::new(ArtNetBridgeConfig::default());
    match bridge.dmx_update(&set("/artnet/x/1", ClaspValue::Int(1))) {
        Err(BridgeError::Mapping(m)) => assert_eq!(m, "Invalid universe"),
        _ => panic!("expected a mapping error"),
    }
    match bridge.dmx_update(&set("/artnet/1/x", ClaspValue::Int(1))) {
        Err(BridgeError::Mapping(m)) => assert_eq!(m, "Invalid channel"),
        _ => panic!("expected a mapping error"),
    }
    match bridge.dmx_update(&set("/artnet/1/3", ClaspValue::Int(300))) {
        Ok(DmxUpdate::Send { universe, frame }) => {
            assert_eq!(universe, 1);
            assert_eq!(frame.len(), 512);
            assert_eq!(frame[2], 255);
        }
        _ => panic!("expected a frame"),
    }
    assert!(matches!(bridge.dmx_update(&set("/artnet/1/0", ClaspValue::Int(3))), Ok(DmxUpdate::Nothing)));
}

#[test]
fn dmx_test_config_default() {
    let config = DmxBridgeConfig::default();
    assert_eq!(config.namespace, "/dmx");
    assert_eq!(config.universe, 0);
    assert_eq!(config.interface_type, DmxInterfaceType::Virtual);
}

#[test]
fn test_channel_operations() {
    let mut bridge = DmxBridge::new(DmxBridgeConfig::default());

    // Test set/get channel
    bridge.set_channel(1, 127);
    assert_eq!(bridge.get_channel(1), Some(127));

    // Invalid channel
    assert_eq!(bridge.get_channel(0), None);
    assert_eq!(bridge.get_channel(513), None);
}

#[test]
fn dmx_read_after_write() {
    let mut bridge = DmxBridge::new(DmxBridgeConfig::default());
    assert_eq!(bridge.config().name, "DMX Bridge (Universe 0)");
    bridge.set_channel(512, 9);
    bridge.set_channel(0, 5);
    bridge.set_channel(513, 5);
    assert_eq!(bridge.get_channel(512), Some(9));
    assert_eq!(bridge.get_channel(2), Some(0));
    let frame = [7u8; 512];
    bridge.set_frame(&frame);
    assert_eq!(bridge.get_channel(300), Some(7));
}

#[test]
fn dmx_send_rules() {
    let mut bridge = DmxBridge::new(DmxBridgeConfig::default());
    assert!(bridge.send(&set("/dmx/0/4", ClaspValue::Int(-3))).is_ok());
    assert_eq!(bridge.get_channel(4), Some(0));
    assert!(bridge.send(&set("/dmx/0/5", ClaspValue::Int(70))).is_ok());
    assert_eq!(bridge.get_channel(5), Some(70));
    // Another universe: nothing, even with a bad channel.
    assert!(bridge.send(&set("/dmx/1/zz", ClaspValue::Int(70))).is_ok());
    match bridge.send(&set("/dmx/u/5", ClaspValue::Int(1))) {
        Err(BridgeError::Mapping(m)) => assert_eq!(m, "Invalid universe"),
        _ => panic!("expected a mapping error"),
    }
    match bridge.send(&set("/dmx/0/99999", ClaspValue::Int(1))) {
        Err(BridgeError::Mapping(m)) => assert_eq!(m, "Invalid channel"),
        _ => panic!("expected a mapping error"),
    }
}

#[test]
fn http_test_config_default() {
    let config = HttpBridgeConfig::default();
    assert!(config.cors_enabled);
    assert!(!config.endpoints.is_empty());
}

#[test]
fn http_defaults_and_methods() {
    let config = HttpBridgeConfig::default();
    assert_eq!(config.mode, HttpMode::Server);
    assert_eq!(config.url, "0.0.0.0:3000");
    assert_eq!(config.endpoints.len(), 4);
    assert_eq!(config.endpoints[3].method, HttpMethod::POST);
    assert_eq!(config.base_path, "/api");
    assert_eq!(config.timeout_secs, 30);
    assert_eq!(config.namespace, "/http");
    assert_eq!(HttpMethod::PATCH.to_string(), "PATCH");
    assert_eq!(HttpMethod::default(), HttpMethod::GET);
}

#[test]
fn http_server_cache_and_client_requests() {
    let mut bridge = HttpBridge::new(HttpBridgeConfig::default());
    match bridge.send(&set("/a", ClaspValue::Int(1))) {
        Err(BridgeError::Other(m)) => assert_eq!(m, "Not connected"),
        _ => panic!("expected refusal"),
    }
    bridge.running = true;
    assert!(matches!(bridge.send(&set("/a", ClaspValue::Int(1))), Ok(None)));
    assert!(matches!(bridge.signal("/a"), Some(ClaspValue::Int(1))));
    assert!(matches!(bridge.send(&publish("/a", Some(ClaspValue::Int(2)))), Ok(None)));
    assert!(matches!(bridge.signal("/a"), Some(ClaspValue::Int(2))));
    let deleted = bridge.delete_signal("/a").expect("was cached");
    assert!(matches!(deleted.0, ClaspValue::Int(2)));
    assert!(bridge.signal("/a").is_none());
    assert!(bridge.delete_signal("/a").is_none());

    let mut config = HttpBridgeConfig::default();
    config.mode = HttpMode::Client;
    config.url = "http://host".to_string();
    let mut client = HttpBridge::new(config);
    client.running = true;
    let req = client.send(&set("/x/y", ClaspValue::Bool(true))).unwrap().expect("a request");
    assert_eq!(req.method, HttpMethod::PUT);
    assert_eq!(req.url, "http://host/x/y");
    let req = client.send(&publish("/e", Some(ClaspValue::Int(3)))).unwrap().expect("a request");
    assert_eq!(req.method, HttpMethod::POST);
    assert!(client.send(&publish("/e", None)).unwrap().is_none());
}

#[test]
fn midi_test_config_default() {
    let config = MidiBridgeConfig::default();
    assert_eq!(config.namespace, "/midi");
    assert_eq!(config.device_name, "default");
}

#[test]
fn test_midi_to_clasp_note_on() {
    let msg = midi_message_to_clasp(&[0x90, 60, 100], "/midi/test");
    assert!(msg.is_some());
    if let Some(Message::Publish(pub_msg)) = msg {
        assert_eq!(pub_msg.address, "/midi/test/ch/0/note");
    }
}

#[test]
fn test_midi_to_clasp_cc() {
    let msg = midi_message_to_clasp(&[0xB0, 1, 64], "/midi/test");
    assert!(msg.is_some());
    if let Some(Message::SetParam(set_msg)) = msg {
        assert_eq!(set_msg.address, "/midi/test/ch/0/cc/1");
        assert!(matches!(set_msg.value, ClaspValue::Int(64)));
    }
}

#[test]
fn midi_out_control_change() {
    let config = MidiBridgeConfig::default();
    let bytes = clasp_to_midi(&set("/midi/default/ch/3/cc/7", ClaspValue::Int(200)), &config).expect("a CC");
    assert_eq!(bytes, vec![0xB3, 7, 127]);
    assert!(clasp_to_midi(&set("/midi/default/ch/3/zz/7", ClaspValue::Int(1)), &config).is_none());
    assert!(clasp_to_midi(&set("/midi/default/3/cc/7", ClaspValue::Int(1)), &config).is_none());
    let bend = clasp_to_midi(&set("/midi/default/ch/1/bend", ClaspValue::Int(0)), &config).expect("a bend");
    assert_eq!(bend, vec![0xE1, 0, 64]);
}

#[test]
fn midi_round_trip_keeps_bytes() {
    let config = MidiBridgeConfig::default();
    let cases: Vec<Vec<u8>> = vec![
        vec![0xB0, 1, 64],
        vec![0xB5, 127, 0],
        vec![0xE2, 0x11, 0x22],
        vec![0x93, 60, 100],
        vec![0x8F, 61, 30],
    ];
    for bytes in cases {
        let msg = midi_message_to_clasp(&bytes, "/midi/test").expect("a message");
        assert_eq!(clasp_to_midi(&msg, &config), Some(bytes));
    }
    // a note-on of velocity 0 comes back as a note-off
    let msg = midi_message_to_clasp(&[0x90, 60, 0], "/midi/test").expect("a message");
    assert_eq!(clasp_to_midi(&msg, &config), Some(vec![0x80, 60, 0]));
}

#[test]
fn mqtt_test_config_default() {
    let config = MqttBridgeConfig::default();
    assert_eq!(config.broker_host, "localhost");
    assert_eq!(config.broker_port, 1883);
    assert_eq!(config.qos, 0);
}

#[test]
fn mqtt_client_id_form() {
    let config = MqttBridgeConfig::default();
    assert!(config.client_id.starts_with("clasp-"));
    assert_eq!(config.client_id.len(), 14);
    assert!(config.client_id[6..].chars().all(|c| c.is_ascii_hexdigit() && !c.is_ascii_uppercase()));
    assert_eq!(config.subscribe_topics, vec!["#".to_string()]);
    assert_eq!(config.keep_alive_secs, 60);
}

#[test]
fn test_topic_conversion() {
    let config = MqttBridgeConfig::default();
    let bridge = MqttBridge::new(config);

    let address = bridge.topic_to_address("home/sensors/temp");
    assert_eq!(address, "/mqtt/home/sensors/temp");

    let topic = bridge.address_to_topic("/mqtt/home/sensors/temp");
    assert_eq!(topic, "home/sensors/temp");
}

#[test]
fn mqtt_qos_and_payloads() {
    assert_eq!(parse_qos(0), QoS::AtMostOnce);
    assert_eq!(parse_qos(1), QoS::AtLeastOnce);
    assert_eq!(parse_qos(7), QoS::ExactlyOnce);
    assert_eq!(plain_payload(&ClaspValue::Int(-42)).unwrap(), b"-42".to_vec());
    assert_eq!(plain_payload(&ClaspValue::Null).unwrap(), b"null".to_vec());
    assert_eq!(plain_payload(&ClaspValue::Bool(false)).unwrap(), b"false".to_vec());
    assert_eq!(plain_payload(&ClaspValue::String("héllo".to_string())).unwrap(), "héllo".as_bytes().to_vec());
    assert!(plain_payload(&ClaspValue::Array(vec![])).is_none());
}

#[test]
fn mqtt_send_plan() {
    let mut bridge = MqttBridge::new(MqttBridgeConfig::default());
    assert!(matches!(bridge.send(&set("/mqtt/a", ClaspValue::Null)), Err(BridgeError::Other(_))));
    bridge.connected = true;
    let p = bridge.send(&set("/mqtt//a/b", ClaspValue::Int(1))).unwrap().expect("publication");
    assert_eq!(p.topic, "a/b");
    assert_eq!(p.qos, QoS::AtMostOnce);
    assert!(bridge.send(&publish("/mqtt/a", None)).unwrap().is_none());
    assert_eq!(bridge.address_to_topic("/other/x"), "other/x");
}

#[test]
fn test_config_defaults() {
    let config = SacnBridgeConfig::default();
    assert_eq!(config.mode, SacnMode::Receiver);
    assert_eq!(config.universes, vec![1]);
    assert_eq!(config.priority, 100);
    assert!(config.multicast);
}

#[test]
fn test_address_parsing() {
    assert_eq!(SacnBridge::parse_address("/sacn", "/sacn/1/47"), Some((1, 47)));
    assert_eq!(SacnBridge::parse_address("/sacn", "/sacn/100/512"), Some((100, 512)));
    assert_eq!(SacnBridge::parse_address("/sacn", "/sacn/1/0"), None); // Channel 0 invalid
    assert_eq!(SacnBridge::parse_address("/sacn", "/sacn/1/513"), None); // Channel > 512
    assert_eq!(SacnBridge::parse_address("/sacn", "/dmx/1/47"), None); // Wrong namespace
}

#[test]
fn test_to_clasp_message() {
    let msg = SacnBridge::to_clasp_message("/sacn", 1, 47, 255);
    if let Message::SetParam(set) = msg {
        assert_eq!(set.address, "/sacn/1/47");
        assert!(matches!(set.value, ClaspValue::Int(255)));
    } else {
        panic!("Expected SET message");
    }
}

#[test]
fn socketio_test_config_default() {
    let config = SocketIOBridgeConfig::default();
    assert_eq!(config.sio_namespace, "/");
    assert_eq!(config.namespace, "/socketio");
}

#[test]
fn socketio_event_names() {
    let mut bridge = SocketIOBridge::new(SocketIOBridgeConfig::default());
    assert!(bridge.send(&set("/a/b", ClaspValue::Null)).is_err());
    bridge.connected = true;
    let e = bridge.send(&set("/socketio/chat/message", ClaspValue::Int(1))).unwrap().expect("emit");
    assert_eq!(e.event, "message");
    let e = bridge.send(&set("/socketio/chat/", ClaspValue::Int(1))).unwrap().expect("emit");
    assert_eq!(e.event, "");
    assert_eq!(bridge.event_address("ping"), "/socketio/ping");
}

#[test]
fn websocket_test_config_default() {
    let config = WebSocketBridgeConfig::default();
    assert_eq!(config.mode, WsMode::Client);
    assert_eq!(config.namespace, "/ws");
}

#[test]
fn websocket_frames() {
    match WebSocketBridge::text_message("/ws", "hello") {
        Message::SetParam(s) => {
            assert_eq!(s.address, "/ws/text");
            assert!(matches!(s.value, ClaspValue::String(ref t) if t == "hello"));
        }
        _ => panic!("expected a SET"),
    }
    match WebSocketBridge::binary_message("/ws", vec![1, 2, 3]) {
        Message::SetParam(s) => assert_eq!(s.address, "/ws/binary"),
        _ => panic!("expected a SET"),
    }
    let out = WebSocketBridge::message_to_ws(&set("/a", ClaspValue::String("x".into())), WsMessageFormat::Raw);
    assert!(matches!(out, WsOutgoing::Frame(WsFrame::Text(ref t)) if t == "x"));
    let out = WebSocketBridge::message_to_ws(&publish("/a", None), WsMessageFormat::Raw);
    assert!(matches!(out, WsOutgoing::Nothing));
    let out = WebSocketBridge::message_to_ws(&set("/a", ClaspValue::Int(1)), WsMessageFormat::Json);
    assert!(matches!(out, WsOutgoing::JsonOf { ref address, value: Some(ClaspValue::Int(1)) } if address == "/a"));
    let out = WebSocketBridge::message_to_ws(&Message::Ping, WsMessageFormat::Json);
    assert!(matches!(out, WsOutgoing::Nothing));
}

#[test]
fn websocket_send_follows_the_format() {
    let mut config = WebSocketBridgeConfig::default();
    config.format = WsMessageFormat::Raw;
    let mut bridge = WebSocketBridge::new(config);
    assert!(matches!(bridge.send(&set("/a", ClaspValue::Int(1))), Err(BridgeError::Other(ref m)) if m == "Not connected"));
    bridge.connected = true;
    assert!(matches!(bridge.send(&set("/a", ClaspValue::String("x".into()))),
        Ok(WsOutgoing::Frame(WsFrame::Text(ref t))) if t == "x"));
    assert!(matches!(bridge.send(&set("/a", ClaspValue::Int(4))), Ok(WsOutgoing::JsonValue(ClaspValue::Int(4)))));
    bridge.ws_config.format = WsMessageFormat::Json;
    assert!(matches!(bridge.send(&publish("/e", Some(ClaspValue::Int(2)))),
        Ok(WsOutgoing::JsonOf { ref address, value: Some(ClaspValue::Int(2)) }) if address == "/e"));
    bridge.ws_config.format = WsMessageFormat::MsgPack;
    assert!(matches!(bridge.send(&set("/a", ClaspValue::Int(1))), Ok(WsOutgoing::Encoded)));
    assert!(matches!(bridge.send(&Message::Ping), Ok(WsOutgoing::Nothing)));
}

#[test]
fn sacn_receiver_passes_changes_only() {
    let mut t = LevelTracker::new();
    let first = t.observe("/sacn", 1, &[0, 5, 5]);
    assert_eq!(first.len(), 3);
    assert!(matches!(&first[1], Message::SetParam(s) if s.address == "/sacn/1/2" && matches!(s.value, ClaspValue::Int(5))));
    let again = t.observe("/sacn", 1, &[0, 6, 5]);
    assert_eq!(again.len(), 1);
    assert!(matches!(&again[0], Message::SetParam(s) if s.address == "/sacn/1/2" && matches!(s.value, ClaspValue::Int(6))));
    assert_eq!(t.observe("/sacn", 1, &[0, 6, 5]).len(), 0);
    assert_eq!(t.observe("/sacn", 2, &[0]).len(), 1);
}

#[test]
fn sacn_sender_marks_and_transmits() {
    let mut config = SacnBridgeConfig::default();
    config.mode = SacnMode::Sender;
    config.universes = vec![1, 2];
    let mut bridge = SacnBridge::new(config);
    assert!(bridge.record_level(2, 10, 99));
    assert!(bridge.record_level(2, 11, 98));
    assert!(bridge.record_level(1, 1, 1));
    assert!(!bridge.record_level(3, 1, 1));
    assert!(!bridge.record_level(1, 0, 1));
    assert!(!bridge.record_level(1, 513, 1));
    let frames = bridge.take_dirty();
    assert_eq!(frames.len(), 2);
    assert_eq!(frames[0].0, 2);
    assert_eq!(frames[0].1[9], 99);
    assert_eq!(frames[0].1[10], 98);
    assert_eq!(frames[1].0, 1);
    assert!(bridge.take_dirty().is_empty());
}

/// What the caller reads a payload's text as, where it reads as a float.
fn float_of(payload: &[u8]) -> Option<u64> {
    std::str::from_utf8(payload).ok().and_then(|t| t.parse::<f64>().ok()).map(f64::to_bits)
}

#[test]
fn test_payload_parsing() {
    // JSON object
    let payload = b"{\"value\": 42}";
    let value = MqttBridge::parse_payload(payload, float_of(payload));
    assert!(matches!(value, ClaspValue::Dict(_)));

    // Number
    let payload = b"3.14159";
    let value = MqttBridge::parse_payload(payload, float_of(payload));
    assert!(matches!(value, ClaspValue::Float(_)));

    // Boolean
    let payload = b"true";
    let value = MqttBridge::parse_payload(payload, float_of(payload));
    assert!(matches!(value, ClaspValue::Bool(true)));
}

#[test]
fn mqtt_payload_from_its_readings() {
    let v = MqttBridge::parsed_payload_value(b"7", Some("7".to_string()), Some(ClaspValue::Int(7)), Some(7.0f64.to_bits()));
    assert!(matches!(v, ClaspValue::Int(7)));
    let v = MqttBridge::parsed_payload_value(b"7.5", Some("7.5".to_string()), None, Some(7.5f64.to_bits()));
    assert!(matches!(v, ClaspValue::Float(b) if f64::from_bits(b) == 7.5));
    let v = MqttBridge::parsed_payload_value(b"false", Some("false".to_string()), None, None);
    assert!(matches!(v, ClaspValue::Bool(false)));
    let v = MqttBridge::parsed_payload_value(b"on", Some("on".to_string()), None, None);
    assert!(matches!(v, ClaspValue::String(ref s) if s == "on"));
    let v = MqttBridge::parsed_payload_value(&[0xc3], None, None, None);
    assert!(matches!(v, ClaspValue::Bytes(ref b) if b == &vec![0xc3]));
}

#[test]
fn mqtt_payload_fallbacks() {
    let p = b"+1.5";
    assert!(matches!(MqttBridge::parse_payload(p, float_of(p)), ClaspValue::Float(b) if f64::from_bits(b) == 1.5));
    let p = b"hello";
    assert!(matches!(MqttBridge::parse_payload(p, float_of(p)), ClaspValue::String(ref s) if s == "hello"));
    let p = [0xff, 0xfe, 0x00];
    assert!(matches!(MqttBridge::parse_payload(&p, None), ClaspValue::Bytes(ref b) if b == &vec![0xff, 0xfe, 0x00]));
    let p = b"[1, 2.5, \"x\"]";
    match MqttBridge::parse_payload(p, float_of(p)) {
        ClaspValue::Array(a) => {
            assert_eq!(a.len(), 3);
            assert!(matches!(a[0], ClaspValue::Int(1)));
            assert!(matches!(a[1], ClaspValue::Float(b) if f64::from_bits(b) == 2.5));
            assert!(matches!(a[2], ClaspValue::String(ref s) if s == "x"));
        }
        other => panic!("expected an array, got {:?}", other),
    }
    let bridge = MqttBridge::new(MqttBridgeConfig::default());
    let m = bridge.incoming("sensors/temp", b"21", None);
    assert!(matches!(&m, Message::SetParam(s) if s.address == "/mqtt/sensors/temp" && matches!(s.value, ClaspValue::Int(21))));
}

#[test]
fn test_message_formats() {
    let prefix = "/ws";

    // JSON text message
    let ws_msg = WsFrame::Text(r#"{"address": "/test", "value": 42}"#.to_string());
    let clasp = WebSocketBridge::parse_message(&ws_msg, WsMessageFormat::Json, prefix);
    assert!(matches!(clasp, WsIncoming::Message(_)));

    // Plain text
    let ws_msg = WsFrame::Text("hello".to_string());
    let clasp = WebSocketBridge::parse_message(&ws_msg, WsMessageFormat::Json, prefix);
    assert!(matches!(clasp, WsIncoming::Message(_)));

    // Binary
    let ws_msg = WsFrame::Binary(vec![1, 2, 3]);
    let clasp = WebSocketBridge::parse_message(&ws_msg, WsMessageFormat::Raw, prefix);
    assert!(matches!(clasp, WsIncoming::Message(_)));
}

#[test]
fn websocket_frames_to_messages() {
    let json = WsFrame::Text(r#"{"address": "/test", "value": 42}"#.to_string());
    match WebSocketBridge::parse_message(&json, WsMessageFormat::Json, "/ws") {
        WsIncoming::Message(Message::SetParam(s)) => {
            assert_eq!(s.address, "/test");
            assert!(matches!(s.value, ClaspValue::Int(42)));
        }
        other => panic!("unexpected {:?}", other),
    }
    let data = WsFrame::Text(r#"{"data": "on"}"#.to_string());
    match WebSocketBridge::parse_message(&data, WsMessageFormat::Raw, "/ws") {
        WsIncoming::Message(Message::SetParam(s)) => {
            assert_eq!(s.address, "/ws/message");
            assert!(matches!(s.value, ClaspValue::String(ref v) if v == "on"));
        }
        other => panic!("unexpected {:?}", other),
    }
    let number = WsFrame::Text("7".to_string());
    assert!(matches!(WebSocketBridge::parse_message(&number, WsMessageFormat::Json, "/ws"),
        WsIncoming::Message(Message::SetParam(ref s)) if s.address == "/ws/message" && matches!(s.value, ClaspValue::Int(7))));
    let text = WsFrame::Text("hello".to_string());
    assert!(matches!(WebSocketBridge::parse_message(&text, WsMessageFormat::Json, "/ws"),
        WsIncoming::Message(Message::SetParam(ref s)) if s.address == "/ws/text" && matches!(s.value, ClaspValue::String(ref v) if v == "hello")));
    assert!(matches!(WebSocketBridge::parse_message(&text, WsMessageFormat::MsgPack, "/ws"), WsIncoming::Nothing));
    let bin = WsFrame::Binary(vec![9, 8]);
    assert!(matches!(WebSocketBridge::parse_message(&bin, WsMessageFormat::MsgPack, "/ws"), WsIncoming::Encoded(ref b) if b == &vec![9, 8]));
    assert!(matches!(WebSocketBridge::parse_message(&bin, WsMessageFormat::Raw, "/ws"),
        WsIncoming::Message(Message::SetParam(ref s)) if s.address == "/ws/binary"));
}

#[test]
fn http_request_bodies() {
    assert!(matches!(request_value(r#"{"value": 0.5}"#), Some(ClaspValue::Float(b)) if f64::from_bits(b) == 0.5));
    match request_value(r#"{"on": true}"#) {
        Some(ClaspValue::Dict(entries)) => {
            assert_eq!(entries.len(), 1);
            assert_eq!(entries[0].0, "on");
            assert!(matches!(entries[0].1, ClaspValue::Bool(true)));
        }
        other => panic!("unexpected {:?}", other),
    }
    assert!(request_value("not json").is_none());
    let m = rest_publish("/http", "button/1", ClaspValue::Int(1));
    assert!(matches!(&m, Message::Publish(p) if p.address == "/http/button/1"
        && matches!(p.signal, Some(SignalType::Event)) && matches!(p.value, Some(ClaspValue::Int(1)))));
}

#[test]
fn socketio_events_to_messages() {
    let bridge = SocketIOBridge::new(SocketIOBridgeConfig::default());
    let one = bridge.incoming("move", SioPayload::Text(vec![ClaspValue::Int(3)]));
    assert!(matches!(&one, Message::SetParam(s) if s.address == "/socketio/move" && matches!(s.value, ClaspValue::Int(3))));
    let many = SocketIOBridge::payload_to_value(SioPayload::Text(vec![ClaspValue::Int(1), ClaspValue::Bool(false)]));
    assert!(matches!(many, ClaspValue::Array(ref a) if a.len() == 2));
    assert!(matches!(SocketIOBridge::payload_to_value(SioPayload::Binary(vec![1])), ClaspValue::Bytes(ref b) if b == &vec![1]));
    assert!(matches!(SocketIOBridge::payload_to_value(SioPayload::Other), ClaspValue::Null));
}

#[test]
fn http_cache_and_rest_set() {
    let mut bridge = HttpBridge::new(HttpBridgeConfig::default());
    bridge.update_signal("/http/a", ClaspValue::Int(1));
    assert!(matches!(bridge.signal("/http/a"), Some(ClaspValue::Int(1))));
    let m = rest_set(&mut bridge, "lights/1", ClaspValue::Bool(true));
    assert!(matches!(&m, Message::SetParam(s) if s.address == "/http/lights/1" && matches!(s.value, ClaspValue::Bool(true))));
    assert!(matches!(bridge.signal("/http/lights/1"), Some(ClaspValue::Bool(true))));
    assert!(bridge.signal("/http/none").is_none());
}

#[test]
fn sacn_value_levels() {
    assert!(matches!(SacnBridge::dmx_level(&ClaspValue::Int(300)), DmxLevel::Level(255)));
    assert!(matches!(SacnBridge::dmx_level(&ClaspValue::Int(-4)), DmxLevel::Level(0)));
    assert!(matches!(SacnBridge::dmx_level(&ClaspValue::Int(17)), DmxLevel::Level(17)));
    assert!(matches!(SacnBridge::dmx_level(&ClaspValue::Float(0.5f64.to_bits())), DmxLevel::Scaled(b) if f64::from_bits(b) == 0.5));
    assert!(matches!(SacnBridge::dmx_level(&ClaspValue::Null), DmxLevel::Ignored));
}

#[test]
fn midi_ports_and_base_address() {
    let names = vec![Some("IAC Driver Bus 1".to_string()), None, Some("USB MIDI Keyboard".to_string())];
    assert_eq!(select_port(&names, None), Some(0));
    assert_eq!(select_port(&names, Some("Keyboard")), Some(2));
    assert_eq!(select_port(&names, Some("Bus")), Some(0));
    assert_eq!(select_port(&names, Some("Launchpad")), None);
    assert_eq!(select_port(&vec![], None), None);
    assert_eq!(MidiBridgeConfig::default().base_address(), "/midi/default");
}

#[test]
fn artnet_send_dmx_guards() {
    let mut bridge = ArtNetBridge::new(ArtNetBridgeConfig::default());
    assert!(matches!(bridge.send_dmx(1, &[1, 2, 3]), Err(BridgeError::ConnectionFailed(ref m)) if m == "Not connected"));
    bridge.connected = true;
    assert!(matches!(bridge.send_dmx(1, &[1, 2, 3]), Err(BridgeError::Send(ref m)) if m == "No remote address configured"));
    bridge.artnet_config.remote_addr = Some("10.0.0.5:6454".to_string());
    let bytes = bridge.send_dmx(1, &[1, 2, 3]).expect("a packet");
    assert_eq!(&bytes[0..8], b"Art-Net\0");
    assert!(matches!(bridge.send_dmx(1, &[]), Err(BridgeError::Protocol(ref m)) if m == "Failed to encode DMX"));
}

#[test]
fn dmx_serial_port_paths() {
    assert!(dmx_port_path("/dev/ttyUSB0", PortSystem::Linux));
    assert!(dmx_port_path("/dev/ttyACM1", PortSystem::Linux));
    assert!(!dmx_port_path("/dev/tty0", PortSystem::Linux));
    assert!(dmx_port_path("/dev/cu.usbserial-A1", PortSystem::MacOs));
    assert!(dmx_port_path("/dev/tty.usbserial-EN", PortSystem::MacOs));
    assert!(!dmx_port_path("/dev/ttyUSB0", PortSystem::MacOs));
}

#[test]
fn bridge_error_messages() {
    assert_eq!(BridgeError::ConnectionFailed("Not connected".to_string()).message(), "connection failed: Not connected");
    assert_eq!(BridgeError::Mapping("Invalid channel".to_string()).message(), "mapping error: Invalid channel");
    assert_eq!(BridgeError::Other("x".to_string()).message(), "bridge error: x");
}
