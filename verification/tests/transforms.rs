use clasp::base64::encode;
use clasp::compliance::{ConformanceConfig, ConformanceReport, TestResult};
use clasp::json::{json_to_value, parse_json, JsonNode};
use clasp::mapping::{AddressMapping, MappingTable};
use clasp::osc::{
    OscArg, OscBridge, OscBridgeConfig, OscBundle, OscMessage, OscOutput, Packet, OscTime,
    osc_arg_to_value, packet_to_messages, value_to_osc_args, widen_float_bits,
};
use clasp::p2p::base64_encode;
use clasp::message::{Message, SetMessage};
use clasp::suite::{TestResult as SuiteResult, TestSuite};
use clasp::transform::{Aggregator, BitwiseOp, apply_bitwise, lookup, lookup_key, parse_i64};
use clasp::value::{ClaspValue, dict_insert, dict_lookup, dict_remove};
use std::time::Duration;

#[test]
fn test_simple_mapping() {
    let mapping: AddressMapping<()> = AddressMapping::new("/osc/synth/cutoff", "/synth/cutoff");
    assert_eq!(mapping.map_address("/osc/synth/cutoff"), Some("/synth/cutoff".to_string()));
    assert_eq!(mapping.map_address("/osc/synth/other"), None);
}

#[test]
fn test_wildcard_mapping() {
    let _mapping: AddressMapping<()> = AddressMapping::new("/midi/*/cc/*", "/midi/*/*/*");
    // This is a simplified test - real implementation would be more sophisticated
}

#[test]
fn wildcard_captures() {
    let m: AddressMapping<()> = AddressMapping::new("/osc/*/level", "/mix/*/gain");
    assert_eq!(m.map_address("/osc/ch1/level"), Some("/mix/ch1/gain".to_string()));
    assert_eq!(m.map_address("/osc/ch1/pan"), None);
    let t: AddressMapping<()> = AddressMapping::new("/in/*", "/out/*");
    assert_eq!(t.map_address("/in/a/b"), Some("/out/a/b".to_string()));
    let uneven: AddressMapping<()> = AddressMapping::new("/a/*", "/b");
    assert_eq!(uneven.map_address("/a/x"), None);
}

#[test]
fn mapping_table_first_match_and_transform() {
    let mut table: MappingTable<u8> = MappingTable::new();
    table.add(AddressMapping::new("/a/*", "/first/*"));
    table.add(AddressMapping::new("/a/b", "/second").with_transform(7));
    assert_eq!(table.map("/a/b"), Some("/first/b".to_string()));
    assert_eq!(table.map("/a/b"), Some("/first/b".to_string()));
    assert_eq!(table.map("/zzz"), None);
    assert_eq!(table.transform("/a/b"), Some(&7));
    assert_eq!(table.transform("/a/c"), None);
}

#[test]
fn test_lookup_transform() {
    let table = vec![
        ("0".to_string(), ClaspValue::String("off".to_string())),
        ("1".to_string(), ClaspValue::String("on".to_string())),
    ];
    let default = Some(ClaspValue::String("unknown".to_string()));
    let key = |v: &ClaspValue| lookup_key(v);

    let k = key(&ClaspValue::Int(0));
    assert!(matches!(lookup(&table, &default, k.as_deref(), &ClaspValue::Int(0)), ClaspValue::String(ref s) if s == "off"));
    let k = key(&ClaspValue::Int(1));
    assert!(matches!(lookup(&table, &default, k.as_deref(), &ClaspValue::Int(1)), ClaspValue::String(ref s) if s == "on"));
    let k = key(&ClaspValue::Int(99));
    assert!(matches!(lookup(&table, &default, k.as_deref(), &ClaspValue::Int(99)), ClaspValue::String(ref s) if s == "unknown"));
}

#[test]
fn lookup_keys_and_fallbacks() {
    assert_eq!(lookup_key(&ClaspValue::Int(-12)), Some("-12".to_string()));
    assert_eq!(lookup_key(&ClaspValue::Bool(true)), Some("true".to_string()));
    assert_eq!(lookup_key(&ClaspValue::String("k".into())), Some("k".to_string()));
    assert_eq!(lookup_key(&ClaspValue::Null), None);
    let table: Vec<(String, ClaspValue)> = vec![];
    assert!(matches!(lookup(&table, &None, None, &ClaspValue::Int(5)), ClaspValue::Int(5)));
}

#[test]
fn bitwise_operations() {
    let r = |op, operand, v| match apply_bitwise(op, operand, &ClaspValue::Int(v)) {
        ClaspValue::Int(x) => x,
        _ => panic!("expected an integer"),
    };
    assert_eq!(r(BitwiseOp::And, Some(0b1100), 0b1010), 0b1000);
    assert_eq!(r(BitwiseOp::Or, None, 5), 5);
    assert_eq!(r(BitwiseOp::Xor, Some(1), 3), 2);
    assert_eq!(r(BitwiseOp::Not, None, 0), -1);
    assert_eq!(r(BitwiseOp::ShiftLeft, None, 3), 6);
    assert_eq!(r(BitwiseOp::ShiftRight, Some(2), -8), -2);
    assert_eq!(r(BitwiseOp::GetBit, Some(3), 8), 1);
    assert_eq!(r(BitwiseOp::SetBit, Some(0), 8), 9);
    assert_eq!(r(BitwiseOp::ClearBit, Some(3), 9), 1);
    assert!(matches!(apply_bitwise(BitwiseOp::Not, None, &ClaspValue::Bool(true)), ClaspValue::Bool(true)));
}

#[test]
fn aggregator_windows() {
    assert_eq!(Aggregator::MovingAverage { window_size: 3 }.window_size(), 3);
    assert_eq!(Aggregator::Average.window_size(), 100);
}

#[test]
fn base64_encoders_agree() {
    for (data, text) in [
        (&b""[..], ""),
        (&b"M"[..], "TQ=="),
        (&b"Ma"[..], "TWE="),
        (&b"Man"[..], "TWFu"),
        (&b"hello world"[..], "aGVsbG8gd29ybGQ="),
        (&[0xffu8, 0xfe, 0xfd, 0x00][..], "//79AA=="),
    ] {
        assert_eq!(encode(data), text);
        assert_eq!(base64_encode(data), text);
    }
}

#[test]
fn test_osc_arg_conversion() {
    assert!(matches!(osc_arg_to_value(&OscArg::Int(42)), ClaspValue::Int(42)));
    assert!(matches!(osc_arg_to_value(&OscArg::Float(0.5f32.to_bits())), ClaspValue::Float(b) if f64::from_bits(b) == 0.5));
    assert!(matches!(osc_arg_to_value(&OscArg::String("test".to_string())), ClaspValue::String(ref s) if s == "test"));
}

#[test]
fn test_value_to_osc() {
    let args = value_to_osc_args(&ClaspValue::Float(0.75f64.to_bits()));
    assert_eq!(args.len(), 1);
    match &args[0] {
        OscArg::Double(f) => assert!((f64::from_bits(*f) - 0.75).abs() < 0.001),
        _ => panic!("Expected Double"),
    }
}

#[test]
fn osc_packets_to_clasp() {
    let msg = Packet::Message(OscMessage { addr: "/fader/1".to_string(), args: vec![] });
    let out = packet_to_messages(&msg, "/osc").expect("a message");
    assert!(matches!(&out[0], Message::SetParam(s) if s.address == "/osc/fader/1" && matches!(s.value, ClaspValue::Null)));
    let bundle = Packet::Bundle(OscBundle {
        timetag: OscTime { seconds: 2, fractional: 0x8000_0000 },
        content: vec![
            Packet::Message(OscMessage { addr: "/a".to_string(), args: vec![OscArg::Int(1), OscArg::Nil] }),
            Packet::Bundle(OscBundle { timetag: OscTime { seconds: 0, fractional: 0 }, content: vec![] }),
        ],
    });
    let out = packet_to_messages(&bundle, "/osc").expect("a bundle");
    match &out[0] {
        Message::Bundle(b) => {
            assert_eq!(b.timestamp, Some(2_500_000));
            assert_eq!(b.messages.len(), 1);
            assert!(matches!(&b.messages[0], Message::SetParam(s) if matches!(s.value, ClaspValue::Array(ref a) if a.len() == 2)));
        }
        _ => panic!("expected a bundle"),
    }
    let empty = Packet::Bundle(OscBundle { timetag: OscTime { seconds: 0, fractional: 0 }, content: vec![] });
    assert!(packet_to_messages(&empty, "/osc").is_none());
}

#[test]
fn osc_outgoing() {
    let mut bridge = OscBridge::new(OscBridgeConfig::default());
    let m = Message::SetParam(SetMessage {
        address: "/osc/synth/cutoff".to_string(),
        value: ClaspValue::Array(vec![ClaspValue::Int(1), ClaspValue::String("x".into())]),
        revision: None,
        lock: false,
        unlock: false,
    });
    assert!(bridge.send(&m).is_err());
    bridge.connected = true;
    assert!(bridge.send(&m).is_err());
    bridge.osc_config.remote_addr = Some("127.0.0.1:9000".to_string());
    match bridge.send(&m).unwrap() {
        OscOutput::Send(o) => {
            assert_eq!(o.addr, "/synth/cutoff");
            assert!(matches!(o.args[..], [OscArg::Long(1), OscArg::String(_)]));
        }
        _ => panic!("expected a message"),
    }
    let with_map = Message::SetParam(SetMessage {
        address: "/x".to_string(),
        value: ClaspValue::Array(vec![ClaspValue::Int(2), ClaspValue::Dict(vec![("k".to_string(), ClaspValue::Bool(true))])]),
        revision: None,
        lock: false,
        unlock: false,
    });
    match bridge.send(&with_map).unwrap() {
        OscOutput::Send(o) => {
            assert_eq!(o.addr, "/x");
            assert!(matches!(o.args[..], [OscArg::Long(2), OscArg::Json(ClaspValue::Dict(_))]));
        }
        _ => panic!("expected a message"),
    }
    assert!(matches!(bridge.send(&Message::Ping).unwrap(), OscOutput::Nothing));
}

#[test]
fn conformance_report_json() {
    let mut report = ConformanceReport::new();
    report.add_result(TestResult::pass("hello", "Handshake", 3));
    report.add_result(TestResult::fail("set", "State", 5, "bad \"value\"").with_spec_reference("4.2"));
    assert_eq!(report.total_tests, 2);
    assert_eq!(report.passed, 1);
    assert_eq!(report.failed, 1);
    assert_eq!(report.results[1].spec_reference.as_deref(), Some("4.2"));
    assert_eq!(report.results.len(), report.passed + report.failed);
    let json = report.to_json("50.00");
    let expected = "{\n  \"total_tests\": 2,\n  \"passed\": 1,\n  \"failed\": 1,\n  \"pass_rate\": 50.00,\n  \"duration_ms\": 0,\n  \"results\": [\n    {\n      \"name\": \"hello\",\n      \"category\": \"Handshake\",\n      \"passed\": true,\n      \"duration_ms\": 3,\n      \"error\": null\n    },\n    {\n      \"name\": \"set\",\n      \"category\": \"State\",\n      \"passed\": false,\n      \"duration_ms\": 5,\n      \"error\": \"bad \\\"value\\\"\"\n    }\n  ]\n}";
    assert_eq!(json, expected);
    let empty = ConformanceReport::new().to_json("0.00");
    assert!(empty.contains("\"results\": [\n\n  ]"));
    let config = ConformanceConfig::default();
    assert_eq!(config.router_url, "ws://127.0.0.1:7330");
    assert_eq!(config.timeout, Duration::from_secs(5));
    assert!(!config.verbose);
}

#[test]
fn test_suite_counts() {
    let mut suite = TestSuite::new();
    assert!(suite.all_passed());
    suite.add_result(SuiteResult { name: "a".into(), passed: true, duration: Duration::from_millis(1), message: None });
    suite.add_result(SuiteResult { name: "b".into(), passed: false, duration: Duration::from_millis(2), message: Some("x".into()) });
    assert_eq!(suite.passed(), 1);
    assert_eq!(suite.failed(), 1);
    assert!(!suite.all_passed());
    assert_eq!(suite.summary_line(), "SUMMARY: Total: 2 | Passed: 1 | Failed: 1");
    assert!(TestSuite::shows_message(&suite.results[1], false));
    assert!(!TestSuite::shows_message(&suite.results[0], true));
}

#[test]
fn osc_float_widening_matches_std() {
    let samples = [
        0.0f32, -0.0, 0.5, -1.25, 3.4028235e38, f32::MIN_POSITIVE, f32::from_bits(1),
        f32::from_bits(0x0040_0000), f32::from_bits(0x807f_ffff), f32::INFINITY, f32::NEG_INFINITY,
        1.0e-40, 123456.789,
    ];
    for f in samples {
        assert_eq!(widen_float_bits(f.to_bits()), (f as f64).to_bits(), "widening {:e}", f);
    }
    let nan = widen_float_bits(f32::NAN.to_bits());
    assert!(f64::from_bits(nan).is_nan());
}

#[test]
fn osc_datagram_received_as_messages() {
    let bridge = OscBridge::new(OscBridgeConfig::default());
    let packet = rosc::OscPacket::Message(rosc::OscMessage {
        addr: "/fader/1".to_string(),
        args: vec![rosc::OscType::Float(0.5)],
    });
    let bytes = rosc::encoder::encode(&packet).expect("encodes");
    let out = bridge.receive(&bytes).expect("a message");
    assert_eq!(out.len(), 1);
    match &out[0] {
        Message::SetParam(s) => {
            assert_eq!(s.address, "/osc/fader/1");
            assert!(matches!(s.value, ClaspValue::Float(b) if f64::from_bits(b) == 0.5));
        }
        _ => panic!("expected a SET"),
    }
    assert!(bridge.receive(&[1, 2, 3]).is_none());
}

#[test]
fn osc_scalars_round_trip() {
    let values = vec![
        ClaspValue::Null,
        ClaspValue::Bool(true),
        ClaspValue::Int(-7),
        ClaspValue::Float(2.25f64.to_bits()),
        ClaspValue::String("hi".to_string()),
        ClaspValue::Bytes(vec![1, 2]),
    ];
    for v in values {
        let args = value_to_osc_args(&v);
        let back = match args.len() {
            0 => ClaspValue::Null,
            1 => osc_arg_to_value(&args[0]),
            n => panic!("{} arguments for a scalar", n),
        };
        assert_eq!(format!("{:?}", back), format!("{:?}", v));
    }
}

#[test]
fn dictionary_put_and_remove() {
    let mut entries: Vec<(String, ClaspValue)> = Vec::new();
    dict_insert(&mut entries, "a", ClaspValue::Int(1));
    dict_insert(&mut entries, "b", ClaspValue::Int(2));
    dict_insert(&mut entries, "a", ClaspValue::Int(3));
    assert_eq!(entries.len(), 2);
    assert_eq!(dict_lookup(&entries, "a"), Some(0));
    assert!(matches!(entries[0].1, ClaspValue::Int(3)));
    assert!(matches!(dict_remove(&mut entries, "a"), Some(ClaspValue::Int(3))));
    assert_eq!(dict_lookup(&entries, "a"), None);
    assert_eq!(dict_lookup(&entries, "b"), Some(0));
    assert!(dict_remove(&mut entries, "a").is_none());
}

#[test]
fn integer_text_parsing_matches_std() {
    let samples = [
        "0", "42", "+42", "-42", "-0", "", "+", "-", "-+1", "+-1", "1a", " 1", "007",
        "9223372036854775807", "9223372036854775808", "-9223372036854775808", "-9223372036854775809",
        "99999999999999999999",
    ];
    for t in samples {
        assert_eq!(parse_i64(t), t.parse::<i64>().ok(), "parsing {:?}", t);
    }
}

#[test]
fn json_numbers_read_integer_first() {
    let n = JsonNode::Number { integer: Some(3), float_bits: Some(3.0f64.to_bits()) };
    assert!(matches!(json_to_value(&n), ClaspValue::Int(3)));
    let n = JsonNode::Number { integer: None, float_bits: Some(2.5f64.to_bits()) };
    assert!(matches!(json_to_value(&n), ClaspValue::Float(b) if f64::from_bits(b) == 2.5));
    let n = JsonNode::Number { integer: None, float_bits: None };
    assert!(matches!(json_to_value(&n), ClaspValue::Null));
    let n = JsonNode::Object(vec![
        ("a".to_string(), JsonNode::Array(vec![JsonNode::Bool(true), JsonNode::Str("x".to_string())])),
        ("b".to_string(), JsonNode::Null),
    ]);
    match json_to_value(&n) {
        ClaspValue::Dict(entries) => {
            assert_eq!(entries.len(), 2);
            assert_eq!(entries[0].0, "a");
            assert!(matches!(&entries[0].1, ClaspValue::Array(a) if a.len() == 2
                && matches!(a[0], ClaspValue::Bool(true))
                && matches!(&a[1], ClaspValue::String(s) if s == "x")));
            assert!(matches!(entries[1].1, ClaspValue::Null));
        }
        other => panic!("expected a dictionary, got {:?}", other),
    }
    assert!(matches!(parse_json("18446744073709551615"), Some(ClaspValue::Float(b)) if f64::from_bits(b) == 18446744073709551615.0));
    assert!(matches!(parse_json("-7"), Some(ClaspValue::Int(-7))));
    assert!(parse_json("{").is_none());
}
