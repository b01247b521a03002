//! WebSocket bridge: configuration, the CLASP messages of received
//! frames, and what CLASP messages become on the socket.
use vstd::prelude::*;
use std::collections::HashMap;
use crate::bridge::{BridgeConfig, BridgeError};
use crate::message::{is_plain_set, is_plain_set_of, plain_set, Message};
use crate::json::{field, json_document, json_field, parse_json};
use crate::value::{ClaspValue, ValueModel};

verus! {

/// How messages are encoded on the socket.
#[derive(Clone, Copy, PartialEq, Eq, Structural, Debug)]
pub enum WsMessageFormat {
    /// JSON text.
    Json,
    /// MessagePack binary (CLASP frames).
    MsgPack,
    /// Raw text or binary, passed through.
    Raw,
}

impl Default for WsMessageFormat {
    /// JSON.
    fn default() -> (f: Self)
        ensures
            f == WsMessageFormat::Json,
    {
        WsMessageFormat::Json
    }
}

/// Whether the bridge connects to a server or is one.
#[derive(Clone, Copy, PartialEq, Eq, Structural, Debug)]
pub enum WsMode {
    Client,
    Server,
}

impl Default for WsMode {
    /// Client.
    fn default() -> (m: Self)
        ensures
            m == WsMode::Client,
    {
        WsMode::Client
    }
}

/// WebSocket bridge configuration.
#[derive(Clone, Debug)]
pub struct WebSocketBridgeConfig {
    pub mode: WsMode,
    /// Server URL in client mode, bind address in server mode.
    pub url: String,
    /// Path in server mode.
    pub path: Option<String>,
    pub format: WsMessageFormat,
    /// Ping interval in seconds (0: off).
    pub ping_interval_secs: u32,
    /// Reconnect after a disconnect (client mode).
    pub auto_reconnect: bool,
    /// Delay before reconnecting, in seconds.
    pub reconnect_delay_secs: u32,
    /// Headers sent in client mode.
    pub headers: HashMap<String, String>,
    /// CLASP namespace prefix of incoming messages.
    pub namespace: String,
}

/// The default of a switch that is on unless configured off.
pub fn default_true() -> (b: bool)
    ensures
        b,
{
    true
}

/// The default ping interval: 30 seconds.
pub fn default_ping_interval() -> (s: u32)
    ensures
        s == 30,
{
    30
}

/// The default reconnect delay: 5 seconds.
pub fn default_reconnect_delay() -> (s: u32)
    ensures
        s == 5,
{
    5
}

/// The default namespace: `/ws`.
pub fn default_namespace() -> (s: String)
    ensures
        s@ == "/ws"@,
{
    String::from_str("/ws")
}

impl Default for WebSocketBridgeConfig {
    /// A JSON client of `ws://localhost:8080`, pinging every 30 seconds,
    /// reconnecting after 5, without headers, namespace `/ws`.
    fn default() -> (c: Self)
        ensures
            c.mode == WsMode::Client,
            c.url@ == "ws://localhost:8080"@,
            c.path is None,
            c.format == WsMessageFormat::Json,
            c.ping_interval_secs == 30,
            c.auto_reconnect,
            c.reconnect_delay_secs == 5,
            c.headers@ == Map::<String, String>::empty(),
            c.namespace@ == "/ws"@,
    {
        WebSocketBridgeConfig {
            mode: WsMode::Client,
            url: String::from_str("ws://localhost:8080"),
            path: None,
            format: WsMessageFormat::Json,
            ping_interval_secs: default_ping_interval(),
            auto_reconnect: default_true(),
            reconnect_delay_secs: default_reconnect_delay(),
            headers: HashMap::new(),
            namespace: default_namespace(),
        }
    }
}

/// The WebSocket bridge: its configuration and whether it is connected.
#[derive(Clone, Debug)]
pub struct WebSocketBridge {
    pub config: BridgeConfig,
    pub ws_config: WebSocketBridgeConfig,
    pub connected: bool,
}

/// A frame received or to send.
#[derive(Clone, Debug)]
pub enum WsFrame {
    Text(String),
    Binary(Vec<u8>),
}

/// What a CLASP message becomes on the socket.
#[derive(Debug)]
pub enum WsOutgoing {
    /// A text frame.
    Frame(WsFrame),
    /// A JSON text frame of the address and value (JSON format).
    JsonOf { address: String, value: Option<ClaspValue> },
    /// The JSON text of a value (raw format, neither string nor bytes).
    JsonValue(ClaspValue),
    /// The message in the CLASP binary encoding (MessagePack format).
    Encoded,
    /// Nothing to send.
    Nothing,
}

/// What a received frame becomes.
#[derive(Debug)]
pub enum WsIncoming {
    /// A CLASP message.
    Message(Message),
    /// A binary frame in the MessagePack format: a CLASP frame for the
    /// CLASP codec, taken as the bytes at `{prefix}/binary` where it does
    /// not decode.
    Encoded(Vec<u8>),
    /// Nothing (a text frame in the MessagePack format).
    Nothing,
}

/// The address of a JSON text frame: its string field `address`, else
/// `{prefix}/message`.
pub open spec fn json_frame_address(prefix: Seq<char>, doc: ValueModel) -> Seq<char> {
    match json_field(doc, "address"@) {
        Some(ValueModel::Str(a)) => a,
        _ => prefix + "/message"@,
    }
}

/// The value of a JSON text frame: its field `value`, else its field
/// `data`, else the whole document.
pub open spec fn json_frame_value(doc: ValueModel) -> ValueModel {
    match json_field(doc, "value"@) {
        Some(v) => v,
        None => match json_field(doc, "data"@) {
            Some(v) => v,
            None => doc,
        },
    }
}

impl WebSocketBridge {
    /// A disconnected bridge named `WebSocket Bridge`, working both ways.
    pub fn new(ws_config: WebSocketBridgeConfig) -> (b: Self)
        ensures
            b.config.name@ == "WebSocket Bridge"@,
            b.config.protocol@ == "websocket"@,
            b.config.bidirectional,
            b.config.options.len() == 0,
            b.ws_config == ws_config,
            !b.connected,
    {
        WebSocketBridge {
            config: BridgeConfig::named("WebSocket Bridge", "websocket", true),
            ws_config,
            connected: false,
        }
    }

    /// The SET of a text frame that is not JSON: the text as a string at
    /// `{prefix}/text`.
    pub fn text_message(prefix: &str, text: &str) -> (m: Message)
        ensures
            m is SetParam,
            m->SetParam_0.address@ == prefix@ + "/text"@,
            m->SetParam_0.value.model() == ValueModel::Str(text@),
            m->SetParam_0.revision is None,
            !m->SetParam_0.lock,
            !m->SetParam_0.unlock,
    {
        proof {
            reveal_strlit("/text");
        }
        let mut a = String::from_str(prefix);
        a.append("/text");
        plain_set(a, ClaspValue::String(String::from_str(text)))
    }

    /// The SET of a binary frame that is not a CLASP frame: the bytes at
    /// `{prefix}/binary`.
    pub fn binary_message(prefix: &str, data: Vec<u8>) -> (m: Message)
        ensures
            is_plain_set(m, prefix@ + "/binary"@, ClaspValue::Bytes(data)),
    {
        proof {
            reveal_strlit("/binary");
        }
        let mut a = String::from_str(prefix);
        a.append("/binary");
        plain_set(a, ClaspValue::Bytes(data))
    }

    /// The SET of a JSON text frame: the frame's address and value (see
    /// [`json_frame_address`] and [`json_frame_value`]).
    pub fn json_message(prefix: &str, doc: ClaspValue) -> (m: Message)
        ensures
            is_plain_set_of(m, json_frame_address(prefix@, doc.model()), json_frame_value(doc.model())),
    {
        proof {
            reveal_strlit("address");
            reveal_strlit("value");
            reveal_strlit("data");
            reveal_strlit("/message");
        }
        let address = match field(&doc, "address") {
            Some(ClaspValue::String(a)) => a,
            _ => {
                let mut a = String::from_str(prefix);
                a.append("/message");
                a
            },
        };
        let value = match field(&doc, "value") {
            Some(v) => v,
            None => match field(&doc, "data") {
                Some(v) => v,
                None => doc,
            },
        };
        plain_set(address, value)
    }

    /// What a received frame becomes: a text frame is read as JSON (a SET
    /// of its address and value) or, where it is not JSON, as plain text;
    /// a binary frame is raw bytes, or a CLASP frame in the MessagePack
    /// format, where text frames give nothing.
    pub fn parse_message(frame: &WsFrame, format: WsMessageFormat, prefix: &str) -> (r: WsIncoming)
        ensures
            match *frame {
                WsFrame::Text(t) => if format == WsMessageFormat::MsgPack {
                    r is Nothing
                } else {
                    match json_document(t@) {
                        Some(doc) => r matches WsIncoming::Message(m) && is_plain_set_of(
                            m,
                            json_frame_address(prefix@, doc),
                            json_frame_value(doc),
                        ),
                        None => r matches WsIncoming::Message(m) && is_plain_set_of(
                            m,
                            prefix@ + "/text"@,
                            ValueModel::Str(t@),
                        ),
                    }
                },
                WsFrame::Binary(d) => if format == WsMessageFormat::MsgPack {
                    r matches WsIncoming::Encoded(b) && b@ == d@
                } else {
                    r matches WsIncoming::Message(m) && is_plain_set_of(
                        m,
                        prefix@ + "/binary"@,
                        ValueModel::Bytes(d@),
                    )
                },
            },
    {
        match frame {
            WsFrame::Text(text) => {
                if format == WsMessageFormat::MsgPack {
                    return WsIncoming::Nothing;
                }
                match parse_json(text.as_str()) {
                    Some(doc) => WsIncoming::Message(Self::json_message(prefix, doc)),
                    None => WsIncoming::Message(Self::text_message(prefix, text.as_str())),
                }
            },
            WsFrame::Binary(data) => {
                if format == WsMessageFormat::MsgPack {
                    WsIncoming::Encoded(data.clone())
                } else {
                    WsIncoming::Message(Self::binary_message(prefix, data.clone()))
                }
            },
        }
    }

    /// What a CLASP message becomes on the socket: only SETs and PUBLISHes
    /// are sent; JSON sends the address and value as an object, MessagePack
    /// the encoded message, raw a string as text, bytes as binary, another
    /// value as its JSON text, and nothing without a value.
    pub fn message_to_ws(message: &Message, format: WsMessageFormat) -> (r: WsOutgoing)
        ensures
            ws_out(r, *message, format),
    {
        let (address, value) = match message {
            Message::SetParam(s) => (&s.address, Some(&s.value)),
            Message::Publish(p) => (&p.address, p.value.as_ref()),
            _ => {
                return WsOutgoing::Nothing;
            },
        };
        match format {
            WsMessageFormat::Json => WsOutgoing::JsonOf {
                address: address.clone(),
                value: match value {
                    Some(v) => Some(v.duplicate()),
                    None => None,
                },
            },
            WsMessageFormat::MsgPack => WsOutgoing::Encoded,
            WsMessageFormat::Raw => match value {
                Some(ClaspValue::String(s)) => WsOutgoing::Frame(WsFrame::Text(s.clone())),
                Some(ClaspValue::Bytes(b)) => WsOutgoing::Frame(WsFrame::Binary(b.clone())),
                Some(v) => WsOutgoing::JsonValue(v.duplicate()),
                None => WsOutgoing::Nothing,
            },
        }
    }

    /// What to send for a CLASP message; refused with `Not connected`
    /// while disconnected.
    pub fn send(&self, message: &Message) -> (r: Result<WsOutgoing, BridgeError>)
        ensures
            !self.connected ==> (r matches Err(BridgeError::Other(e)) && e@ == "Not connected"@),
            self.connected ==> (r matches Ok(o) && ws_out(o, *message, self.ws_config.format)),
    {
        proof {
            reveal_strlit("Not connected");
        }
        if !self.connected {
            return Err(BridgeError::Other(String::from_str("Not connected")));
        }
        Ok(Self::message_to_ws(message, self.ws_config.format))
    }
}

/// What a CLASP message becomes on the socket in a format, as
/// [`WebSocketBridge::message_to_ws`] gives it: only SETs and PUBLISHes are
/// sent; JSON sends the address and value as an object, MessagePack the
/// encoded message, raw the value (see [`raw_out`]).
pub open spec fn ws_out(r: WsOutgoing, message: Message, format: WsMessageFormat) -> bool {
    match message {
        Message::SetParam(s) => match format {
            WsMessageFormat::Json => json_of(r, s.address@, Some(s.value.model())),
            WsMessageFormat::MsgPack => r is Encoded,
            WsMessageFormat::Raw => raw_out(r, Some(s.value)),
        },
        Message::Publish(p) => match format {
            WsMessageFormat::Json => json_of(
                r,
                p.address@,
                match p.value {
                    Some(v) => Some(v.model()),
                    None => None,
                },
            ),
            WsMessageFormat::MsgPack => r is Encoded,
            WsMessageFormat::Raw => raw_out(r, p.value),
        },
        _ => r is Nothing,
    }
}

/// Whether the JSON format sends the object of this address and value.
pub open spec fn json_of(r: WsOutgoing, address: Seq<char>, value: Option<ValueModel>) -> bool {
    match r {
        WsOutgoing::JsonOf { address: a, value: v } => a@ == address && match v {
            Some(x) => value == Some(x.model()),
            None => value is None,
        },
        _ => false,
    }
}

/// What the raw format sends for a value.
pub open spec fn raw_out(r: WsOutgoing, value: Option<ClaspValue>) -> bool {
    match value {
        Some(ClaspValue::String(s)) => r matches WsOutgoing::Frame(WsFrame::Text(t)) && t@ == s@,
        Some(ClaspValue::Bytes(b)) => r matches WsOutgoing::Frame(WsFrame::Binary(c)) && c@ == b@,
        Some(v) => r matches WsOutgoing::JsonValue(w) && w.model() == v.model(),
        None => r is Nothing,
    }
}

} // verus!
