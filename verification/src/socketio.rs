//! Socket.IO bridge: configuration, event names and addresses.
use vstd::prelude::*;
use crate::bridge::{BridgeConfig, BridgeError};
use crate::message::{is_plain_set_of, plain_set, Message};
use crate::text::{chars_of, split_chars, split_on, string_from_chars, views};
use crate::value::{ClaspValue, ValueModel};

verus! {

/// Socket.IO bridge configuration.
#[derive(Clone, Debug)]
pub struct SocketIOBridgeConfig {
    /// Server URL.
    pub url: String,
    /// Socket.IO namespace.
    pub sio_namespace: String,
    /// Events to listen for.
    pub events: Vec<String>,
    /// Authentication payload, as JSON text.
    pub auth: Option<String>,
    /// Reconnect after a disconnect.
    pub reconnect: bool,
    /// CLASP namespace prefix.
    pub namespace: String,
}

/// The default Socket.IO namespace: `/`.
pub fn default_sio_namespace() -> (s: String)
    ensures
        s@ == "/"@,
{
    String::from_str("/")
}

/// The default of a switch that is on unless configured off.
pub fn default_true() -> (b: bool)
    ensures
        b,
{
    true
}

/// The default CLASP address prefix: `/socketio`.
pub fn default_address_prefix() -> (s: String)
    ensures
        s@ == "/socketio"@,
{
    String::from_str("/socketio")
}

impl Default for SocketIOBridgeConfig {
    /// The server at `http://localhost:3000`, namespace `/`, listening for
    /// `message`, no authentication, reconnecting, prefix `/socketio`.
    fn default() -> (c: Self)
        ensures
            c.url@ == "http://localhost:3000"@,
            c.sio_namespace@ == "/"@,
            c.events@.len() == 1,
            c.events@[0]@ == "message"@,
            c.auth is None,
            c.reconnect,
            c.namespace@ == "/socketio"@,
    {
        let mut events: Vec<String> = Vec::new();
        events.push(String::from_str("message"));
        SocketIOBridgeConfig {
            url: String::from_str("http://localhost:3000"),
            sio_namespace: default_sio_namespace(),
            events,
            auth: None,
            reconnect: default_true(),
            namespace: default_address_prefix(),
        }
    }
}

/// The Socket.IO bridge: its configuration and whether it is connected.
#[derive(Clone, Debug)]
pub struct SocketIOBridge {
    pub config: BridgeConfig,
    pub sio_config: SocketIOBridgeConfig,
    pub connected: bool,
}

/// The event under which an address is emitted: its last `/`-separated
/// segment.
pub open spec fn event_of(address: Seq<char>) -> Seq<char> {
    split_on(address, '/').last()
}

/// An event to emit: its name and value.
#[derive(Debug)]
pub struct SioEmit {
    pub event: String,
    pub value: ClaspValue,
}

/// The payload of a received event: JSON values (already read into CLASP
/// values), binary data, or anything else.
#[derive(Debug)]
pub enum SioPayload {
    Text(Vec<ClaspValue>),
    Binary(Vec<u8>),
    Other,
}

/// The value of an event's payload: one JSON value is that value, several
/// (or none) are an array; binary data is bytes; anything else is null.
pub open spec fn payload_value(p: SioPayload) -> ValueModel {
    match p {
        SioPayload::Text(values) => if values.len() == 1 {
            values[0].model()
        } else {
            ClaspValue::Array(values).model()
        },
        SioPayload::Binary(data) => ValueModel::Bytes(data@),
        SioPayload::Other => ValueModel::Null,
    }
}

impl SocketIOBridge {
    /// A disconnected bridge named `Socket.IO Bridge`, working both ways.
    pub fn new(sio_config: SocketIOBridgeConfig) -> (b: Self)
        ensures
            b.config.name@ == "Socket.IO Bridge"@,
            b.config.protocol@ == "socketio"@,
            b.config.bidirectional,
            b.config.options.len() == 0,
            b.sio_config == sio_config,
            !b.connected,
    {
        SocketIOBridge {
            config: BridgeConfig::named("Socket.IO Bridge", "socketio", true),
            sio_config,
            connected: false,
        }
    }

    /// The CLASP address of a received event: `{prefix}/{event}`.
    pub fn event_address(&self, event: &str) -> (a: String)
        ensures
            a@ == self.sio_config.namespace@ + "/"@ + event@,
    {
        proof {
            reveal_strlit("/");
        }
        let mut a = self.sio_config.namespace.clone();
        a.append("/");
        a.append(event);
        a
    }

    /// The value of an event's payload, as [`payload_value`] states.
    pub fn payload_to_value(payload: SioPayload) -> (v: ClaspValue)
        ensures
            v.model() == payload_value(payload),
    {
        match payload {
            SioPayload::Text(mut values) => {
                if values.len() == 1 {
                    let v = values.pop().unwrap();
                    v
                } else {
                    ClaspValue::Array(values)
                }
            },
            SioPayload::Binary(data) => ClaspValue::Bytes(data),
            SioPayload::Other => ClaspValue::Null,
        }
    }

    /// The CLASP message of a received event: a SET of the payload's value
    /// at the event's address.
    pub fn incoming(&self, event: &str, payload: SioPayload) -> (m: Message)
        ensures
            is_plain_set_of(m, self.sio_config.namespace@ + "/"@ + event@, payload_value(payload)),
    {
        plain_set(self.event_address(event), Self::payload_to_value(payload))
    }

    /// What to emit for a CLASP message: a SET's value, or a PUBLISH's
    /// value when it has one, under the last segment of its address;
    /// refused with `Not connected` while disconnected.
    pub fn send(&self, message: &Message) -> (r: Result<Option<SioEmit>, BridgeError>)
        ensures
            !self.connected ==> (r matches Err(BridgeError::Other(e)) && e@ == "Not connected"@),
            self.connected ==> match *message {
                Message::SetParam(s) => (r matches Ok(Some(e)) && e.event@ == event_of(s.address@)
                    && e.value.model() == s.value.model()),
                Message::Publish(p) => match p.value {
                    Some(v) => (r matches Ok(Some(e)) && e.event@ == event_of(p.address@)
                        && e.value.model() == v.model()),
                    None => r matches Ok(None),
                },
                _ => r matches Ok(None),
            },
    {
        proof {
            reveal_strlit("Not connected");
        }
        if !self.connected {
            return Err(BridgeError::Other(String::from_str("Not connected")));
        }
        let (address, value) = match message {
            Message::SetParam(s) => (&s.address, &s.value),
            Message::Publish(p) => match &p.value {
                Some(v) => (&p.address, v),
                None => {
                    return Ok(None);
                },
            },
            _ => {
                return Ok(None);
            },
        };
        let a = chars_of(address.as_str());
        let parts = split_chars(&a, '/');
        proof {
            crate::text::lemma_split_nonempty(a@, '/');
        }
        let last = parts.len() - 1;
        assert(views(parts@)[last as int] == parts@[last as int]@);
        let event = string_from_chars(&parts[last]);
        Ok(Some(SioEmit { event, value: value.duplicate() }))
    }
}

} // verus!
