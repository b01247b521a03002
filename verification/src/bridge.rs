//! What all protocol bridges share: their configuration, their events and
//! their errors.
use vstd::prelude::*;
use crate::message::Message;

verus! {

/// Events from a bridge.
#[derive(Debug)]
pub enum BridgeEvent {
    /// A message for the CLASP side.
    ToClasp(Message),
    /// The bridge connected.
    Connected,
    /// The bridge disconnected.
    Disconnected { reason: Option<String> },
    /// An error occurred.
    Error(String),
}

/// Bridge configuration.
#[derive(Clone, Debug)]
pub struct BridgeConfig {
    /// Bridge name.
    pub name: String,
    /// Protocol identifier.
    pub protocol: String,
    /// Whether the bridge works in both directions.
    pub bidirectional: bool,
    /// Protocol-specific options, as key and value.
    pub options: Vec<(String, String)>,
}

impl Default for BridgeConfig {
    fn default() -> (c: Self)
        ensures
            c.name@ == "Bridge"@,
            c.protocol@ == "unknown"@,
            c.bidirectional,
            c.options.len() == 0,
    {
        BridgeConfig {
            name: String::from_str("Bridge"),
            protocol: String::from_str("unknown"),
            bidirectional: true,
            options: Vec::new(),
        }
    }
}

impl BridgeConfig {
    /// A configuration with the given name and protocol and no options.
    pub fn named(name: &str, protocol: &str, bidirectional: bool) -> (c: Self)
        ensures
            c.name@ == name@,
            c.protocol@ == protocol@,
            c.bidirectional == bidirectional,
            c.options.len() == 0,
    {
        BridgeConfig {
            name: String::from_str(name),
            protocol: String::from_str(protocol),
            bidirectional,
            options: Vec::new(),
        }
    }
}

/// Bridge errors.
#[derive(Clone, Debug)]
pub enum BridgeError {
    ConnectionFailed(String),
    Protocol(String),
    Mapping(String),
    Send(String),
    Receive(String),
    DeviceNotFound(String),
    Io(String),
    Other(String),
}

/// The message of a bridge error.
pub open spec fn bridge_error_text(e: BridgeError) -> Seq<char> {
    match e {
        BridgeError::ConnectionFailed(m) => "connection failed: "@ + m@,
        BridgeError::Protocol(m) => "protocol error: "@ + m@,
        BridgeError::Mapping(m) => "mapping error: "@ + m@,
        BridgeError::Send(m) => "send error: "@ + m@,
        BridgeError::Receive(m) => "receive error: "@ + m@,
        BridgeError::DeviceNotFound(m) => "device not found: "@ + m@,
        BridgeError::Io(m) => "io error: "@ + m@,
        BridgeError::Other(m) => "bridge error: "@ + m@,
    }
}

impl BridgeError {
    /// The message of the error, as [`bridge_error_text`] states.
    pub fn message(&self) -> (s: String)
        ensures
            s@ == bridge_error_text(*self),
    {
        proof {
            reveal_strlit("connection failed: ");
            reveal_strlit("protocol error: ");
            reveal_strlit("mapping error: ");
            reveal_strlit("send error: ");
            reveal_strlit("receive error: ");
            reveal_strlit("device not found: ");
            reveal_strlit("io error: ");
            reveal_strlit("bridge error: ");
        }
        let (head, detail) = match self {
            BridgeError::ConnectionFailed(m) => ("connection failed: ", m),
            BridgeError::Protocol(m) => ("protocol error: ", m),
            BridgeError::Mapping(m) => ("mapping error: ", m),
            BridgeError::Send(m) => ("send error: ", m),
            BridgeError::Receive(m) => ("receive error: ", m),
            BridgeError::DeviceNotFound(m) => ("device not found: ", m),
            BridgeError::Io(m) => ("io error: ", m),
            BridgeError::Other(m) => ("bridge error: ", m),
        };
        let mut s = String::from_str(head);
        s.append(detail.as_str());
        s
    }
}

} // verus!
