//! Errors of the CLASP client.
use vstd::prelude::*;

verus! {

/// Client errors. Errors of the protocol codec and of the transports are
/// carried as their messages.
#[derive(Clone, Debug)]
pub enum ClientError {
    ConnectionFailed(String),
    NotConnected,
    AlreadyConnected,
    SendFailed(String),
    Timeout,
    Protocol(String),
    Transport(String),
    Other(String),
}

/// The message of a client error.
pub open spec fn client_error_text(e: ClientError) -> Seq<char> {
    match e {
        ClientError::ConnectionFailed(m) => "connection failed: "@ + m@,
        ClientError::NotConnected => "not connected"@,
        ClientError::AlreadyConnected => "already connected"@,
        ClientError::SendFailed(m) => "send failed: "@ + m@,
        ClientError::Timeout => "timeout"@,
        ClientError::Protocol(m) => "protocol error: "@ + m@,
        ClientError::Transport(m) => "transport error: "@ + m@,
        ClientError::Other(m) => "client error: "@ + m@,
    }
}

impl ClientError {
    /// The message of the error, as [`client_error_text`] states.
    pub fn message(&self) -> (s: String)
        ensures
            s@ == client_error_text(*self),
    {
        proof {
            reveal_strlit("connection failed: ");
            reveal_strlit("not connected");
            reveal_strlit("already connected");
            reveal_strlit("send failed: ");
            reveal_strlit("timeout");
            reveal_strlit("protocol error: ");
            reveal_strlit("transport error: ");
            reveal_strlit("client error: ");
        }
        let (head, detail) = match self {
            ClientError::ConnectionFailed(m) => ("connection failed: ", Some(m)),
            ClientError::NotConnected => ("not connected", None),
            ClientError::AlreadyConnected => ("already connected", None),
            ClientError::SendFailed(m) => ("send failed: ", Some(m)),
            ClientError::Timeout => ("timeout", None),
            ClientError::Protocol(m) => ("protocol error: ", Some(m)),
            ClientError::Transport(m) => ("transport error: ", Some(m)),
            ClientError::Other(m) => ("client error: ", Some(m)),
        };
        let mut s = String::from_str(head);
        if let Some(m) = detail {
            s.append(m.as_str());
        }
        s
    }
}

} // verus!
