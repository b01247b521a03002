//! The client's connection: the handshake with the server, the state of
//! the connection, and when to reconnect.
use vstd::prelude::*;
use crate::backoff::{backoff_ms, may_attempt, next_reconnect_delay};
use crate::builder::ClientConfig;
use crate::client_error::ClientError;
use crate::message::{HelloMessage, Message};

verus! {

/// What the transport delivers while the client waits for the server's
/// greeting.
#[derive(Debug)]
pub enum HandshakeEvent {
    /// A decoded message.
    Received(Message),
    /// Data that does not decode, or another transport event.
    Other,
    /// A transport error.
    Error(String),
    /// The transport disconnected, with its reason.
    Disconnected(Option<String>),
    /// The transport closed.
    Closed,
    /// The wait for the greeting ran out (when reconnecting).
    TimedOut,
}

/// What the handshake does next.
#[derive(Debug)]
pub enum HandshakeStep {
    /// Keep waiting.
    Wait,
    /// The server greeted the client: its session and the server's time.
    Welcomed { session: String, server_time: u64 },
    /// The connection failed.
    Failed(ClientError),
}

/// The message of a failed handshake on a transport event.
pub open spec fn failure_text(event: HandshakeEvent) -> Option<Seq<char>> {
    match event {
        HandshakeEvent::Error(e) => Some(e@),
        HandshakeEvent::Disconnected(Some(r)) => Some(r@),
        HandshakeEvent::Disconnected(None) => Some("Disconnected"@),
        HandshakeEvent::Closed => Some("Connection closed"@),
        _ => None,
    }
}

/// The next step of the handshake on an event: a WELCOME ends it, other
/// messages and events are waited past, transport errors, disconnection
/// and closing fail the connection, and so does the end of the wait.
pub fn handshake_step(event: HandshakeEvent) -> (s: HandshakeStep)
    ensures
        match event {
            HandshakeEvent::Received(Message::Welcome(w)) => s matches HandshakeStep::Welcomed {
                session,
                server_time,
            } && session@ == w.session@ && server_time == w.time,
            HandshakeEvent::Received(_) => s is Wait,
            HandshakeEvent::Other => s is Wait,
            HandshakeEvent::TimedOut => s matches HandshakeStep::Failed(ClientError::Timeout),
            _ => s matches HandshakeStep::Failed(ClientError::ConnectionFailed(m)) && Some(m@)
                == failure_text(event),
        },
{
    proof {
        reveal_strlit("Disconnected");
        reveal_strlit("Connection closed");
    }
    match event {
        HandshakeEvent::Received(Message::Welcome(w)) => HandshakeStep::Welcomed {
            session: w.session,
            server_time: w.time,
        },
        HandshakeEvent::Received(_) => HandshakeStep::Wait,
        HandshakeEvent::Other => HandshakeStep::Wait,
        HandshakeEvent::Error(e) => HandshakeStep::Failed(ClientError::ConnectionFailed(e)),
        HandshakeEvent::Disconnected(reason) => HandshakeStep::Failed(
            ClientError::ConnectionFailed(
                match reason {
                    Some(r) => r,
                    None => String::from_str("Disconnected"),
                },
            ),
        ),
        HandshakeEvent::Closed => HandshakeStep::Failed(
            ClientError::ConnectionFailed(String::from_str("Connection closed")),
        ),
        HandshakeEvent::TimedOut => HandshakeStep::Failed(ClientError::Timeout),
    }
}

/// The HELLO a client sends first: the protocol version, and the name,
/// features and token of its configuration.
pub fn hello_message(config: &ClientConfig, version: u8) -> (m: Message)
    ensures
        m matches Message::Hello(h) && h.version == version && h.name@ == config.name@
            && h.features@.map_values(|f: String| f@) == config.features@.map_values(
            |f: String| f@,
        ) && match (h.token, config.token) {
            (Some(a), Some(b)) => a@ == b@,
            (None, None) => true,
            _ => false,
        },
{
    let features = config.features.clone();
    proof {
        assert(features@.map_values(|f: String| f@) =~= config.features@.map_values(|f: String| f@))
            by {
            assert forall|j: int| 0 <= j < features@.len() implies features@[j]@
                == config.features@[j]@ by {
                assert(cloned::<String>(config.features@[j], features@[j]));
            }
        }
    }
    let token = match &config.token {
        Some(t) => Some(t.clone()),
        None => None,
    };
    Message::Hello(HelloMessage { version, name: config.name.clone(), features, token })
}

/// The state of a client's connection: whether it is connected, its
/// session, the reconnect attempts made since the last success, whether
/// the user closed it, and whether it has a channel to send on (opened with
/// each transport, dropped only when the user closes the connection).
#[derive(Debug)]
pub struct Connection {
    pub connected: bool,
    pub session_id: Option<String>,
    pub reconnect_attempts: u32,
    pub intentionally_closed: bool,
    pub has_sender: bool,
}

/// The connection after the user closed it: not connected, closed by the
/// user, and without a channel to send on.
pub open spec fn closed(c: Connection) -> Connection {
    Connection { connected: false, intentionally_closed: true, has_sender: false, ..c }
}

/// Whether a lost transport is reconnected: reconnecting is enabled and the
/// user did not close the connection.
pub open spec fn reconnects(c: Connection, reconnect_enabled: bool) -> bool {
    reconnect_enabled && !c.intentionally_closed
}

/// Closing refuses every later send with `NotConnected`, stops every later
/// reconnect, and closing again changes nothing.
pub proof fn law_close_refuses_send(c: Connection, reconnect_enabled: bool)
    ensures
        !closed(c).has_sender,
        !closed(c).connected,
        !reconnects(closed(c), reconnect_enabled),
        closed(closed(c)) == closed(c),
{
}

impl Connection {
    /// A connection not yet made.
    pub fn new() -> (c: Self)
        ensures
            !c.connected,
            c.session_id is None,
            c.reconnect_attempts == 0,
            !c.intentionally_closed,
            !c.has_sender,
    {
        Connection {
            connected: false,
            session_id: None,
            reconnect_attempts: 0,
            intentionally_closed: false,
            has_sender: false,
        }
    }

    /// A transport was opened: the connection has a channel to send on.
    pub fn transport_opened(&mut self)
        ensures
            *final(self) == (Connection { has_sender: true, ..*old(self) }),
    {
        self.has_sender = true;
    }

    /// Whether a message may be sent: only with a channel to send on, else
    /// the send is refused with `NotConnected`.
    pub fn check_can_send(&self) -> (r: Result<(), ClientError>)
        ensures
            self.has_sender ==> r is Ok,
            !self.has_sender ==> r matches Err(ClientError::NotConnected),
    {
        if self.has_sender {
            Ok(())
        } else {
            Err(ClientError::NotConnected)
        }
    }

    /// Whether a connection may be made: not while connected.
    pub fn check_can_connect(&self) -> (r: Result<(), ClientError>)
        ensures
            self.connected ==> r matches Err(ClientError::AlreadyConnected),
            !self.connected ==> r is Ok,
    {
        if self.connected {
            Err(ClientError::AlreadyConnected)
        } else {
            Ok(())
        }
    }

    /// The server welcomed the client: it is connected under that session.
    pub fn welcomed(&mut self, session: String)
        ensures
            final(self).connected,
            final(self).session_id matches Some(s) && s@ == session@,
            final(self).reconnect_attempts == old(self).reconnect_attempts,
            final(self).intentionally_closed == old(self).intentionally_closed,
            final(self).has_sender == old(self).has_sender,
    {
        self.session_id = Some(session);
        self.connected = true;
    }

    /// A first connection completed: the reconnect count starts over and
    /// the connection is no longer closed by the user.
    pub fn connect_completed(&mut self)
        ensures
            final(self).reconnect_attempts == 0,
            !final(self).intentionally_closed,
            final(self).connected == old(self).connected,
            final(self).session_id == old(self).session_id,
            final(self).has_sender == old(self).has_sender,
    {
        self.reconnect_attempts = 0;
        self.intentionally_closed = false;
    }

    /// A reconnection succeeded under a new session: connected, and the
    /// reconnect count starts over.
    pub fn reconnected(&mut self, session: String)
        ensures
            final(self).connected,
            final(self).session_id matches Some(s) && s@ == session@,
            final(self).reconnect_attempts == 0,
            final(self).intentionally_closed == old(self).intentionally_closed,
            final(self).has_sender == old(self).has_sender,
    {
        self.welcomed(session);
        self.reconnect_attempts = 0;
    }

    /// The transport disconnected: no longer connected; returns whether to
    /// reconnect (enabled, and not closed by the user).
    pub fn transport_disconnected(&mut self, reconnect_enabled: bool) -> (reconnect: bool)
        ensures
            !final(self).connected,
            reconnect == reconnects(*old(self), reconnect_enabled),
            final(self).session_id == old(self).session_id,
            final(self).reconnect_attempts == old(self).reconnect_attempts,
            final(self).intentionally_closed == old(self).intentionally_closed,
            final(self).has_sender == old(self).has_sender,
    {
        self.connected = false;
        reconnect_enabled && !self.intentionally_closed
    }

    /// The user closed the connection: not connected, never reconnected,
    /// and no channel to send on, as [`closed`] states.
    pub fn close(&mut self)
        ensures
            *final(self) == closed(*old(self)),
    {
        self.intentionally_closed = true;
        self.connected = false;
        self.has_sender = false;
    }

    /// The next reconnect attempt: it is counted (the count wraps around),
    /// and the wait before it is returned, or `None` when the limit of
    /// attempts is reached and the client gives up.
    pub fn next_attempt(&mut self, config: &ClientConfig) -> (r: Option<u64>)
        ensures
            final(self).reconnect_attempts == (if old(self).reconnect_attempts == u32::MAX {
                0
            } else {
                old(self).reconnect_attempts + 1
            }),
            match r {
                Some(d) => may_attempt(
                    old(self).reconnect_attempts as nat,
                    config.max_reconnect_attempts as nat,
                ) && d == backoff_ms(
                    config.reconnect_interval_ms as nat,
                    old(self).reconnect_attempts as nat,
                ),
                None => !may_attempt(
                    old(self).reconnect_attempts as nat,
                    config.max_reconnect_attempts as nat,
                ),
            },
            final(self).connected == old(self).connected,
            final(self).session_id == old(self).session_id,
            final(self).intentionally_closed == old(self).intentionally_closed,
            final(self).has_sender == old(self).has_sender,
    {
        let attempts = self.reconnect_attempts;
        self.reconnect_attempts = attempts.wrapping_add(1);
        next_reconnect_delay(config.reconnect_interval_ms, attempts, config.max_reconnect_attempts)
    }
}

} // verus!
