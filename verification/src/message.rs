//! CLASP protocol messages.
use vstd::prelude::*;
use crate::value::{ClaspValue, ValueModel};

verus! {

/// Kind of signal a message carries.
#[derive(Clone, Copy, PartialEq, Eq, Structural, Debug)]
pub enum SignalType {
    Param,
    Event,
    Stream,
    Gesture,
    Timeline,
}

/// Set a parameter value.
#[derive(Debug)]
pub struct SetMessage {
    pub address: String,
    pub value: ClaspValue,
    pub revision: Option<u64>,
    pub lock: bool,
    pub unlock: bool,
}

/// Publish an event, stream sample or gesture.
#[derive(Debug)]
pub struct PublishMessage {
    pub address: String,
    pub signal: Option<SignalType>,
    pub value: Option<ClaspValue>,
    pub payload: Option<ClaspValue>,
    pub id: Option<u32>,
    pub timestamp: Option<u64>,
}

/// One parameter of a snapshot.
#[derive(Debug)]
pub struct ParamValue {
    pub address: String,
    pub value: ClaspValue,
    pub revision: u64,
}

/// The state of a group of parameters.
#[derive(Debug)]
pub struct SnapshotMessage {
    pub params: Vec<ParamValue>,
}

/// A group of messages applied together, optionally at a scheduled time.
#[derive(Debug)]
pub struct BundleMessage {
    pub timestamp: Option<u64>,
    pub messages: Vec<Message>,
}

/// An error reported by the server.
#[derive(Debug)]
pub struct ErrorMessage {
    pub code: u16,
    pub message: String,
    pub address: Option<String>,
}

/// A signal announced by the server.
#[derive(Debug)]
pub struct SignalDefinition {
    pub address: String,
    pub signal_type: SignalType,
    pub description: Option<String>,
}

/// Announcement of the signals of a namespace.
#[derive(Debug)]
pub struct AnnounceMessage {
    pub namespace: String,
    pub signals: Vec<SignalDefinition>,
}

/// Result of a signal query.
#[derive(Debug)]
pub struct ResultMessage {
    pub signals: Vec<SignalDefinition>,
}

/// Client greeting.
#[derive(Debug)]
pub struct HelloMessage {
    pub version: u8,
    pub name: String,
    pub features: Vec<String>,
    pub token: Option<String>,
}

/// Server greeting.
#[derive(Debug)]
pub struct WelcomeMessage {
    pub version: u8,
    pub session: String,
    pub name: String,
    pub features: Vec<String>,
    pub time: u64,
}

/// Subscription request.
#[derive(Debug)]
pub struct SubscribeMessage {
    pub id: u32,
    pub pattern: String,
}

/// Acknowledgement of a request.
#[derive(Debug)]
pub struct AckMessage {
    pub address: Option<String>,
    pub revision: Option<u64>,
}

/// Clock synchronisation exchange.
#[derive(Debug)]
pub struct SyncMessage {
    pub t1: u64,
    pub t2: Option<u64>,
    pub t3: Option<u64>,
}

/// A CLASP message.
#[derive(Debug)]
pub enum Message {
    Hello(HelloMessage),
    Welcome(WelcomeMessage),
    Announce(AnnounceMessage),
    Subscribe(SubscribeMessage),
    Unsubscribe(u32),
    Publish(PublishMessage),
    SetParam(SetMessage),
    Get(String),
    Snapshot(SnapshotMessage),
    Bundle(BundleMessage),
    Sync(SyncMessage),
    Ping,
    Pong,
    Ack(AckMessage),
    Error(ErrorMessage),
    Query(String),
    Result(ResultMessage),
}

/// A plain SET: no revision, no lock, no unlock.
pub open spec fn is_plain_set(m: Message, address: Seq<char>, value: ClaspValue) -> bool {
    &&& m is SetParam
    &&& m->SetParam_0.address@ == address
    &&& m->SetParam_0.value == value
    &&& m->SetParam_0.revision is None
    &&& !m->SetParam_0.lock
    &&& !m->SetParam_0.unlock
}

/// A plain SET (no revision, no lock or unlock) of a value with the given
/// model to an address.
pub open spec fn is_plain_set_of(m: Message, address: Seq<char>, v: ValueModel) -> bool {
    &&& m is SetParam
    &&& m->SetParam_0.address@ == address
    &&& m->SetParam_0.value.model() == v
    &&& m->SetParam_0.revision is None
    &&& !m->SetParam_0.lock
    &&& !m->SetParam_0.unlock
}

/// An event PUBLISH carrying only the given payload.
pub open spec fn is_event(m: Message, address: Seq<char>, payload: Option<ClaspValue>) -> bool {
    &&& m is Publish
    &&& m->Publish_0.address@ == address
    &&& m->Publish_0.signal == Some(SignalType::Event)
    &&& m->Publish_0.value is None
    &&& m->Publish_0.payload == payload
    &&& m->Publish_0.id is None
    &&& m->Publish_0.timestamp is None
}

/// Builds a plain SET message.
pub fn plain_set(address: String, value: ClaspValue) -> (m: Message)
    ensures
        is_plain_set(m, address@, value),
{
    Message::SetParam(SetMessage { address, value, revision: None, lock: false, unlock: false })
}

/// Builds an event PUBLISH message with the given payload.
pub fn event(address: String, payload: Option<ClaspValue>) -> (m: Message)
    ensures
        is_event(m, address@, payload),
{
    Message::Publish(
        PublishMessage {
            address,
            signal: Some(SignalType::Event),
            value: None,
            payload,
            id: None,
            timestamp: None,
        },
    )
}

} // verus!
