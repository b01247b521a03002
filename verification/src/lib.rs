//! CLASP protocol logic: values and messages, address patterns and mappings,
//! protocol bridges (MIDI, sACN, Art-Net, DMX, OSC, MQTT, HTTP, WebSocket,
//! Socket.IO), value transforms, token records, the client-side message
//! state and the conformance report model.
pub mod text;
pub mod value;
pub mod json;
pub mod message;
pub mod midi;
pub mod bridge;
pub mod frames;
pub mod sacn;
pub mod artnet;
pub mod tokens;
pub mod compliance;
pub mod suite;
pub mod pattern;
pub mod builder;
pub mod client;
pub mod client_error;
pub mod connection;
pub mod backoff;
pub mod base64;
pub mod p2p;
pub mod transform;
pub mod mapping;
pub mod dmx;
pub mod http;
pub mod mqtt;
pub mod osc;
pub mod websocket;
pub mod socketio;
pub mod levels;
