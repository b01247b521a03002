# clasp

CLASP (Creative Low-Latency Application Streaming Protocol) carries
parameter values, events and streams between creative tools. This crate is
its protocol logic, verified with Verus: the public functions of `src/`
carry `requires`/`ensures` contracts that Verus proves (a few private
helpers, such as those that build a string, state only what their callers
need), and the calls into outside crates and the clock stand behind small
trusted wrappers whose contracts say what those crates document.

## Layout

- `src/value.rs`, `src/message.rs`: values and messages, with their
  mathematical models; keyed entries (`dict_*`) and their laws.
- `src/text.rs`, `src/json.rs`, `src/base64.rs`: text, decimal numbers,
  UTF-8, JSON documents and base64.
- `src/pattern.rs`: address patterns (`*`, `**`).
- `src/client.rs`, `src/connection.rs`, `src/backoff.rs`,
  `src/builder.rs`, `src/client_error.rs`: the client's state (parameter
  cache, subscriptions, pending reads, signals, errors), its handshake and
  reconnection with exponential backoff.
- `src/p2p.rs`: peer-to-peer connections set up through signalling.
- Bridges: `src/osc.rs`, `src/midi.rs`, `src/artnet.rs`, `src/dmx.rs`,
  `src/sacn.rs` (with `src/frames.rs`, `src/levels.rs`), `src/mqtt.rs`,
  `src/websocket.rs`, `src/socketio.rs`, `src/http.rs`, and
  `src/bridge.rs` for what they share.
- `src/mapping.rs`, `src/transform.rs`: address mappings and the integer
  and text transforms.
- `src/tokens.rs`, `src/compliance.rs`, `src/suite.rs`: token records, and
  the reports of the conformance and end-to-end suites.
- `app/`: the command-line tool (sockets, files, terminal output) and the
  transforms that compute on floating-point numbers.
- `tests/`: tests of the library.

Laws that relate several operations are the public `law_*` proof
functions.
