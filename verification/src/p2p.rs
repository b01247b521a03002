//! Peer-to-peer connections: the peers announced, the state of each
//! connection and the signals exchanged to set one up, and binary payloads
//! of signalling carried as base64 text.
use vstd::prelude::*;
use crate::base64::{base64_from, base64_text, chunk_text, digit, group_of};
use crate::text::{chars_eq, chars_of, push_char};
use crate::client_error::ClientError;
use crate::mqtt::{is_hyphenated_uuid, random_uuid_text};
use crate::value::{dict_find, dict_get, dict_put, dict_without, lemma_dict_find_bounds, lemma_dict_find_first};

verus! {

/// Appends the four characters of the bytes `data[i..]` (one to three),
/// taking the six-bit pieces from the bytes directly.
fn push_piece(out: &mut String, data: &[u8], i: usize)
    requires
        i < data.len(),
    ensures
        final(out)@ == old(out)@ + chunk_text(
            data@.subrange(
                i as int,
                if i + 3 <= data.len() {
                    i + 3
                } else {
                    data.len() as int
                },
            ),
        ),
{
    let len = data.len() - i;
    let ghost c = data@.subrange(
        i as int,
        if i + 3 <= data.len() {
            i + 3
        } else {
            data.len() as int
        },
    );
    let b0 = data[i] as usize;
    let b1: usize = if len > 1 {
        data[i + 1] as usize
    } else {
        0
    };
    let b2: usize = if len > 2 {
        data[i + 2] as usize
    } else {
        0
    };
    let d0 = b0 >> 2;
    let d1 = ((b0 & 0x03) << 4) | (b1 >> 4);
    let d2 = ((b1 & 0x0f) << 2) | (b2 >> 6);
    let d3 = b2 & 0x3f;
    proof {
        let n = group_of(c);
        assert(n == b0 * 65536 + b1 * 256 + b2);
        assert(d0 == (b0 * 65536 + b1 * 256 + b2) / 262144 && d0 < 64) by (bit_vector)
            requires
                b0 < 256,
                b1 < 256,
                b2 < 256,
                d0 == b0 >> 2,
        ;
        assert(d1 == ((b0 * 65536 + b1 * 256 + b2) / 4096) % 64 && d1 < 64) by (bit_vector)
            requires
                b0 < 256,
                b1 < 256,
                b2 < 256,
                d1 == ((b0 & 0x03) << 4) | (b1 >> 4),
        ;
        assert(d2 == ((b0 * 65536 + b1 * 256 + b2) / 64) % 64 && d2 < 64) by (bit_vector)
            requires
                b0 < 256,
                b1 < 256,
                b2 < 256,
                d2 == ((b1 & 0x0f) << 2) | (b2 >> 6),
        ;
        assert(d3 == (b0 * 65536 + b1 * 256 + b2) % 64 && d3 < 64) by (bit_vector)
            requires
                b0 < 256,
                b1 < 256,
                b2 < 256,
                d3 == b2 & 0x3f,
        ;
    }
    let ghost start = out@;
    push_char(out, digit(d0 as u32));
    push_char(out, digit(d1 as u32));
    if len > 1 {
        push_char(out, digit(d2 as u32));
    } else {
        push_char(out, '=');
    }
    if len > 2 {
        push_char(out, digit(d3 as u32));
    } else {
        push_char(out, '=');
    }
    assert(out@ =~= start + chunk_text(c));
}

/// The base64 text of a binary payload, with `=` padding.
pub fn base64_encode(data: &[u8]) -> (s: String)
    ensures
        s@ == base64_text(data@),
{
    let mut out = String::new();
    let mut i: usize = 0;
    while i < data.len()
        invariant
            i <= data.len(),
            out@ + base64_from(data@, i as int) == base64_text(data@),
        decreases data.len() - i,
    {
        let ghost before = out@;
        push_piece(&mut out, data, i);
        if data.len() - i <= 3 {
            assert(before + base64_from(data@, i as int) =~= out@);
            i = data.len();
        } else {
            assert(before + base64_from(data@, i as int) =~= out@ + base64_from(data@, i + 3));
            i = i + 3;
        }
    }
    out
}

/// The state of a peer-to-peer connection.
#[derive(Clone, Copy, PartialEq, Eq, Structural, Debug)]
pub enum P2PConnectionState {
    Disconnected,
    Connecting,
    GatheringCandidates,
    Connected,
}

/// A connection to a peer: the correlation identifier of its signals, its
/// state, whether a WebRTC transport was made for it, and the ICE
/// candidates received before they could be added.
#[derive(Debug)]
pub struct P2PConnection {
    pub peer_session_id: String,
    pub correlation_id: String,
    pub state: P2PConnectionState,
    pub has_transport: bool,
    pub pending_candidates: Vec<String>,
}

/// The model of a connection.
pub struct ConnModel {
    pub correlation: Seq<char>,
    pub state: P2PConnectionState,
    pub has_transport: bool,
    pub pending: Seq<Seq<char>>,
}

/// The texts of a sequence of strings.
pub open spec fn texts(s: Seq<String>) -> Seq<Seq<char>> {
    s.map_values(|t: String| t@)
}

/// The model of a connection.
pub open spec fn conn_model(c: P2PConnection) -> ConnModel {
    ConnModel {
        correlation: c.correlation_id@,
        state: c.state,
        has_transport: c.has_transport,
        pending: texts(c.pending_candidates@),
    }
}

/// Connections keyed by the peer's session.
pub open spec fn conns_model(v: Seq<P2PConnection>) -> Seq<(Seq<char>, ConnModel)> {
    v.map_values(|c: P2PConnection| (c.peer_session_id@, conn_model(c)))
}

/// Announced peers keyed by their session, with their features.
pub open spec fn peers_model(v: Seq<(String, Vec<String>)>) -> Seq<(Seq<char>, Seq<Seq<char>>)> {
    v.map_values(|e: (String, Vec<String>)| (e.0@, texts(e.1@)))
}

/// Events of peer-to-peer connections.
#[derive(Debug)]
pub enum P2PEvent {
    /// A peer announced that it can connect directly.
    PeerAnnounced { session_id: String, features: Vec<String> },
    /// A connection to a peer is established.
    Connected { peer_session_id: String },
    /// A connection to a peer failed.
    ConnectionFailed { peer_session_id: String, reason: String },
    /// A connection to a peer closed.
    Disconnected { peer_session_id: String, reason: Option<String> },
    /// Data received from a peer.
    Data { peer_session_id: String, data: Vec<u8>, reliable: bool },
}

/// Signals sent to a peer through the router to set up a connection.
#[derive(Debug)]
pub enum P2PSignal {
    Offer { from: String, sdp: String, correlation_id: String },
    Answer { from: String, sdp: String, correlation_id: String },
    IceCandidate { from: String, candidate: String, correlation_id: String },
    Connected { from: String, correlation_id: String },
    Disconnected { from: String, correlation_id: String, reason: Option<String> },
}

/// What to do with an answer received from a peer.
#[derive(Debug)]
pub enum AnswerStep {
    /// Nothing: no connection to the peer, another correlation, or no
    /// transport.
    Ignore,
    /// Set the answer on the transport and add the candidates that waited.
    Apply { pending_candidates: Vec<String> },
}

/// What to do with an ICE candidate received from a peer.
#[derive(Clone, Copy, PartialEq, Eq, Structural, Debug)]
pub enum IceStep {
    /// Nothing: no connection to the peer, or another correlation.
    Ignore,
    /// Add it to the transport (and queue it where that fails).
    Add,
    /// It was queued until the transport can take it.
    Queued,
}

/// The reason given when the user closes a connection.
pub open spec fn user_disconnect_reason() -> Seq<char> {
    "User requested disconnect"@
}

/// Peer-to-peer connection manager: our session, the connections by peer
/// and the peers that announced themselves. The WebRTC transports and the
/// router live outside; this decides what each signal does.
#[derive(Debug)]
pub struct P2PManager {
    session_id: Option<String>,
    connections: Vec<P2PConnection>,
    known_peers: Vec<(String, Vec<String>)>,
}

/// The index of the first connection to a peer.
fn find_conn(v: &Vec<P2PConnection>, peer: &str) -> (r: Option<usize>)
    ensures
        match r {
            Some(i) => dict_find(conns_model(v@), peer@) == Some(i as int) && i < v.len(),
            None => dict_find(conns_model(v@), peer@) is None,
        },
{
    let ghost m = conns_model(v@);
    let pc = chars_of(peer);
    let mut i: usize = 0;
    while i < v.len()
        invariant
            i <= v.len(),
            m == conns_model(v@),
            pc@ == peer@,
            forall|j: int| 0 <= j < i ==> #[trigger] m[j].0 != peer@,
        decreases v.len() - i,
    {
        assert(m[i as int].0 == v@[i as int].peer_session_id@);
        if chars_eq(&chars_of(v[i].peer_session_id.as_str()), &pc) {
            proof {
                lemma_dict_find_first(m, peer@, i as int);
            }
            return Some(i);
        }
        i = i + 1;
    }
    proof {
        lemma_dict_find_bounds(m, peer@);
        if dict_find(m, peer@) is Some {
            let j = dict_find(m, peer@)->0;
            assert(m[j].0 == peer@);
        }
    }
    None
}

/// Stores a connection: it replaces the first one to the same peer, or is
/// appended.
fn put_conn(v: &mut Vec<P2PConnection>, c: P2PConnection)
    ensures
        conns_model(final(v)@) == dict_put(conns_model(old(v)@), c.peer_session_id@, conn_model(c)),
{
    let ghost m = conns_model(v@);
    let ghost k = c.peer_session_id@;
    let ghost cm = conn_model(c);
    match find_conn(v, c.peer_session_id.as_str()) {
        Some(i) => {
            proof {
                lemma_dict_find_bounds(m, k);
            }
            v.set(i, c);
            assert(conns_model(v@) =~= m.update(i as int, (k, cm)));
        },
        None => {
            v.push(c);
            assert(conns_model(v@) =~= m.push((k, cm)));
        },
    }
}

/// Drops every connection to a peer and returns the first.
fn take_conn(v: &mut Vec<P2PConnection>, peer: &str) -> (r: Option<P2PConnection>)
    ensures
        conns_model(final(v)@) == dict_without(conns_model(old(v)@), peer@),
        match r {
            Some(c) => dict_get(conns_model(old(v)@), peer@) == Some(conn_model(c))
                && c.peer_session_id@ == peer@,
            None => dict_get(conns_model(old(v)@), peer@) is None,
        },
{
    let ghost m = conns_model(v@);
    let mut kept: Vec<P2PConnection> = Vec::new();
    let mut found: Option<P2PConnection> = None;
    let mut rest: Vec<P2PConnection> = Vec::new();
    std::mem::swap(&mut rest, v);
    let ghost all = rest@;
    let n = rest.len();
    let pc = chars_of(peer);
    let mut i: usize = 0;
    while i < n
        invariant
            pc@ == peer@,
            n == all.len(),
            i <= n,
            m == conns_model(all),
            rest@ == all.subrange(i as int, n as int),
            conns_model(kept@) == dict_without(m.take(i as int), peer@),
            match found {
                Some(c) => dict_get(m.take(i as int), peer@) == Some(conn_model(c))
                    && c.peer_session_id@ == peer@,
                None => dict_get(m.take(i as int), peer@) is None,
            },
        decreases n - i,
    {
        let c = rest.remove(0);
        proof {
            assert(c == all[i as int]);
            assert(m.take(i + 1).drop_last() =~= m.take(i as int));
            assert(rest@ =~= all.subrange(i + 1, n as int));
            lemma_dict_find_bounds(m.take(i as int), peer@);
            lemma_dict_find_bounds(m.take(i + 1), peer@);
        }
        if chars_eq(&chars_of(c.peer_session_id.as_str()), &pc) {
            proof {
                assert(m.take(i + 1).last().0 == peer@);
            }
            if found.is_none() {
                proof {
                    lemma_dict_find_first(m.take(i + 1), peer@, i as int);
                }
                found = Some(c);
            } else {
                proof {
                    let j = dict_find(m.take(i as int), peer@)->0;
                    assert(m.take(i + 1)[j] == m.take(i as int)[j]);
                    assert forall|q: int| 0 <= q < j implies #[trigger] m.take(i + 1)[q].0 != peer@ by {
                        assert(m.take(i + 1)[q] == m.take(i as int)[q]);
                        crate::value::lemma_dict_find_smallest(m.take(i as int), peer@, q);
                    }
                    lemma_dict_find_first(m.take(i + 1), peer@, j);
                }
            }
        } else {
            let ghost before = kept@;
            proof {
                if dict_find(m.take(i as int), peer@) is Some {
                    let j = dict_find(m.take(i as int), peer@)->0;
                    assert(m.take(i + 1)[j] == m.take(i as int)[j]);
                    assert forall|q: int| 0 <= q < j implies #[trigger] m.take(i + 1)[q].0 != peer@ by {
                        assert(m.take(i + 1)[q] == m.take(i as int)[q]);
                        crate::value::lemma_dict_find_smallest(m.take(i as int), peer@, q);
                    }
                    lemma_dict_find_first(m.take(i + 1), peer@, j);
                } else {
                    assert forall|q: int| 0 <= q < i + 1 implies #[trigger] m.take(i + 1)[q].0 != peer@ by {
                        if q < i {
                            assert(m.take(i + 1)[q] == m.take(i as int)[q]);
                        }
                    }
                    lemma_dict_find_bounds(m.take(i + 1), peer@);
                }
            }
            kept.push(c);
            assert(conns_model(kept@) =~= conns_model(before).push(m[i as int]));
        }
        i = i + 1;
    }
    assert(m.take(n as int) =~= m);
    *v = kept;
    found
}

/// The index of the first announced peer with a session.
fn find_peer(v: &Vec<(String, Vec<String>)>, session: &Vec<char>) -> (r: Option<usize>)
    ensures
        match r {
            Some(i) => dict_find(peers_model(v@), session@) == Some(i as int) && i < v.len(),
            None => dict_find(peers_model(v@), session@) is None,
        },
{
    let ghost m = peers_model(v@);
    let mut i: usize = 0;
    while i < v.len()
        invariant
            i <= v.len(),
            m == peers_model(v@),
            forall|j: int| 0 <= j < i ==> #[trigger] m[j].0 != session@,
        decreases v.len() - i,
    {
        assert(m[i as int].0 == v@[i as int].0@);
        if chars_eq(&chars_of(v[i].0.as_str()), session) {
            proof {
                lemma_dict_find_first(m, session@, i as int);
            }
            return Some(i);
        }
        i = i + 1;
    }
    proof {
        lemma_dict_find_bounds(m, session@);
        if dict_find(m, session@) is Some {
            let j = dict_find(m, session@)->0;
            assert(m[j].0 == session@);
        }
    }
    None
}

impl P2PManager {
    /// Our session, once the client has one.
    pub closed spec fn session(&self) -> Option<Seq<char>> {
        match self.session_id {
            Some(s) => Some(s@),
            None => None,
        }
    }

    /// The connections, keyed by peer session.
    pub closed spec fn conns(&self) -> Seq<(Seq<char>, ConnModel)> {
        conns_model(self.connections@)
    }

    /// The announced peers, keyed by session, with their features.
    pub closed spec fn peers(&self) -> Seq<(Seq<char>, Seq<Seq<char>>)> {
        peers_model(self.known_peers@)
    }

    /// A manager with no session, no connections and no known peers.
    pub fn new() -> (m: Self)
        ensures
            m.session() is None,
            m.conns() == Seq::<(Seq<char>, ConnModel)>::empty(),
            m.peers() == Seq::<(Seq<char>, Seq<Seq<char>>)>::empty(),
    {
        let m = P2PManager { session_id: None, connections: Vec::new(), known_peers: Vec::new() };
        assert(m.conns() =~= Seq::<(Seq<char>, ConnModel)>::empty());
        assert(m.peers() =~= Seq::<(Seq<char>, Seq<Seq<char>>)>::empty());
        m
    }

    /// Records our session (once connected to the router).
    pub fn set_session_id(&mut self, session_id: String)
        ensures
            final(self).session() == Some(session_id@),
            final(self).conns() == old(self).conns(),
            final(self).peers() == old(self).peers(),
    {
        self.session_id = Some(session_id);
    }

    /// Our session.
    pub fn session_id(&self) -> (r: Option<String>)
        ensures
            match r {
                Some(s) => self.session() == Some(s@),
                None => self.session() is None,
            },
    {
        match &self.session_id {
            Some(s) => Some(s.clone()),
            None => None,
        }
    }

    /// A peer announced itself: another session's features are recorded
    /// and reported; our own announcement is ignored.
    pub fn handle_announce(&mut self, session_id: String, features: Vec<String>) -> (e: Option<P2PEvent>)
        ensures
            final(self).session() == old(self).session(),
            final(self).conns() == old(self).conns(),
            old(self).session() == Some(session_id@) ==> e is None && final(self).peers() == old(self).peers(),
            old(self).session() != Some(session_id@) ==> final(self).peers() == dict_put(
                old(self).peers(),
                session_id@,
                texts(features@),
            ) && (e matches Some(P2PEvent::PeerAnnounced { session_id: s, features: f }) && s@
                == session_id@ && texts(f@) == texts(features@)),
    {
        let sc = chars_of(session_id.as_str());
        if let Some(ours) = &self.session_id {
            if chars_eq(&chars_of(ours.as_str()), &sc) {
                return None;
            }
        }
        let ghost m = peers_model(self.known_peers@);
        let ghost k = session_id@;
        let ghost fm = texts(features@);
        let at = find_peer(&self.known_peers, &sc);
        let event_id = session_id.clone();
        let event_features = features.clone();
        proof {
            assert(texts(event_features@) =~= texts(features@)) by {
                assert forall|j: int| 0 <= j < features@.len() implies event_features@[j]@ == features@[j]@ by {
                    assert(cloned::<String>(features@[j], event_features@[j]));
                }
            }
        }
        match at {
            Some(j) => {
                proof {
                    lemma_dict_find_bounds(m, k);
                }
                self.known_peers.set(j, (session_id, features));
                assert(peers_model(self.known_peers@) =~= m.update(j as int, (k, fm)));
            },
            None => {
                self.known_peers.push((session_id, features));
                assert(peers_model(self.known_peers@) =~= m.push((k, fm)));
            },
        }
        Some(P2PEvent::PeerAnnounced { session_id: event_id, features: event_features })
    }

    /// The sessions of the announced peers.
    pub fn known_peers(&self) -> (r: Vec<String>)
        ensures
            texts(r@) == self.peers().map_values(|e: (Seq<char>, Seq<Seq<char>>)| e.0),
    {
        let mut r: Vec<String> = Vec::new();
        let mut i: usize = 0;
        while i < self.known_peers.len()
            invariant
                i <= self.known_peers.len(),
                texts(r@) == peers_model(self.known_peers@).take(i as int).map_values(
                    |e: (Seq<char>, Seq<Seq<char>>)| e.0,
                ),
            decreases self.known_peers.len() - i,
        {
            let ghost before = r@;
            r.push(self.known_peers[i].0.clone());
            assert(texts(r@) =~= peers_model(self.known_peers@).take(i + 1).map_values(
                |e: (Seq<char>, Seq<Seq<char>>)| e.0,
            )) by {
                assert(texts(r@) =~= texts(before).push(self.known_peers@[i as int].0@));
            }
            i = i + 1;
        }
        assert(peers_model(self.known_peers@).take(i as int) =~= peers_model(self.known_peers@));
        r
    }

    /// Whether the connection to a peer is established.
    pub fn is_peer_connected(&self, peer_session_id: &str) -> (b: bool)
        ensures
            b == (dict_get(self.conns(), peer_session_id@) matches Some(c) && c.state
                == P2PConnectionState::Connected),
    {
        match find_conn(&self.connections, peer_session_id) {
            Some(i) => {
                proof {
                    lemma_dict_find_bounds(self.conns(), peer_session_id@);
                }
                self.connections[i].state == P2PConnectionState::Connected
            },
            None => false,
        }
    }
}

/// The connection model with another state.
pub open spec fn with_state(c: ConnModel, state: P2PConnectionState) -> ConnModel {
    ConnModel { state, ..c }
}

/// The connection model once an answer is applied: gathering candidates,
/// with no candidates waiting.
pub open spec fn answered(c: ConnModel) -> ConnModel {
    ConnModel { state: P2PConnectionState::GatheringCandidates, pending: Seq::empty(), ..c }
}

/// The connection model with one more candidate waiting.
pub open spec fn with_candidate(c: ConnModel, candidate: Seq<char>) -> ConnModel {
    ConnModel { pending: c.pending.push(candidate), ..c }
}

/// The text of an optional string.
pub open spec fn opt_text(o: Option<String>) -> Option<Seq<char>> {
    match o {
        Some(s) => Some(s@),
        None => None,
    }
}

/// A connection model changed: a new state where given, and its waiting
/// candidates cleared, or one more added.
pub open spec fn conn_updated(
    c: ConnModel,
    state: Option<P2PConnectionState>,
    candidate: Option<Seq<char>>,
    clear: bool,
) -> ConnModel {
    ConnModel {
        correlation: c.correlation,
        state: match state {
            Some(st) => st,
            None => c.state,
        },
        has_transport: c.has_transport,
        pending: if clear {
            Seq::empty()
        } else {
            match candidate {
                Some(k) => c.pending.push(k),
                None => c.pending,
            }
        },
    }
}

/// A new connection with a transport, in the given state.
pub open spec fn fresh_conn(correlation: Seq<char>, state: P2PConnectionState) -> ConnModel {
    ConnModel { correlation, state, has_transport: true, pending: Seq::empty() }
}

/// The correlation identifier of a connection we open: our session, the
/// peer's session and a UUID, joined by `-`.
pub open spec fn is_correlation_for(c: Seq<char>, ours: Seq<char>, peer: Seq<char>) -> bool {
    exists|u: Seq<char>| #[trigger] is_hyphenated_uuid(u) && c == ours + "-"@ + peer + "-"@ + u
}

/// Takes out the connection at `i`, changes it, and puts it back.
fn update_conn(v: &mut Vec<P2PConnection>, i: usize, state: Option<P2PConnectionState>, candidate: Option<String>, clear_pending: bool) -> (pending: Vec<String>)
    requires
        i < old(v).len(),
    ensures
        final(v)@.len() == old(v)@.len(),
        forall|j: int| 0 <= j < old(v)@.len() && j != i ==> #[trigger] final(v)@[j] == old(v)@[j],
        final(v)@[i as int].peer_session_id == old(v)@[i as int].peer_session_id,
        conn_model(final(v)@[i as int]) == conn_updated(
            conn_model(old(v)@[i as int]),
            state,
            opt_text(candidate),
            clear_pending,
        ),
        texts(pending@) == if clear_pending {
            conn_model(old(v)@[i as int]).pending
        } else {
            Seq::empty()
        },
{
    let mut c = v.remove(i);
    let ghost c0 = c;
    if let Some(st) = state {
        c.state = st;
    }
    let mut taken: Vec<String> = Vec::new();
    if clear_pending {
        std::mem::swap(&mut taken, &mut c.pending_candidates);
    } else if let Some(cand) = candidate {
        c.pending_candidates.push(cand);
        assert(texts(c.pending_candidates@) =~= texts(c0.pending_candidates@).push(cand@));
    }
    proof {
        assert(texts(Seq::<String>::empty()) =~= Seq::<Seq<char>>::empty());
    }
    v.insert(i, c);
    taken
}

/// The connections after changing the one at the first index of `peer`.
proof fn lemma_update_is_put(old_v: Seq<P2PConnection>, new_v: Seq<P2PConnection>, peer: Seq<char>, i: int)
    requires
        dict_find(conns_model(old_v), peer) == Some(i),
        new_v.len() == old_v.len(),
        0 <= i < old_v.len(),
        forall|j: int| 0 <= j < old_v.len() && j != i ==> #[trigger] new_v[j] == old_v[j],
        new_v[i].peer_session_id == old_v[i].peer_session_id,
    ensures
        conns_model(new_v) == dict_put(conns_model(old_v), peer, conn_model(new_v[i])),
{
    lemma_dict_find_bounds(conns_model(old_v), peer);
    assert(conns_model(new_v) =~= conns_model(old_v).update(i, (peer, conn_model(new_v[i]))));
}

impl P2PManager {
    /// The correlation identifier for a connection we open to a peer (see
    /// [`is_correlation_for`]); refused without a session.
    pub fn correlation_for(&self, peer_session_id: &str) -> (r: Result<String, ClientError>)
        ensures
            match self.session() {
                None => r matches Err(ClientError::NotConnected),
                Some(ours) => r matches Ok(c) && is_correlation_for(c@, ours, peer_session_id@),
            },
    {
        proof {
            reveal_strlit("-");
        }
        match &self.session_id {
            None => Err(ClientError::NotConnected),
            Some(ours) => {
                let u = random_uuid_text();
                let mut c = ours.clone();
                c.append("-");
                c.append(peer_session_id);
                c.append("-");
                c.append(u.as_str());
                assert(is_hyphenated_uuid(u@));
                Ok(c)
            },
        }
    }

    /// We sent an offer to a peer over a new transport: the connection is
    /// recorded as connecting.
    pub fn offer_sent(&mut self, peer_session_id: String, correlation_id: String)
        ensures
            final(self).conns() == dict_put(
                old(self).conns(),
                peer_session_id@,
                fresh_conn(correlation_id@, P2PConnectionState::Connecting),
            ),
            final(self).session() == old(self).session(),
            final(self).peers() == old(self).peers(),
    {
        let c = P2PConnection {
            peer_session_id,
            correlation_id,
            state: P2PConnectionState::Connecting,
            has_transport: true,
            pending_candidates: Vec::new(),
        };
        assert(texts(c.pending_candidates@) =~= Seq::<Seq<char>>::empty());
        put_conn(&mut self.connections, c);
    }

    /// We answered a peer's offer over a new transport: the connection is
    /// recorded as gathering candidates.
    pub fn offer_received(&mut self, from: String, correlation_id: String)
        ensures
            final(self).conns() == dict_put(
                old(self).conns(),
                from@,
                fresh_conn(correlation_id@, P2PConnectionState::GatheringCandidates),
            ),
            final(self).session() == old(self).session(),
            final(self).peers() == old(self).peers(),
    {
        let c = P2PConnection {
            peer_session_id: from,
            correlation_id,
            state: P2PConnectionState::GatheringCandidates,
            has_transport: true,
            pending_candidates: Vec::new(),
        };
        assert(texts(c.pending_candidates@) =~= Seq::<Seq<char>>::empty());
        put_conn(&mut self.connections, c);
    }

    /// An answer from a peer: for the connection with that correlation and
    /// a transport, the state becomes gathering candidates and the queued
    /// candidates are handed out to be added; anything else is ignored.
    pub fn handle_answer(&mut self, from: &str, correlation_id: &str) -> (r: AnswerStep)
        ensures
            final(self).session() == old(self).session(),
            final(self).peers() == old(self).peers(),
            match dict_get(old(self).conns(), from@) {
                Some(c) => if c.correlation == correlation_id@ && c.has_transport {
                    &&& r matches AnswerStep::Apply { pending_candidates: p } && texts(p@) == c.pending
                    &&& final(self).conns() == dict_put(
                        old(self).conns(),
                        from@,
                        answered(c),
                    )
                } else {
                    r is Ignore && final(self).conns() == old(self).conns()
                },
                None => r is Ignore && final(self).conns() == old(self).conns(),
            },
    {
        match find_conn(&self.connections, from) {
            None => AnswerStep::Ignore,
            Some(i) => {
                proof {
                    lemma_dict_find_bounds(self.conns(), from@);
                }
                let cc = chars_of(correlation_id);
                if !chars_eq(&chars_of(self.connections[i].correlation_id.as_str()), &cc)
                    || !self.connections[i].has_transport {
                    return AnswerStep::Ignore;
                }
                let ghost before = self.connections@;
                let pending = update_conn(
                    &mut self.connections,
                    i,
                    Some(P2PConnectionState::GatheringCandidates),
                    None,
                    true,
                );
                proof {
                    lemma_update_is_put(before, self.connections@, from@, i as int);
                }
                AnswerStep::Apply { pending_candidates: pending }
            },
        }
    }

    /// An ICE candidate from a peer: for the connection with that
    /// correlation it is to be added to the transport, or queued while
    /// there is none; anything else is ignored.
    pub fn handle_ice_candidate(&mut self, from: &str, candidate: String, correlation_id: &str) -> (r: IceStep)
        ensures
            final(self).session() == old(self).session(),
            final(self).peers() == old(self).peers(),
            match dict_get(old(self).conns(), from@) {
                Some(c) => if c.correlation != correlation_id@ {
                    r == IceStep::Ignore && final(self).conns() == old(self).conns()
                } else if c.has_transport {
                    r == IceStep::Add && final(self).conns() == old(self).conns()
                } else {
                    r == IceStep::Queued && final(self).conns() == dict_put(
                        old(self).conns(),
                        from@,
                        with_candidate(c, candidate@),
                    )
                },
                None => r == IceStep::Ignore && final(self).conns() == old(self).conns(),
            },
    {
        match find_conn(&self.connections, from) {
            None => IceStep::Ignore,
            Some(i) => {
                proof {
                    lemma_dict_find_bounds(self.conns(), from@);
                }
                let cc = chars_of(correlation_id);
                if !chars_eq(&chars_of(self.connections[i].correlation_id.as_str()), &cc) {
                    return IceStep::Ignore;
                }
                if self.connections[i].has_transport {
                    return IceStep::Add;
                }
                let ghost before = self.connections@;
                let _ = update_conn(&mut self.connections, i, None, Some(candidate), false);
                proof {
                    lemma_update_is_put(before, self.connections@, from@, i as int);
                }
                IceStep::Queued
            },
        }
    }

    /// Queues a candidate that the transport of a connection refused, until
    /// the transport can take it.
    pub fn queue_candidate(&mut self, from: &str, candidate: String)
        ensures
            final(self).session() == old(self).session(),
            final(self).peers() == old(self).peers(),
            match dict_get(old(self).conns(), from@) {
                Some(c) => final(self).conns() == dict_put(
                    old(self).conns(),
                    from@,
                    with_candidate(c, candidate@),
                ),
                None => final(self).conns() == old(self).conns(),
            },
    {
        if let Some(i) = find_conn(&self.connections, from) {
            proof {
                lemma_dict_find_bounds(self.conns(), from@);
            }
            let ghost before = self.connections@;
            let _ = update_conn(&mut self.connections, i, None, Some(candidate), false);
            proof {
                lemma_update_is_put(before, self.connections@, from@, i as int);
            }
        }
    }

    /// A peer reports the connection established: with that correlation it
    /// is marked connected and reported.
    pub fn handle_connected(&mut self, from: &str, correlation_id: &str) -> (e: Option<P2PEvent>)
        ensures
            final(self).session() == old(self).session(),
            final(self).peers() == old(self).peers(),
            match dict_get(old(self).conns(), from@) {
                Some(c) => if c.correlation == correlation_id@ {
                    &&& e matches Some(P2PEvent::Connected { peer_session_id: p }) && p@ == from@
                    &&& final(self).conns() == dict_put(
                        old(self).conns(),
                        from@,
                        with_state(c, P2PConnectionState::Connected),
                    )
                } else {
                    e is None && final(self).conns() == old(self).conns()
                },
                None => e is None && final(self).conns() == old(self).conns(),
            },
    {
        match find_conn(&self.connections, from) {
            None => None,
            Some(i) => {
                proof {
                    lemma_dict_find_bounds(self.conns(), from@);
                }
                let cc = chars_of(correlation_id);
                if !chars_eq(&chars_of(self.connections[i].correlation_id.as_str()), &cc) {
                    return None;
                }
                let ghost before = self.connections@;
                let _ = update_conn(&mut self.connections, i, Some(P2PConnectionState::Connected), None, false);
                proof {
                    lemma_update_is_put(before, self.connections@, from@, i as int);
                }
                Some(P2PEvent::Connected { peer_session_id: String::from_str(from) })
            },
        }
    }

    /// A peer closed the connection: it is dropped and reported with the
    /// peer's reason.
    pub fn handle_disconnected(&mut self, from: &str, reason: Option<String>) -> (e: P2PEvent)
        ensures
            final(self).session() == old(self).session(),
            final(self).peers() == old(self).peers(),
            final(self).conns() == dict_without(old(self).conns(), from@),
            e matches P2PEvent::Disconnected { peer_session_id: p, reason: r } && p@ == from@ && r
                == reason,
    {
        let _ = take_conn(&mut self.connections, from);
        P2PEvent::Disconnected { peer_session_id: String::from_str(from), reason }
    }

    /// Closes the connection to a peer: it is dropped, and the peer is told
    /// and the closing reported, with the reason `User requested
    /// disconnect`; refused without a session (the connection is dropped
    /// all the same). Nothing happens without a connection.
    pub fn disconnect_peer(&mut self, peer_session_id: &str) -> (r: Result<Option<(P2PSignal, P2PEvent)>, ClientError>)
        ensures
            final(self).session() == old(self).session(),
            final(self).peers() == old(self).peers(),
            final(self).conns() == dict_without(old(self).conns(), peer_session_id@),
            match dict_get(old(self).conns(), peer_session_id@) {
                None => r matches Ok(None),
                Some(c) => match old(self).session() {
                    None => r matches Err(ClientError::NotConnected),
                    Some(ours) => r matches Ok(
                        Some(
                            (
                                P2PSignal::Disconnected { from: f, correlation_id: k, reason: Some(why) },
                                P2PEvent::Disconnected { peer_session_id: p, reason: Some(why2) },
                            ),
                        ),
                    ) && f@ == ours && k@ == c.correlation && why@ == user_disconnect_reason() && p@
                        == peer_session_id@ && why2@ == user_disconnect_reason(),
                },
            },
    {
        proof {
            reveal_strlit("User requested disconnect");
        }
        match take_conn(&mut self.connections, peer_session_id) {
            None => Ok(None),
            Some(c) => match &self.session_id {
                None => Err(ClientError::NotConnected),
                Some(ours) => {
                    let signal = P2PSignal::Disconnected {
                        from: ours.clone(),
                        correlation_id: c.correlation_id,
                        reason: Some(String::from_str("User requested disconnect")),
                    };
                    let event = P2PEvent::Disconnected {
                        peer_session_id: String::from_str(peer_session_id),
                        reason: Some(String::from_str("User requested disconnect")),
                    };
                    Ok(Some((signal, event)))
                },
            },
        }
    }

    /// The data channel to a peer opened: the connection is marked
    /// connected, and the peer is told and the connection reported;
    /// refused without a session. Nothing happens without a connection.
    pub fn mark_connected(&mut self, peer_session_id: &str) -> (r: Result<Option<(P2PSignal, P2PEvent)>, ClientError>)
        ensures
            final(self).session() == old(self).session(),
            final(self).peers() == old(self).peers(),
            match old(self).session() {
                None => r matches Err(ClientError::NotConnected) && final(self).conns() == old(self).conns(),
                Some(ours) => match dict_get(old(self).conns(), peer_session_id@) {
                    None => r matches Ok(None) && final(self).conns() == old(self).conns(),
                    Some(c) => {
                        &&& r matches Ok(
                            Some(
                                (
                                    P2PSignal::Connected { from: f, correlation_id: k },
                                    P2PEvent::Connected { peer_session_id: p },
                                ),
                            ),
                        ) && f@ == ours && k@ == c.correlation && p@ == peer_session_id@
                        &&& final(self).conns() == dict_put(
                            old(self).conns(),
                            peer_session_id@,
                            with_state(c, P2PConnectionState::Connected),
                        )
                    },
                },
            },
    {
        let ours = match &self.session_id {
            None => return Err(ClientError::NotConnected),
            Some(s) => s.clone(),
        };
        match find_conn(&self.connections, peer_session_id) {
            None => Ok(None),
            Some(i) => {
                proof {
                    lemma_dict_find_bounds(self.conns(), peer_session_id@);
                }
                let ghost before = self.connections@;
                let _ = update_conn(&mut self.connections, i, Some(P2PConnectionState::Connected), None, false);
                proof {
                    lemma_update_is_put(before, self.connections@, peer_session_id@, i as int);
                }
                let signal = P2PSignal::Connected {
                    from: ours,
                    correlation_id: self.connections[i].correlation_id.clone(),
                };
                let event = P2PEvent::Connected { peer_session_id: String::from_str(peer_session_id) };
                Ok(Some((signal, event)))
            },
        }
    }
}

/// A connection marked connected makes its peer count as connected, and a
/// dropped connection leaves no state behind for its peer; other peers
/// keep their connections either way.
pub proof fn law_connection_states(
    conns: Seq<(Seq<char>, ConnModel)>,
    peer: Seq<char>,
    c: ConnModel,
    other: Seq<char>,
)
    requires
        other != peer,
    ensures
        dict_get(dict_put(conns, peer, with_state(c, P2PConnectionState::Connected)), peer) matches Some(
            d,
        ) && d.state == P2PConnectionState::Connected,
        dict_get(dict_without(conns, peer), peer) is None,
        dict_get(dict_put(conns, peer, with_state(c, P2PConnectionState::Connected)), other)
            == dict_get(conns, other),
        dict_get(dict_without(conns, peer), other) == dict_get(conns, other),
{
    crate::value::law_get_after_put(conns, peer, with_state(c, P2PConnectionState::Connected), other);
    crate::value::law_get_after_remove(conns, peer);
    crate::value::lemma_get_without_other(conns, peer, other);
}

/// What a signal from a peer asks of the WebRTC side.
#[derive(Debug)]
pub enum SignalStep {
    /// Make an answering transport for the offer, then record it with
    /// [`P2PManager::offer_received`] and send the answer.
    AnswerOffer { from: String, sdp: String, correlation_id: String },
    /// Set the answer on the transport and add the candidates that waited.
    ApplyAnswer { from: String, sdp: String, pending_candidates: Vec<String> },
    /// Add the candidate to the transport (queue it with
    /// [`P2PManager::queue_candidate`] where that fails).
    AddCandidate { from: String, candidate: String },
    /// Report the event, if any; nothing else to do.
    Report(Option<P2PEvent>),
}

impl P2PManager {
    /// Whether a signal published at `address` is for us: the address is
    /// the signal prefix followed by our session (and we have one).
    pub fn signal_for_us(&self, address: &str, prefix: &str) -> (b: bool)
        ensures
            b == (self.session() matches Some(ours) && address@ == prefix@ + ours),
    {
        match &self.session_id {
            None => false,
            Some(ours) => {
                let mut expected = String::from_str(prefix);
                expected.append(ours.as_str());
                chars_eq(&chars_of(address), &chars_of(expected.as_str()))
            },
        }
    }

    /// Handles a signal from a peer: an offer is to be answered, an answer
    /// applied, a candidate added or queued, and a connected or
    /// disconnected notice recorded and reported, as the handlers of each
    /// state.
    pub fn handle_signal(&mut self, signal: P2PSignal) -> (r: SignalStep)
        ensures
            final(self).session() == old(self).session(),
            final(self).peers() == old(self).peers(),
            match signal {
                P2PSignal::Offer { from, sdp, correlation_id } => final(self).conns() == old(
                    self,
                ).conns() && (r matches SignalStep::AnswerOffer { from: f, sdp: d, correlation_id: c }
                    && f@ == from@ && d@ == sdp@ && c@ == correlation_id@),
                P2PSignal::Answer { from, sdp, correlation_id } => match dict_get(
                    old(self).conns(),
                    from@,
                ) {
                    Some(c) => if c.correlation == correlation_id@ && c.has_transport {
                        &&& r matches SignalStep::ApplyAnswer { from: f, sdp: d, pending_candidates: p }
                            && f@ == from@ && d@ == sdp@ && texts(p@) == c.pending
                        &&& final(self).conns() == dict_put(old(self).conns(), from@, answered(c))
                    } else {
                        r matches SignalStep::Report(None) && final(self).conns() == old(self).conns()
                    },
                    None => r matches SignalStep::Report(None) && final(self).conns() == old(
                        self,
                    ).conns(),
                },
                P2PSignal::IceCandidate { from, candidate, correlation_id } => match dict_get(
                    old(self).conns(),
                    from@,
                ) {
                    Some(c) => if c.correlation != correlation_id@ {
                        r matches SignalStep::Report(None) && final(self).conns() == old(self).conns()
                    } else if c.has_transport {
                        (r matches SignalStep::AddCandidate { from: f, candidate: k } && f@ == from@
                            && k@ == candidate@) && final(self).conns() == old(self).conns()
                    } else {
                        r matches SignalStep::Report(None) && final(self).conns() == dict_put(
                            old(self).conns(),
                            from@,
                            with_candidate(c, candidate@),
                        )
                    },
                    None => r matches SignalStep::Report(None) && final(self).conns() == old(
                        self,
                    ).conns(),
                },
                P2PSignal::Connected { from, correlation_id } => match dict_get(
                    old(self).conns(),
                    from@,
                ) {
                    Some(c) => if c.correlation == correlation_id@ {
                        &&& r matches SignalStep::Report(Some(P2PEvent::Connected { peer_session_id: p }))
                            && p@ == from@
                        &&& final(self).conns() == dict_put(
                            old(self).conns(),
                            from@,
                            with_state(c, P2PConnectionState::Connected),
                        )
                    } else {
                        r matches SignalStep::Report(None) && final(self).conns() == old(self).conns()
                    },
                    None => r matches SignalStep::Report(None) && final(self).conns() == old(
                        self,
                    ).conns(),
                },
                P2PSignal::Disconnected { from, correlation_id, reason } => {
                    &&& final(self).conns() == dict_without(old(self).conns(), from@)
                    &&& r matches SignalStep::Report(
                        Some(P2PEvent::Disconnected { peer_session_id: p, reason: why }),
                    ) && p@ == from@ && why == reason
                },
            },
    {
        match signal {
            P2PSignal::Offer { from, sdp, correlation_id } => SignalStep::AnswerOffer { from, sdp, correlation_id },
            P2PSignal::Answer { from, sdp, correlation_id } => {
                match self.handle_answer(from.as_str(), correlation_id.as_str()) {
                    AnswerStep::Apply { pending_candidates } => SignalStep::ApplyAnswer {
                        from,
                        sdp,
                        pending_candidates,
                    },
                    AnswerStep::Ignore => SignalStep::Report(None),
                }
            },
            P2PSignal::IceCandidate { from, candidate, correlation_id } => {
                let kept = candidate.clone();
                match self.handle_ice_candidate(from.as_str(), candidate, correlation_id.as_str()) {
                    IceStep::Add => SignalStep::AddCandidate { from, candidate: kept },
                    _ => SignalStep::Report(None),
                }
            },
            P2PSignal::Connected { from, correlation_id } => SignalStep::Report(
                self.handle_connected(from.as_str(), correlation_id.as_str()),
            ),
            P2PSignal::Disconnected { from, correlation_id: _, reason } => SignalStep::Report(
                Some(self.handle_disconnected(from.as_str(), reason)),
            ),
        }
    }
}

} // verus!
