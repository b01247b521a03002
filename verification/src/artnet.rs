//! Art-Net bridge: DMX over UDP, translated channel by channel.
use vstd::prelude::*;
use crate::bridge::{BridgeConfig, BridgeError};
use crate::frames::UniverseFrames;
use crate::message::{is_plain_set, plain_set, Message};
use crate::text::{
    append_str, chars_of, decimal, extend_chars, parse_unsigned, parse_unsigned_chars, split_chars,
    split_on, string_from_chars, u64_to_chars,
};
use crate::value::ClaspValue;

verus! {

/// Art-Net UDP port.
pub const ARTNET_PORT: u16 = 6454;

/// Art-Net bridge configuration.
#[derive(Clone, Debug)]
pub struct ArtNetBridgeConfig {
    /// Local address to bind.
    pub bind_addr: String,
    /// Remote Art-Net node (for output).
    pub remote_addr: Option<String>,
    /// Universes to listen to (empty: all).
    pub universes: Vec<u16>,
    /// Address namespace.
    pub namespace: String,
}

impl Default for ArtNetBridgeConfig {
    fn default() -> (c: Self)
        ensures
            c.bind_addr@ == "0.0.0.0:"@ + decimal(ARTNET_PORT as nat),
            c.remote_addr is None,
            c.universes.len() == 0,
            c.namespace@ == "/artnet"@,
    {
        let mut b = chars_of("0.0.0.0:");
        let p = u64_to_chars(ARTNET_PORT as u64);
        extend_chars(&mut b, &p);
        ArtNetBridgeConfig {
            bind_addr: string_from_chars(&b),
            remote_addr: None,
            universes: Vec::new(),
            namespace: String::from_str("/artnet"),
        }
    }
}

/// A received Art-Net packet, as far as the bridge reads it.
#[derive(Clone, Debug)]
pub enum ArtNetPacket {
    /// ArtDmx: DMX data for a universe.
    Output { universe: u16, data: Vec<u8> },
    /// ArtPoll: node discovery.
    Poll,
    /// ArtPollReply: a node's answer to a poll.
    PollReply,
    /// Any other command.
    Other,
}

/// The frame after a DMX packet: its first channels replaced by the data.
pub open spec fn overlay(prev: Seq<u8>, data: Seq<u8>) -> Seq<u8> {
    Seq::new(prev.len(), |i: int| if i < data.len() { data[i] } else { prev[i] })
}

/// The channel indices (from 0) whose level a DMX packet changes, in order.
pub open spec fn changed_indices(prev: Seq<u8>, data: Seq<u8>) -> Seq<int>
    decreases data.len(),
{
    if data.len() == 0 {
        Seq::empty()
    } else {
        let before = changed_indices(prev, data.drop_last());
        let i = data.len() - 1;
        if data[i] != prev[i] {
            before.push(i)
        } else {
            before
        }
    }
}

/// The address of channel `index + 1` of a universe.
pub open spec fn channel_address(namespace: Seq<char>, universe: nat, channel: nat) -> Seq<char> {
    namespace + "/"@ + decimal(universe) + "/"@ + decimal(channel)
}

/// One SET per changed channel, in channel order.
pub open spec fn change_messages(
    ms: Seq<Message>,
    namespace: Seq<char>,
    universe: u16,
    data: Seq<u8>,
    idx: Seq<int>,
) -> bool {
    &&& ms.len() == idx.len()
    &&& forall|k: int|
        0 <= k < idx.len() ==> is_plain_set(
            #[trigger] ms[k],
            channel_address(namespace, universe as nat, (idx[k] + 1) as nat),
            ClaspValue::Int(data[idx[k]] as i64),
        )
}

/// The universe of a packet passes the filter (an empty filter passes all).
pub open spec fn passes_filter(filter: Seq<u16>, universe: u16) -> bool {
    filter.len() == 0 || filter.contains(universe)
}

/// The frame a universe has, or all zeros.
pub open spec fn frame_or_zero(frames: UniverseFrames, universe: u16) -> Seq<u8> {
    match frames.frame(universe) {
        Some(f) => f,
        None => Seq::new(512, |i: int| 0u8),
    }
}

proof fn lemma_changed_indices(prev: Seq<u8>, data: Seq<u8>)
    requires
        data.len() <= prev.len(),
    ensures
        forall|k: int|
            0 <= k < changed_indices(prev, data).len() ==> 0 <= #[trigger] changed_indices(
                prev,
                data,
            )[k] < data.len(),
    decreases data.len(),
{
    if data.len() > 0 {
        lemma_changed_indices(prev, data.drop_last());
        let before = changed_indices(prev, data.drop_last());
        let c = changed_indices(prev, data);
        assert forall|k: int| 0 <= k < c.len() implies 0 <= #[trigger] c[k] < data.len() by {
            if k < before.len() {
                assert(c[k] == before[k]);
            }
        }
    }
}

fn filter_contains(filter: &Vec<u16>, universe: u16) -> (r: bool)
    ensures
        r == filter@.contains(universe),
{
    let mut i: usize = 0;
    while i < filter.len()
        invariant
            i <= filter.len(),
            forall|j: int| 0 <= j < i ==> filter@[j] != universe,
        decreases filter.len() - i,
    {
        if filter[i] == universe {
            return true;
        }
        i = i + 1;
    }
    false
}

/// Translates a received Art-Net packet into CLASP messages: an ArtDmx
/// packet for a universe that passes the filter updates the remembered
/// frame of that universe (all zeros when first seen) and gives one SET per
/// channel whose level changed, or `None` when none did; other packets give
/// `None` and leave the frames alone. DMX data is at most 512 channels.
pub fn artnet_to_clasp(
    packet: &ArtNetPacket,
    namespace: &str,
    filter_universes: &Vec<u16>,
    dmx_state: &mut UniverseFrames,
) -> (r: Option<Vec<Message>>)
    requires
        old(dmx_state).wf(),
        packet matches ArtNetPacket::Output { data, .. } ==> data.len() <= 512,
    ensures
        final(dmx_state).wf(),
        match *packet {
            ArtNetPacket::Output { universe, data } => if passes_filter(filter_universes@, universe) {
                let prev = frame_or_zero(*old(dmx_state), universe);
                let idx = changed_indices(prev, data@);
                &&& final(dmx_state).frame(universe) == Some(overlay(prev, data@))
                &&& forall|u: u16| u != universe ==> #[trigger] final(dmx_state).frame(u) == old(
                    dmx_state,
                ).frame(u)
                &&& (r is Some <==> idx.len() > 0)
                &&& r is Some ==> change_messages(r->0@, namespace@, universe, data@, idx)
            } else {
                r is None && *final(dmx_state) == *old(dmx_state)
            },
            _ => r is None && *final(dmx_state) == *old(dmx_state),
        },
{
    match packet {
        ArtNetPacket::Output { universe, data } => {
            let universe = *universe;
            if filter_universes.len() != 0 && !filter_contains(filter_universes, universe) {
                return None;
            }
            let ghost prev = frame_or_zero(*dmx_state, universe);
            proof {
                if dmx_state.frame(universe) is Some {
                    assert(dmx_state.frame(universe)->0.len() == 512);
                }
                assert(prev.len() == 512);
            }
            dmx_state.ensure(universe);
            let ns = chars_of(namespace);
            let mut messages: Vec<Message> = Vec::new();
            let mut i: usize = 0;
            while i < data.len()
                invariant
                    dmx_state.wf(),
                    data.len() <= 512,
                    i <= data.len(),
                    ns@ == namespace@,
                    forall|u: u16| u != universe ==> #[trigger] dmx_state.frame(u) == old(dmx_state).frame(u),
                    prev.len() == 512,
                    dmx_state.frame(universe) == Some(overlay(prev, data@.take(i as int))),
                    change_messages(
                        messages@,
                        namespace@,
                        universe,
                        data@,
                        changed_indices(prev, data@.take(i as int)),
                    ),
                decreases data.len() - i,
            {
                let value = data[i];
                assert(data@.take(i + 1).drop_last() =~= data@.take(i as int));
                proof {
                    lemma_changed_indices(prev, data@.take(i as int));
                }
                let cur = dmx_state.level(universe, i);
                assert(cur == prev[i as int]);
                if value != cur {
                    dmx_state.set_level(universe, (i + 1) as u16, value);
                    let mut a = ns.clone();
                    append_str(&mut a, "/");
                    let ud = u64_to_chars(universe as u64);
                    extend_chars(&mut a, &ud);
                    append_str(&mut a, "/");
                    let cd = u64_to_chars((i + 1) as u64);
                    extend_chars(&mut a, &cd);
                    let address = string_from_chars(&a);
                    let m = plain_set(address, ClaspValue::Int(value as i64));
                    let ghost before = messages@;
                    messages.push(m);
                    proof {
                        let idx_new = changed_indices(prev, data@.take(i + 1));
                        assert(idx_new == changed_indices(prev, data@.take(i as int)).push(
                            i as int,
                        ));
                        assert forall|k: int| 0 <= k < idx_new.len() implies is_plain_set(
                            #[trigger] messages@[k],
                            channel_address(namespace@, universe as nat, (idx_new[k] + 1) as nat),
                            ClaspValue::Int(data@[idx_new[k]] as i64),
                        ) by {
                            if k < before.len() {
                                assert(messages@[k] == before[k]);
                            }
                        }
                        assert(overlay(prev, data@.take(i as int)).update(i as int, value) =~= overlay(
                            prev,
                            data@.take(i + 1),
                        ));
                    }
                } else {
                    assert(changed_indices(prev, data@.take(i + 1)) == changed_indices(
                        prev,
                        data@.take(i as int),
                    ));
                    assert(overlay(prev, data@.take(i as int)) =~= overlay(prev, data@.take(i + 1)));
                }
                i = i + 1;
            }
            assert(data@.take(data.len() as int) =~= data@);
            if messages.len() == 0 {
                None
            } else {
                Some(messages)
            }
        },
        _ => None,
    }
}


/// The eight bytes that open every Art-Net packet: `Art-Net` and a zero.
pub open spec fn artnet_header() -> Seq<u8> {
    seq![0x41u8, 0x72, 0x74, 0x2D, 0x4E, 0x65, 0x74, 0x00]
}

/// Whether an ArtDmx packet can be built: the universe is a 15-bit port
/// address and the data is 1 to 512 channels.
pub open spec fn output_encodable(universe: u16, data: Seq<u8>) -> bool {
    universe <= 32767 && 1 <= data.len() <= 512
}

/// The bytes of an ArtDmx packet (protocol version 14, sequence 0,
/// physical port 0): header, opcode 0x5000 little-endian, version, sequence,
/// physical, port address little-endian, data length (rounded up to even)
/// big-endian, data padded with a zero to even length.
pub open spec fn artnet_output_bytes(universe: u16, data: Seq<u8>) -> Seq<u8> {
    let len_even: nat = if data.len() % 2 == 1 {
        data.len() + 1
    } else {
        data.len()
    };
    artnet_header() + seq![0x00u8, 0x50, 0, 14, 0, 0] + seq![
        (universe % 256) as u8,
        (universe / 256) as u8,
        (len_even / 256) as u8,
        (len_even % 256) as u8,
    ] + data + if data.len() % 2 == 1 {
        seq![0u8]
    } else {
        Seq::<u8>::empty()
    }
}

/// The bytes of the default ArtPoll packet: header, opcode 0x2000
/// little-endian, version 14, no talk-to-me flags, diagnostics priority 0x80.
pub open spec fn artnet_poll_bytes() -> Seq<u8> {
    artnet_header() + seq![0x00u8, 0x20, 0, 14, 0, 0x80]
}

/// An ArtDmx packet as the decoder reads it: at least 18 bytes, the header,
/// opcode 0x5000, and a 15-bit port address in bytes 14 and 15.
pub open spec fn is_output_packet(b: Seq<u8>) -> bool {
    &&& b.len() >= 18
    &&& b.take(8) == artnet_header()
    &&& b[8] == 0x00 && b[9] == 0x50
    &&& b[14] as int + 256 * b[15] as int <= 32767
}

/// The universe of an ArtDmx packet: bytes 14 and 15, little-endian.
pub open spec fn datagram_universe(b: Seq<u8>) -> u16 {
    (b[14] as int + 256 * b[15] as int) as u16
}

/// Whether a datagram is an ArtDmx packet with more than 512 channels.
pub open spec fn dmx_overflow(b: Seq<u8>) -> bool {
    is_output_packet(b) && b.len() > 530
}

/// `ArtCommand::Output(..).write_to_buffer()` of `artnet_protocol`, for an
/// ArtDmx packet with default fields but port address and data: it fails
/// when the universe is not a 15-bit port address (`PortAddress::try_from`)
/// or the data is empty or longer than 512 bytes, and otherwise gives the
/// bytes that [`artnet_output_bytes`] states.
#[verifier::external_body]
fn encode_artnet_output(universe: u16, data: &[u8]) -> (r: Option<Vec<u8>>)
    ensures
        match r {
            Some(b) => output_encodable(universe, data@) && b@ == artnet_output_bytes(
                universe,
                data@,
            ),
            None => !output_encodable(universe, data@),
        },
{
    let port = artnet_protocol::PortAddress::try_from(universe).ok()?;
    let mut output = artnet_protocol::Output::default();
    output.port_address = port;
    output.data = data.to_vec().into();
    artnet_protocol::ArtCommand::Output(output).write_to_buffer().ok()
}

/// `ArtCommand::Poll(Poll::default()).write_to_buffer()` of
/// `artnet_protocol`: it always succeeds and gives [`artnet_poll_bytes`].
#[verifier::external_body]
fn encode_artnet_poll() -> (r: Vec<u8>)
    ensures
        r@ == artnet_poll_bytes(),
{
    let poll = artnet_protocol::ArtCommand::Poll(artnet_protocol::Poll::default());
    poll.write_to_buffer().unwrap_or_default()
}

/// `ArtCommand::from_buffer` of `artnet_protocol`, read as an
/// [`ArtNetPacket`]: an ArtDmx packet is decoded exactly when
/// [`is_output_packet`] holds, with the universe from bytes 14 and 15
/// (little-endian) and the data from byte 18 on (the length field is not
/// read); a poll or poll reply carries its opcode; `None` stands for a
/// decoding error. What else the decoder accepts is not stated.
#[verifier::external_body]
fn decode_artnet(buf: &[u8]) -> (r: Option<ArtNetPacket>)
    ensures
        (r matches Some(ArtNetPacket::Output { .. })) <==> is_output_packet(buf@),
        r matches Some(ArtNetPacket::Output { universe, data }) ==> universe as int == buf@[14] as int
            + 256 * buf@[15] as int && data@ == buf@.skip(18),
        r matches Some(ArtNetPacket::Poll) ==> buf@.len() >= 14 && buf@.take(8) == artnet_header()
            && buf@[8] == 0x00 && buf@[9] == 0x20,
        r matches Some(ArtNetPacket::PollReply) ==> buf@.len() >= 14 && buf@.take(8)
            == artnet_header() && buf@[8] == 0x00 && buf@[9] == 0x21,
{
    match artnet_protocol::ArtCommand::from_buffer(buf) {
        Ok(artnet_protocol::ArtCommand::Output(o)) => Some(
            ArtNetPacket::Output { universe: u16::from(o.port_address), data: o.data.as_ref().clone() },
        ),
        Ok(artnet_protocol::ArtCommand::Poll(_)) => Some(ArtNetPacket::Poll),
        Ok(artnet_protocol::ArtCommand::PollReply(_)) => Some(ArtNetPacket::PollReply),
        Ok(_) => Some(ArtNetPacket::Other),
        Err(_) => None,
    }
}

/// The level that a SET value gives a DMX channel: its integer clamped to
/// 0..=255, or 0 when it is not an integer.
pub open spec fn set_level(v: ClaspValue) -> u8 {
    match v {
        ClaspValue::Int(i) => if i < 0 {
            0
        } else if i > 255 {
            255
        } else {
            i as u8
        },
        _ => 0,
    }
}

/// What a CLASP message does to the Art-Net output: for a SET whose address
/// has at least four `/`-separated pieces, the third is the universe and
/// the fourth the channel.
#[derive(Clone, Debug)]
pub enum DmxUpdate {
    /// Nothing to send.
    Nothing,
    /// A universe's new frame, to be sent.
    Send { universe: u16, frame: Vec<u8> },
}

/// Art-Net bridge state: configuration and the last frame of every
/// universe seen or sent.
#[derive(Clone, Debug)]
pub struct ArtNetBridge {
    pub config: BridgeConfig,
    pub artnet_config: ArtNetBridgeConfig,
    pub dmx_state: UniverseFrames,
    /// Whether the socket is open.
    pub connected: bool,
}

impl ArtNetBridge {
    /// Creates a bridge with no frames.
    pub fn new(artnet_config: ArtNetBridgeConfig) -> (b: Self)
        ensures
            b.config.name@ == "Art-Net Bridge"@,
            b.config.protocol@ == "artnet"@,
            b.config.bidirectional,
            b.config.options.len() == 0,
            b.artnet_config == artnet_config,
            b.dmx_state.wf(),
            forall|u: u16| #[trigger] b.dmx_state.frame(u) is None,
            !b.connected,
    {
        ArtNetBridge {
            config: BridgeConfig::named("Art-Net Bridge", "artnet", true),
            artnet_config,
            dmx_state: UniverseFrames::new(),
            connected: false,
        }
    }

    /// The ArtDmx packet to send to the remote node for a universe: refused
    /// with `Not connected` while the socket is closed, with `No remote
    /// address configured` without a remote node, and as
    /// [`ArtNetBridge::dmx_packet`] refuses a packet that cannot be built.
    pub fn send_dmx(&self, universe: u16, data: &[u8]) -> (r: Result<Vec<u8>, BridgeError>)
        ensures
            !self.connected ==> (r matches Err(BridgeError::ConnectionFailed(m)) && m@
                == "Not connected"@),
            self.connected && self.artnet_config.remote_addr is None ==> (r matches Err(
                BridgeError::Send(m),
            ) && m@ == "No remote address configured"@),
            self.connected && self.artnet_config.remote_addr is Some ==> match r {
                Ok(b) => output_encodable(universe, data@) && b@ == artnet_output_bytes(
                    universe,
                    data@,
                ),
                Err(e) => !output_encodable(universe, data@) && (e matches BridgeError::Protocol(m)
                    && m@ == "Failed to encode DMX"@),
            },
    {
        proof {
            reveal_strlit("Not connected");
            reveal_strlit("No remote address configured");
        }
        if !self.connected {
            return Err(BridgeError::ConnectionFailed(String::from_str("Not connected")));
        }
        if self.artnet_config.remote_addr.is_none() {
            return Err(BridgeError::Send(String::from_str("No remote address configured")));
        }
        Self::dmx_packet(universe, data)
    }

    /// The CLASP messages of a received datagram: an ArtDmx packet (see
    /// [`is_output_packet`]) is passed to [`artnet_to_clasp`] with its
    /// universe and data under this bridge's namespace and universe filter;
    /// any other datagram gives none and changes nothing. An ArtDmx packet
    /// with more than 512 channels is not accepted (see
    /// [`ArtNetBridge::oversized_dmx`]).
    pub fn receive(&mut self, datagram: &[u8]) -> (r: Option<Vec<Message>>)
        requires
            old(self).dmx_state.wf(),
            !dmx_overflow(datagram@),
        ensures
            final(self).dmx_state.wf(),
            final(self).config == old(self).config,
            final(self).artnet_config == old(self).artnet_config,
            final(self).connected == old(self).connected,
            if is_output_packet(datagram@) {
                let universe = datagram_universe(datagram@);
                let data = datagram@.skip(18);
                if passes_filter(old(self).artnet_config.universes@, universe) {
                    let prev = frame_or_zero(old(self).dmx_state, universe);
                    let idx = changed_indices(prev, data);
                    &&& final(self).dmx_state.frame(universe) == Some(overlay(prev, data))
                    &&& forall|u: u16| u != universe ==> #[trigger] final(self).dmx_state.frame(u)
                        == old(self).dmx_state.frame(u)
                    &&& (r is Some <==> idx.len() > 0)
                    &&& r is Some ==> change_messages(
                        r->0@,
                        old(self).artnet_config.namespace@,
                        universe,
                        data,
                        idx,
                    )
                } else {
                    r is None && final(self).dmx_state == old(self).dmx_state
                }
            } else {
                r is None && final(self).dmx_state == old(self).dmx_state
            },
    {
        match decode_artnet(datagram) {
            Some(packet) => {
                let namespace = self.artnet_config.namespace.clone();
                let filter = self.artnet_config.universes.clone();
                proof {
                    assert(filter@ == self.artnet_config.universes@);
                }
                artnet_to_clasp(&packet, namespace.as_str(), &filter, &mut self.dmx_state)
            },
            None => None,
        }
    }

    /// Whether a datagram is an ArtDmx packet with more than 512 channels,
    /// which [`ArtNetBridge::receive`] does not accept.
    pub fn oversized_dmx(datagram: &[u8]) -> (b: bool)
        ensures
            b == dmx_overflow(datagram@),
    {
        if datagram.len() <= 530 {
            return false;
        }
        let header: [u8; 8] = [0x41, 0x72, 0x74, 0x2D, 0x4E, 0x65, 0x74, 0x00];
        let mut i: usize = 0;
        while i < 8
            invariant
                i <= 8,
                datagram.len() > 530,
                header@ == artnet_header(),
                forall|j: int| 0 <= j < i ==> datagram@[j] == artnet_header()[j],
            decreases 8 - i,
        {
            if datagram[i] != header[i] {
                assert(datagram@.take(8)[i as int] != artnet_header()[i as int]);
                return false;
            }
            i = i + 1;
        }
        assert(datagram@.take(8) =~= artnet_header());
        datagram[8] == 0x00 && datagram[9] == 0x50 && (datagram[14] as u32) + 256 * (datagram[15] as u32) <= 32767
    }

    /// The bytes of an ArtPoll packet, broadcast to discover nodes.
    pub fn poll_packet() -> (r: Vec<u8>)
        ensures
            r@ == artnet_poll_bytes(),
    {
        encode_artnet_poll()
    }

    /// The bytes of an ArtDmx packet for a universe, or the protocol error
    /// `Failed to encode DMX` when the packet cannot be built.
    pub fn dmx_packet(universe: u16, data: &[u8]) -> (r: Result<Vec<u8>, BridgeError>)
        ensures
            match r {
                Ok(b) => output_encodable(universe, data@) && b@ == artnet_output_bytes(
                    universe,
                    data@,
                ),
                Err(e) => !output_encodable(universe, data@) && (e matches BridgeError::Protocol(m)
                    && m@ == "Failed to encode DMX"@),
            },
    {
        match encode_artnet_output(universe, data) {
            Some(b) => Ok(b),
            None => Err(BridgeError::Protocol(String::from_str("Failed to encode DMX"))),
        }
    }

    /// The frame update that a CLASP message makes: for a SET whose address
    /// has at least four `/`-separated pieces, the third piece must be a
    /// `u16` universe (else the mapping error `Invalid universe`) and the
    /// fourth a `usize` channel (else `Invalid channel`); a channel of 1 to
    /// 512 takes the value's level in the universe's frame (all zeros when
    /// new), and the whole frame is to be sent. Anything else changes
    /// nothing.
    pub fn dmx_update(&mut self, message: &Message) -> (r: Result<DmxUpdate, BridgeError>)
        requires
            old(self).dmx_state.wf(),
        ensures
            final(self).dmx_state.wf(),
            final(self).config == old(self).config,
            final(self).artnet_config == old(self).artnet_config,
            match *message {
                Message::SetParam(set) => {
                    let parts = split_on(set.address@, '/');
                    if parts.len() < 4 {
                        r == Ok::<DmxUpdate, BridgeError>(DmxUpdate::Nothing)
                            && final(self).dmx_state == old(self).dmx_state
                    } else {
                        match parse_unsigned(parts[2], 65535) {
                            None => (r matches Err(BridgeError::Mapping(m)) && m@
                                == "Invalid universe"@) && final(self).dmx_state == old(self).dmx_state,
                            Some(u) => match parse_unsigned(parts[3], usize::MAX as nat) {
                                None => (r matches Err(BridgeError::Mapping(m)) && m@
                                    == "Invalid channel"@) && final(self).dmx_state == old(
                                    self,
                                ).dmx_state,
                                Some(c) => if 1 <= c <= 512 {
                                    let f = frame_or_zero(old(self).dmx_state, u as u16).update(
                                        c - 1,
                                        set_level(set.value),
                                    );
                                    &&& (r matches Ok(DmxUpdate::Send { universe, frame })
                                        && universe == u && frame@ == f)
                                    &&& final(self).dmx_state.frame(u as u16) == Some(f)
                                    &&& forall|v: u16|
                                        v != u ==> #[trigger] final(self).dmx_state.frame(v)
                                            == old(self).dmx_state.frame(v)
                                } else {
                                    r == Ok::<DmxUpdate, BridgeError>(DmxUpdate::Nothing)
                                        && final(self).dmx_state == old(self).dmx_state
                                },
                            },
                        }
                    }
                },
                _ => r == Ok::<DmxUpdate, BridgeError>(DmxUpdate::Nothing) && final(self).dmx_state
                    == old(self).dmx_state,
            },
    {
        let set = match message {
            Message::SetParam(set) => set,
            _ => return Ok(DmxUpdate::Nothing),
        };
        let addr = chars_of(set.address.as_str());
        let parts = split_chars(&addr, '/');
        if parts.len() < 4 {
            return Ok(DmxUpdate::Nothing);
        }
        assert(crate::text::views(parts@)[2] == parts@[2]@);
        assert(crate::text::views(parts@)[3] == parts@[3]@);
        let universe = match parse_unsigned_chars(&parts[2], 65535) {
            Some(u) => u as u16,
            None => return Err(BridgeError::Mapping(String::from_str("Invalid universe"))),
        };
        let channel = match parse_unsigned_chars(&parts[3], usize::MAX as u64) {
            Some(c) => c,
            None => return Err(BridgeError::Mapping(String::from_str("Invalid channel"))),
        };
        if channel == 0 || channel > 512 {
            return Ok(DmxUpdate::Nothing);
        }
        let level: u8 = match &set.value {
            ClaspValue::Int(i) => if *i < 0 {
                0
            } else if *i > 255 {
                255
            } else {
                *i as u8
            },
            _ => 0,
        };
        proof {
            if self.dmx_state.frame(universe) is Some {
                assert(self.dmx_state.frame(universe)->0.len() == 512);
            }
        }
        self.dmx_state.ensure(universe);
        self.dmx_state.set_level(universe, channel as u16, level);
        let frame = match self.dmx_state.frame_copy(universe) {
            Some(f) => f,
            None => Vec::new(),
        };
        Ok(DmxUpdate::Send { universe, frame })
    }
}

} // verus!
