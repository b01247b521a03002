//! sACN (E1.31) bridge: DMX universes streamed over IP.
use vstd::prelude::*;
use crate::bridge::BridgeConfig;
use crate::frames::UniverseFrames;
use crate::message::{is_plain_set, plain_set, Message};
use crate::text::{
    append_str, chars_from, chars_of, decimal, extend_chars, is_prefix, lemma_decimal_digits,
    lemma_parse_decimal, lemma_split_pair, parse_unsigned, parse_unsigned_chars, split_chars, split_on,
    starts_with, string_from_chars, u64_to_chars,
};
use crate::value::ClaspValue;

verus! {

/// sACN operating mode.
#[derive(Clone, Copy, PartialEq, Eq, Structural, Debug)]
pub enum SacnMode {
    /// Send DMX data to the network.
    Sender,
    /// Receive DMX data from the network.
    Receiver,
    /// Both send and receive.
    Bidirectional,
}

impl Default for SacnMode {
    fn default() -> (m: Self)
        ensures
            m == SacnMode::Receiver,
    {
        SacnMode::Receiver
    }
}

/// sACN bridge configuration.
#[derive(Clone, Debug)]
pub struct SacnBridgeConfig {
    /// Operating mode.
    pub mode: SacnMode,
    /// Universes to send or receive.
    pub universes: Vec<u16>,
    /// Source name (sender mode).
    pub source_name: String,
    /// Priority (0 to 200, higher is more important).
    pub priority: u8,
    /// Network interface to bind to (`None`: all interfaces).
    pub bind_address: Option<String>,
    /// Multicast (`true`) or unicast (`false`).
    pub multicast: bool,
    /// Unicast destinations (used when `multicast` is false).
    pub unicast_destinations: Vec<String>,
    /// CLASP address namespace prefix.
    pub namespace: String,
    /// Preview data only.
    pub preview: bool,
    /// Synchronisation address (0: none).
    pub sync_address: u16,
}

/// The default universes: universe 1 only.
pub fn default_universes() -> (v: Vec<u16>)
    ensures
        v@ == seq![1u16],
{
    let mut universes: Vec<u16> = Vec::new();
    universes.push(1);
    assert(universes@ =~= seq![1u16]);
    universes
}

/// The default source name: `CLASP sACN Bridge`.
pub fn default_source_name() -> (s: String)
    ensures
        s@ == "CLASP sACN Bridge"@,
{
    String::from_str("CLASP sACN Bridge")
}

/// The default priority: 100, the middle of 0 to 200.
pub fn default_priority() -> (p: u8)
    ensures
        p == 100,
{
    100
}

/// Multicast by default.
pub fn default_multicast() -> (b: bool)
    ensures
        b,
{
    true
}

/// The default namespace: `/sacn`.
pub fn default_namespace() -> (s: String)
    ensures
        s@ == "/sacn"@,
{
    String::from_str("/sacn")
}

impl Default for SacnBridgeConfig {
    /// A receiver of universe 1 named `CLASP sACN Bridge`, priority 100, on
    /// all interfaces, multicast, namespace `/sacn`, no preview, no sync.
    fn default() -> (c: Self)
        ensures
            c.mode == SacnMode::Receiver,
            c.universes@ == seq![1u16],
            c.source_name@ == "CLASP sACN Bridge"@,
            c.priority == 100,
            c.bind_address is None,
            c.multicast,
            c.unicast_destinations.len() == 0,
            c.namespace@ == "/sacn"@,
            !c.preview,
            c.sync_address == 0,
    {
        SacnBridgeConfig {
            mode: SacnMode::Receiver,
            universes: default_universes(),
            source_name: default_source_name(),
            priority: default_priority(),
            bind_address: None,
            multicast: default_multicast(),
            unicast_destinations: Vec::new(),
            namespace: default_namespace(),
            preview: false,
            sync_address: 0,
        }
    }
}

/// The text with every leading occurrence of `c` removed, as
/// `str::trim_start_matches` with a character gives it.
pub open spec fn trim_leading(s: Seq<char>, c: char) -> Seq<char>
    decreases s.len(),
{
    if s.len() > 0 && s[0] == c {
        trim_leading(s.drop_first(), c)
    } else {
        s
    }
}

/// Index of the first character of `s` that is not `c`.
pub open spec fn leading_count(s: Seq<char>, c: char) -> int
    decreases s.len(),
{
    if s.len() > 0 && s[0] == c {
        1 + leading_count(s.drop_first(), c)
    } else {
        0
    }
}

pub proof fn lemma_trim_leading(s: Seq<char>, c: char)
    ensures
        0 <= leading_count(s, c) <= s.len(),
        trim_leading(s, c) == s.skip(leading_count(s, c)),
        forall|i: int| 0 <= i < leading_count(s, c) ==> #[trigger] s[i] == c,
        leading_count(s, c) < s.len() ==> s[leading_count(s, c)] != c,
    decreases s.len(),
{
    if s.len() > 0 && s[0] == c {
        lemma_trim_leading(s.drop_first(), c);
        assert(s.drop_first().skip(leading_count(s.drop_first(), c)) =~= s.skip(
            leading_count(s, c),
        ));
        assert forall|i: int| 0 <= i < leading_count(s, c) implies #[trigger] s[i] == c by {
            if i > 0 {
                assert(s[i] == s.drop_first()[i - 1]);
            }
        }
    } else {
        assert(s.skip(0) =~= s);
    }
}

/// The address of channel `channel` of universe `universe`.
pub open spec fn channel_address(namespace: Seq<char>, universe: nat, channel: nat) -> Seq<char> {
    namespace + "/"@ + decimal(universe) + "/"@ + decimal(channel)
}

/// The universe and channel that an address names: the namespace, then
/// (after any number of `/`) exactly two `/`-separated decimal numbers, the
/// channel being 1 to 512.
pub open spec fn address_target(namespace: Seq<char>, address: Seq<char>) -> Option<(u16, u16)> {
    if is_prefix(namespace, address) {
        let parts = split_on(trim_leading(address.skip(namespace.len() as int), '/'), '/');
        if parts.len() == 2 {
            match (parse_unsigned(parts[0], 65535), parse_unsigned(parts[1], 65535)) {
                (Some(u), Some(c)) => if 1 <= c <= 512 {
                    Some((u as u16, c as u16))
                } else {
                    None
                },
                _ => None,
            }
        } else {
            None
        }
    } else {
        None
    }
}

/// How a value becomes a DMX level.
#[derive(Clone, Debug)]
pub enum DmxLevel {
    /// A level given directly.
    Level(u8),
    /// A floating-point value (its bits), to be scaled from 0..1 to 0..255.
    Scaled(u64),
    /// Not a DMX level.
    Ignored,
}

/// An integer clamped to 0..=255.
pub open spec fn int_level(i: int) -> u8 {
    if i < 0 {
        0
    } else if i > 255 {
        255
    } else {
        i as u8
    }
}

/// sACN bridge state: configuration and the DMX frame of every configured
/// universe.
#[derive(Clone, Debug)]
pub struct SacnBridge {
    pub config: BridgeConfig,
    pub sacn_config: SacnBridgeConfig,
    pub dmx_data: UniverseFrames,
    /// Universes changed since the last transmission, each once.
    pub dirty: Vec<u16>,
}

impl SacnBridge {
    /// The frames are well formed and every configured universe has one.
    pub open spec fn wf(&self) -> bool {
        &&& self.dmx_data.wf()
        &&& self.dirty@.no_duplicates()
        &&& forall|i: int| 0 <= i < self.dirty.len() ==> #[trigger] self.dmx_data.frame(self.dirty@[i]) is Some
        &&& forall|i: int|
            0 <= i < self.sacn_config.universes.len() ==> #[trigger] self.dmx_data.frame(
                self.sacn_config.universes@[i],
            ) is Some
    }

    /// Creates a bridge with an all-zero frame for every configured universe.
    pub fn new(config: SacnBridgeConfig) -> (b: Self)
        ensures
            b.wf(),
            b.config.name@ == config.source_name@,
            b.config.protocol@ == "sacn"@,
            b.config.bidirectional == (config.mode == SacnMode::Bidirectional),
            b.config.options.len() == 0,
            b.sacn_config == config,
            b.dirty@.len() == 0,
            forall|i: int|
                0 <= i < config.universes.len() ==> #[trigger] b.dmx_data.frame(config.universes@[i])
                    == Some(Seq::new(512, |k: int| 0u8)),
            forall|u: u16| !config.universes@.contains(u) ==> #[trigger] b.dmx_data.frame(u) is None,
    {
        let bridge_config = BridgeConfig {
            name: config.source_name.clone(),
            protocol: String::from_str("sacn"),
            bidirectional: config.mode == SacnMode::Bidirectional,
            options: Vec::new(),
        };
        let mut frames = UniverseFrames::new();
        let mut i: usize = 0;
        while i < config.universes.len()
            invariant
                i <= config.universes.len(),
                frames.wf(),
                forall|j: int|
                    0 <= j < i ==> #[trigger] frames.frame(config.universes@[j]) == Some(
                        Seq::new(512, |k: int| 0u8),
                    ),
                forall|u: u16|
                    !config.universes@.take(i as int).contains(u) ==> #[trigger] frames.frame(u)
                        is None,
            decreases config.universes.len() - i,
        {
            let u = config.universes[i];
            let ghost before = frames;
            let _ = frames.ensure(u);
            proof {
                assert forall|j: int| 0 <= j < i + 1 implies #[trigger] frames.frame(
                    config.universes@[j],
                ) == Some(Seq::new(512, |k: int| 0u8)) by {
                    if config.universes@[j] != u {
                        assert(frames.frame(config.universes@[j]) == before.frame(
                            config.universes@[j],
                        ));
                    } else if before.frame(u) is None {
                    } else {
                        let jj = choose|jj: int| 0 <= jj < i && config.universes@[jj] == u;
                        assert(config.universes@.take(i as int)[jj] == u);
                        assert(before.frame(config.universes@[jj]) == Some(
                            Seq::new(512, |k: int| 0u8),
                        ));
                    }
                }
                assert forall|v: u16| !config.universes@.take(i + 1).contains(v) implies #[trigger] frames.frame(v) is None by {
                    assert(config.universes@.take(i + 1)[i as int] == u);
                    assert forall|jj: int| 0 <= jj < i implies config.universes@.take(i as int)[jj]
                        == config.universes@.take(i + 1)[jj] by {}
                    if config.universes@.take(i as int).contains(v) {
                        let jj = choose|jj: int|
                            0 <= jj < i && config.universes@.take(i as int)[jj] == v;
                        assert(config.universes@.take(i + 1)[jj] == v);
                    }
                }
            }
            i = i + 1;
        }
        assert(config.universes@.take(config.universes.len() as int) =~= config.universes@);
        SacnBridge { config: bridge_config, sacn_config: config, dmx_data: frames, dirty: Vec::new() }
    }

    /// The SET message for a received channel level: address
    /// `{namespace}/{universe}/{channel}`, integer value.
    pub fn to_clasp_message(namespace: &str, universe: u16, channel: u16, value: u8) -> (m: Message)
        ensures
            is_plain_set(
                m,
                channel_address(namespace@, universe as nat, channel as nat),
                ClaspValue::Int(value as i64),
            ),
    {
        let mut a = chars_of(namespace);
        append_str(&mut a, "/");
        let ud = u64_to_chars(universe as u64);
        extend_chars(&mut a, &ud);
        append_str(&mut a, "/");
        let cd = u64_to_chars(channel as u64);
        extend_chars(&mut a, &cd);
        let address = string_from_chars(&a);
        plain_set(address, ClaspValue::Int(value as i64))
    }

    /// The universe and channel that a CLASP address names, as
    /// [`address_target`] states.
    pub fn parse_address(namespace: &str, address: &str) -> (r: Option<(u16, u16)>)
        ensures
            r == address_target(namespace@, address@),
    {
        let a = chars_of(address);
        let ns = chars_of(namespace);
        if !starts_with(&a, &ns) {
            return None;
        }
        let rest = chars_from(&a, ns.len());
        let mut k: usize = 0;
        while k < rest.len() && rest[k] == '/'
            invariant
                k <= rest.len(),
                forall|j: int| 0 <= j < k ==> #[trigger] rest@[j] == '/',
            decreases rest.len() - k,
        {
            k = k + 1;
        }
        proof {
            lemma_trim_leading(rest@, '/');
            assert(k == leading_count(rest@, '/')) by {
                if k < leading_count(rest@, '/') {
                    assert(rest@[k as int] == '/');
                }
                if k > leading_count(rest@, '/') {
                    let lc = leading_count(rest@, '/');
                    assert(rest@[lc] == '/');
                }
            }
        }
        let trimmed = chars_from(&rest, k);
        let parts = split_chars(&trimmed, '/');
        if parts.len() != 2 {
            return None;
        }
        assert(crate::text::views(parts@)[0] == parts@[0]@);
        assert(crate::text::views(parts@)[1] == parts@[1]@);
        let u = match parse_unsigned_chars(&parts[0], 65535) {
            Some(u) => u,
            None => return None,
        };
        let c = match parse_unsigned_chars(&parts[1], 65535) {
            Some(c) => c,
            None => return None,
        };
        if 1 <= c && c <= 512 {
            Some((u as u16, c as u16))
        } else {
            None
        }
    }

    /// How a value becomes a DMX level: an integer clamped to 0..=255, a
    /// floating-point value scaled (by the caller), anything else ignored.
    pub fn dmx_level(value: &ClaspValue) -> (r: DmxLevel)
        ensures
            match *value {
                ClaspValue::Int(i) => r == DmxLevel::Level(int_level(i as int)),
                ClaspValue::Float(bits) => r == DmxLevel::Scaled(bits),
                _ => r == DmxLevel::Ignored,
            },
    {
        match value {
            ClaspValue::Int(i) => {
                let l: u8 = if *i < 0 {
                    0
                } else if *i > 255 {
                    255
                } else {
                    *i as u8
                };
                DmxLevel::Level(l)
            },
            ClaspValue::Float(bits) => DmxLevel::Scaled(*bits),
            _ => DmxLevel::Ignored,
        }
    }

    /// Stores a level in the frame of a configured universe; a universe that
    /// is not configured is left alone. Returns whether the level was stored.
    pub fn apply_level(&mut self, universe: u16, channel: u16, level: u8) -> (stored: bool)
        requires
            old(self).wf(),
            1 <= channel <= 512,
        ensures
            final(self).wf(),
            final(self).config == old(self).config,
            final(self).sacn_config == old(self).sacn_config,
            final(self).dirty == old(self).dirty,
            stored == old(self).sacn_config.universes@.contains(universe),
            stored ==> final(self).dmx_data.frame(universe) == Some(
                old(self).dmx_data.frame(universe)->0.update(channel - 1, level),
            ),
            forall|u: u16|
                u != universe || !stored ==> #[trigger] final(self).dmx_data.frame(u)
                    == old(self).dmx_data.frame(u),
    {
        let mut configured = false;
        let mut i: usize = 0;
        while i < self.sacn_config.universes.len()
            invariant
                i <= self.sacn_config.universes.len(),
                configured == self.sacn_config.universes@.take(i as int).contains(universe),
            decreases self.sacn_config.universes.len() - i,
        {
            if self.sacn_config.universes[i] == universe {
                configured = true;
            }
            proof {
                let t0 = self.sacn_config.universes@.take(i as int);
                let t1 = self.sacn_config.universes@.take(i + 1);
                let x = self.sacn_config.universes@[i as int];
                assert(t1 =~= t0.push(x));
                crate::text::lemma_push_contains(t0, x, universe);
            }
            i = i + 1;
        }
        assert(self.sacn_config.universes@.take(i as int) =~= self.sacn_config.universes@);
        if !configured {
            return false;
        }
        let ghost j = choose|j: int|
            0 <= j < self.sacn_config.universes.len() && self.sacn_config.universes@[j] == universe;
        assert(self.dmx_data.frame(self.sacn_config.universes@[j]) is Some);
        let ghost before = self.dmx_data;
        self.dmx_data.set_level(universe, channel, level);
        proof {
            assert forall|k: int|
                0 <= k < self.sacn_config.universes.len() implies #[trigger] self.dmx_data.frame(
                self.sacn_config.universes@[k],
            ) is Some by {
                assert(old(self).dmx_data.frame(self.sacn_config.universes@[k]) is Some);
            }
        }
        true
    }
}

impl SacnBridge {
    /// Takes a level from the CLASP side for sending: on channel 1 to 512
    /// of a configured universe it is stored in that universe's frame and
    /// the universe is marked for the next transmission; anything else
    /// changes nothing. Returns whether the level was taken.
    pub fn record_level(&mut self, universe: u16, channel: u16, level: u8) -> (taken: bool)
        requires
            old(self).wf(),
        ensures
            final(self).wf(),
            final(self).config == old(self).config,
            final(self).sacn_config == old(self).sacn_config,
            taken == (1 <= channel <= 512 && old(self).sacn_config.universes@.contains(universe)),
            taken ==> final(self).dmx_data.frame(universe) == Some(
                old(self).dmx_data.frame(universe)->0.update(channel - 1, level),
            ),
            taken ==> final(self).dirty@ == if old(self).dirty@.contains(universe) {
                old(self).dirty@
            } else {
                old(self).dirty@.push(universe)
            },
            !taken ==> final(self).dirty@ == old(self).dirty@,
            forall|u: u16|
                u != universe || !taken ==> #[trigger] final(self).dmx_data.frame(u)
                    == old(self).dmx_data.frame(u),
    {
        if channel == 0 || channel > 512 {
            return false;
        }
        let stored = self.apply_level(universe, channel, level);
        if stored {
            let mut seen = false;
            let mut i: usize = 0;
            while i < self.dirty.len()
                invariant
                    i <= self.dirty.len(),
                    seen == self.dirty@.take(i as int).contains(universe),
                decreases self.dirty.len() - i,
            {
                if self.dirty[i] == universe {
                    seen = true;
                }
                proof {
                    let t0 = self.dirty@.take(i as int);
                    assert(self.dirty@.take(i + 1) =~= t0.push(self.dirty@[i as int]));
                    crate::text::lemma_push_contains(t0, self.dirty@[i as int], universe);
                }
                i = i + 1;
            }
            assert(self.dirty@.take(self.dirty.len() as int) =~= self.dirty@);
            if !seen {
                let ghost before = self.dirty@;
                self.dirty.push(universe);
                proof {
                    assert forall|a: int, b: int|
                        0 <= a < self.dirty@.len() && 0 <= b < self.dirty@.len() && a != b implies self.dirty@[a]
                        != self.dirty@[b] by {
                        if a < before.len() && b < before.len() {
                        } else if a == before.len() {
                            assert(before[b] != universe);
                        } else {
                            assert(before[a] != universe);
                        }
                    }
                    assert forall|k: int| 0 <= k < self.dirty.len() implies #[trigger] self.dmx_data.frame(
                        self.dirty@[k],
                    ) is Some by {
                        if k < before.len() {
                            assert(self.dirty@[k] == before[k]);
                        }
                    }
                }
            }
        }
        stored
    }

    /// The frames to transmit: those of the universes marked since the
    /// last transmission, in the order they were first marked; the marks
    /// are cleared.
    pub fn take_dirty(&mut self) -> (r: Vec<(u16, Vec<u8>)>)
        requires
            old(self).wf(),
        ensures
            final(self).wf(),
            final(self).config == old(self).config,
            final(self).sacn_config == old(self).sacn_config,
            final(self).dmx_data == old(self).dmx_data,
            final(self).dirty@.len() == 0,
            r.len() == old(self).dirty@.len(),
            forall|i: int|
                0 <= i < r.len() ==> #[trigger] r@[i].0 == old(self).dirty@[i]
                    && old(self).dmx_data.frame(r@[i].0) == Some(r@[i].1@),
    {
        let mut out: Vec<(u16, Vec<u8>)> = Vec::new();
        let mut i: usize = 0;
        while i < self.dirty.len()
            invariant
                i <= self.dirty.len(),
                self.wf(),
                *self == *old(self),
                out.len() == i,
                forall|j: int|
                    0 <= j < i ==> #[trigger] out@[j].0 == self.dirty@[j] && self.dmx_data.frame(
                        out@[j].0,
                    ) == Some(out@[j].1@),
            decreases self.dirty.len() - i,
        {
            let u = self.dirty[i];
            assert(self.dmx_data.frame(self.dirty@[i as int]) is Some);
            match self.dmx_data.frame_copy(u) {
                Some(frame) => {
                    out.push((u, frame));
                },
                None => {
                    assert(false);
                    out.push((u, Vec::new()));
                },
            }
            i = i + 1;
        }
        self.dirty = Vec::new();
        out
    }
}

/// A channel level sent to CLASP is found again at its universe and channel:
/// the address that [`SacnBridge::to_clasp_message`] builds is parsed back
/// by [`SacnBridge::parse_address`] into the same universe and channel.
pub proof fn law_sacn_address_roundtrip(namespace: Seq<char>, universe: u16, channel: u16)
    requires
        1 <= channel <= 512,
    ensures
        address_target(namespace, channel_address(namespace, universe as nat, channel as nat))
            == Some((universe, channel)),
{
    let ud = decimal(universe as nat);
    let cd = decimal(channel as nat);
    let addr = channel_address(namespace, universe as nat, channel as nat);
    reveal_strlit("/");
    lemma_decimal_digits(universe as nat);
    lemma_decimal_digits(channel as nat);
    assert(addr.take(namespace.len() as int) =~= namespace);
    let rest = addr.skip(namespace.len() as int);
    assert(rest =~= seq!['/'] + ud.push('/') + cd);
    assert(rest.drop_first() =~= ud.push('/') + cd);
    assert(trim_leading(ud.push('/') + cd, '/') == ud.push('/') + cd) by {
        assert((ud.push('/') + cd)[0] == ud[0]);
    }
    lemma_split_pair(ud, cd, '/');
    lemma_parse_decimal(universe as nat, 65535);
    lemma_parse_decimal(channel as nat, 65535);
}

} // verus!
