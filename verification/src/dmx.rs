//! DMX-512 output through USB interfaces: the configuration, the 512
//! channel levels, and what a SET from the CLASP side changes.
use vstd::prelude::*;
use crate::artnet::set_level;
use crate::bridge::{BridgeConfig, BridgeError};
use crate::message::Message;
use crate::text::{decimal, parse_unsigned, parse_unsigned_chars, split_chars, split_on, u64_to_string, chars_of, views};
use crate::value::ClaspValue;
use crate::mapping::{find_chars, find_from};

verus! {

/// The kind of USB-DMX interface.
#[derive(Clone, Copy, PartialEq, Eq, Structural, Debug)]
pub enum DmxInterfaceType {
    /// ENTTEC DMX USB Pro.
    EnttecPro,
    /// ENTTEC Open DMX USB.
    EnttecOpen,
    /// Generic FTDI-based interface.
    Ftdi,
    /// No hardware (for testing).
    Virtual,
}

impl Default for DmxInterfaceType {
    /// The virtual interface.
    fn default() -> (t: Self)
        ensures
            t == DmxInterfaceType::Virtual,
    {
        DmxInterfaceType::Virtual
    }
}

/// The bit pattern (`f64::to_bits`) of 44.0, the standard DMX refresh rate
/// in Hz.
pub const DMX_REFRESH_44_HZ: u64 = 0x4046000000000000;

/// DMX bridge configuration.
#[derive(Clone, Debug)]
pub struct DmxBridgeConfig {
    /// Serial port path.
    pub port: Option<String>,
    /// Interface type.
    pub interface_type: DmxInterfaceType,
    /// Universe number.
    pub universe: u16,
    /// Address namespace.
    pub namespace: String,
    /// Refresh rate in Hz, as the bit pattern of its `f64`.
    pub refresh_rate_bits: u64,
}

impl Default for DmxBridgeConfig {
    /// No port, the virtual interface, universe 0, namespace `/dmx`, 44 Hz.
    fn default() -> (c: Self)
        ensures
            c.port is None,
            c.interface_type == DmxInterfaceType::Virtual,
            c.universe == 0,
            c.namespace@ == "/dmx"@,
            c.refresh_rate_bits == DMX_REFRESH_44_HZ,
    {
        DmxBridgeConfig {
            port: None,
            interface_type: DmxInterfaceType::Virtual,
            universe: 0,
            namespace: String::from_str("/dmx"),
            refresh_rate_bits: DMX_REFRESH_44_HZ,
        }
    }
}

/// The name of the bridge of a universe.
pub open spec fn dmx_bridge_name(universe: u16) -> Seq<char> {
    "DMX Bridge (Universe "@ + decimal(universe as nat) + ")"@
}

/// A DMX bridge: output only, with the current level of each of the 512
/// channels.
#[derive(Debug)]
pub struct DmxBridge {
    config: BridgeConfig,
    dmx_config: DmxBridgeConfig,
    dmx_state: Vec<u8>,
}

/// What a CLASP message does to the DMX output of a universe.
pub open spec fn dmx_target(universe: u16, m: Message) -> Result<Option<(u16, u8)>, Seq<char>> {
    match m {
        Message::SetParam(set) => {
            let parts = split_on(set.address@, '/');
            if parts.len() < 4 {
                Ok(None)
            } else {
                match parse_unsigned(parts[2], 65535) {
                    None => Err("Invalid universe"@),
                    Some(u) => if u != universe {
                        Ok(None)
                    } else {
                        match parse_unsigned(parts[3], 65535) {
                            None => Err("Invalid channel"@),
                            Some(c) => if 1 <= c <= 512 {
                                Ok(Some((c as u16, set_level(set.value))))
                            } else {
                                Ok(None)
                            },
                        }
                    },
                }
            }
        },
        _ => Ok(None),
    }
}

impl DmxBridge {
    #[verifier::type_invariant]
    spec fn full_frame(self) -> bool {
        self.dmx_state@.len() == 512
    }

    /// The current levels of channels 1 to 512 (at indices 0 to 511).
    pub closed spec fn levels(&self) -> Seq<u8> {
        self.dmx_state@
    }

    /// The bridge configuration.
    pub closed spec fn spec_config(&self) -> BridgeConfig {
        self.config
    }

    /// The DMX configuration.
    pub closed spec fn spec_dmx_config(&self) -> DmxBridgeConfig {
        self.dmx_config
    }

    /// The bridge configuration.
    pub fn config(&self) -> (c: &BridgeConfig)
        ensures
            *c == self.spec_config(),
    {
        &self.config
    }

    /// The address namespace.
    pub fn namespace(&self) -> (n: &str)
        ensures
            n@ == self.spec_dmx_config().namespace@,
    {
        self.dmx_config.namespace.as_str()
    }

    /// A bridge with all channels at 0, named after its universe, output
    /// only.
    pub fn new(dmx_config: DmxBridgeConfig) -> (b: Self)
        ensures
            b.spec_config().name@ == dmx_bridge_name(dmx_config.universe),
            b.spec_config().protocol@ == "dmx"@,
            !b.spec_config().bidirectional,
            b.spec_config().options.len() == 0,
            b.spec_dmx_config() == dmx_config,
            b.levels() == Seq::new(512, |i: int| 0u8),
    {
        proof {
            reveal_strlit("DMX Bridge (Universe ");
            reveal_strlit(")");
        }
        let mut name = String::from_str("DMX Bridge (Universe ");
        name.append(u64_to_string(dmx_config.universe as u64).as_str());
        name.append(")");
        let mut state: Vec<u8> = Vec::new();
        let mut i: usize = 0;
        while i < 512
            invariant
                i <= 512,
                state@ == Seq::new(i as nat, |k: int| 0u8),
            decreases 512 - i,
        {
            state.push(0);
            i = i + 1;
            assert(state@ =~= Seq::new(i as nat, |k: int| 0u8));
        }
        let mut config = BridgeConfig::named("dmx", "dmx", false);
        config.name = name;
        DmxBridge { config, dmx_config, dmx_state: state }
    }

    /// Sets channel `channel` (1 to 512) to `value`; other channels are
    /// out of range and change nothing.
    pub fn set_channel(&mut self, channel: u16, value: u8)
        ensures
            final(self).levels() == if 1 <= channel <= 512 {
                old(self).levels().update(channel - 1, value)
            } else {
                old(self).levels()
            },
            final(self).spec_config() == old(self).spec_config(),
            final(self).spec_dmx_config() == old(self).spec_dmx_config(),
    {
        proof {
            use_type_invariant(&*self);
        }
        if channel > 0 && channel <= 512 {
            let mut state: Vec<u8> = self.dmx_state.clone();
            assert(state@ =~= self.dmx_state@);
            state.set((channel - 1) as usize, value);
            self.dmx_state = state;
        }
    }

    /// Sets all 512 channels.
    pub fn set_frame(&mut self, data: &[u8; 512])
        ensures
            final(self).levels() == data@,
            final(self).spec_config() == old(self).spec_config(),
            final(self).spec_dmx_config() == old(self).spec_dmx_config(),
    {
        let mut state: Vec<u8> = Vec::new();
        let mut i: usize = 0;
        while i < 512
            invariant
                i <= 512,
                data@.len() == 512,
                state@ == data@.take(i as int),
            decreases 512 - i,
        {
            state.push(data[i]);
            i = i + 1;
            assert(state@ =~= data@.take(i as int));
        }
        assert(data@.take(512) =~= data@);
        self.dmx_state = state;
    }

    /// The level of channel `channel` (1 to 512); `None` out of range.
    pub fn get_channel(&self, channel: u16) -> (r: Option<u8>)
        ensures
            r == if 1 <= channel <= 512 {
                Some(self.levels()[channel - 1])
            } else {
                None::<u8>
            },
    {
        proof {
            use_type_invariant(self);
        }
        if channel > 0 && channel <= 512 {
            Some(self.dmx_state[(channel - 1) as usize])
        } else {
            None
        }
    }

    /// Applies a message from the CLASP side: a SET of
    /// `/<ns>/<universe>/<channel>` for this bridge's universe sets the
    /// channel to the value's level (its integer clamped to 0..=255, 0 for a
    /// value that is not an integer). A universe or channel that is not a
    /// `u16` is a mapping error; SETs of other universes, channels out of
    /// 1..=512 and other messages change nothing.
    pub fn send(&mut self, message: &Message) -> (r: Result<(), BridgeError>)
        ensures
            final(self).spec_config() == old(self).spec_config(),
            final(self).spec_dmx_config() == old(self).spec_dmx_config(),
            match dmx_target(old(self).spec_dmx_config().universe, *message) {
                Ok(Some((c, v))) => r is Ok && final(self).levels() == old(self).levels().update(
                    c - 1,
                    v,
                ),
                Ok(None) => r is Ok && final(self).levels() == old(self).levels(),
                Err(e) => (r matches Err(BridgeError::Mapping(m)) && m@ == e) && final(self).levels()
                    == old(self).levels(),
            },
    {
        proof {
            reveal_strlit("Invalid universe");
            reveal_strlit("Invalid channel");
        }
        let set = match message {
            Message::SetParam(set) => set,
            _ => return Ok(()),
        };
        let addr = chars_of(set.address.as_str());
        let parts = split_chars(&addr, '/');
        if parts.len() < 4 {
            return Ok(());
        }
        assert(views(parts@)[2] == parts@[2]@);
        assert(views(parts@)[3] == parts@[3]@);
        let universe = match parse_unsigned_chars(&parts[2], 65535) {
            Some(u) => u,
            None => return Err(BridgeError::Mapping(String::from_str("Invalid universe"))),
        };
        if universe != self.dmx_config.universe as u64 {
            return Ok(());
        }
        let channel = match parse_unsigned_chars(&parts[3], 65535) {
            Some(c) => c,
            None => return Err(BridgeError::Mapping(String::from_str("Invalid channel"))),
        };
        if channel >= 1 && channel <= 512 {
            let level: u8 = match &set.value {
                ClaspValue::Int(i) => if *i < 0 {
                    0
                } else if *i > 255 {
                    255
                } else {
                    *i as u8
                },
                _ => 0,
            };
            self.set_channel(channel as u16, level);
        }
        Ok(())
    }
}

/// A level read back after it was set is the level set; the other
/// channels keep theirs.
pub proof fn law_channel_read_after_write(levels: Seq<u8>, channel: u16, value: u8, other: u16)
    requires
        levels.len() == 512,
        1 <= channel <= 512,
        1 <= other <= 512,
        other != channel,
    ensures
        levels.update(channel - 1, value)[channel - 1] == value,
        levels.update(channel - 1, value)[other - 1] == levels[other - 1],
{
}

/// The system whose device directory is searched for serial ports.
#[derive(Clone, Copy, PartialEq, Eq, Structural, Debug)]
pub enum PortSystem {
    MacOs,
    Linux,
}

/// Whether a device path names a serial port that may be a DMX interface:
/// a USB serial device (`tty.usbserial` or `cu.usbserial` on macOS,
/// `ttyUSB` or `ttyACM` on Linux).
pub open spec fn is_dmx_port_path(path: Seq<char>, system: PortSystem) -> bool {
    match system {
        PortSystem::MacOs => find_from(path, "tty.usbserial"@, 0) is Some || find_from(
            path,
            "cu.usbserial"@,
            0,
        ) is Some,
        PortSystem::Linux => find_from(path, "ttyUSB"@, 0) is Some || find_from(path, "ttyACM"@, 0)
            is Some,
    }
}

/// Whether a device path may be a DMX interface, as [`is_dmx_port_path`]
/// states.
pub fn dmx_port_path(path: &str, system: PortSystem) -> (b: bool)
    ensures
        b == is_dmx_port_path(path@, system),
{
    let p = chars_of(path);
    let (a, b) = match system {
        PortSystem::MacOs => ("tty.usbserial", "cu.usbserial"),
        PortSystem::Linux => ("ttyUSB", "ttyACM"),
    };
    proof {
        reveal_strlit("tty.usbserial");
        reveal_strlit("cu.usbserial");
        reveal_strlit("ttyUSB");
        reveal_strlit("ttyACM");
    }
    find_chars(&p, &chars_of(a)).is_some() || find_chars(&p, &chars_of(b)).is_some()
}

} // verus!
