//! OSC (Open Sound Control) bridge: OSC packets to CLASP messages and
//! back.
use vstd::prelude::*;
use crate::bridge::{BridgeConfig, BridgeError};
use crate::message::{BundleMessage, Message};
use crate::text::{chars_from, chars_of, is_prefix, starts_with, string_from_chars};
use crate::value::{ClaspValue, ValueModel};
use vstd::arithmetic::power2::{lemma2_to64, lemma_pow2_strictly_increases, lemma_pow2_unfold, pow2};

verus! {

/// An OSC argument. Floating-point arguments are carried as their bit
/// patterns.
#[derive(Debug)]
pub enum OscArg {
    Int(i32),
    /// A 32-bit float, as bits.
    Float(u32),
    String(String),
    Blob(Vec<u8>),
    Long(i64),
    /// A 64-bit float, as bits.
    Double(u64),
    Bool(bool),
    Nil,
    Inf,
    /// Any other argument type (time tag, char, colour, MIDI, array).
    Other,
    /// A map, sent as a string argument that holds its JSON text.
    Json(ClaspValue),
}

/// The model of an OSC argument.
pub enum OscArgModel {
    Int(i32),
    Float(u32),
    Str(Seq<char>),
    Blob(Seq<u8>),
    Long(i64),
    Double(u64),
    Bool(bool),
    Nil,
    Inf,
    Other,
    Json(ValueModel),
}

/// The model of an argument.
pub open spec fn arg_model(a: OscArg) -> OscArgModel {
    match a {
        OscArg::Int(i) => OscArgModel::Int(i),
        OscArg::Float(b) => OscArgModel::Float(b),
        OscArg::String(s) => OscArgModel::Str(s@),
        OscArg::Blob(b) => OscArgModel::Blob(b@),
        OscArg::Long(l) => OscArgModel::Long(l),
        OscArg::Double(b) => OscArgModel::Double(b),
        OscArg::Bool(b) => OscArgModel::Bool(b),
        OscArg::Nil => OscArgModel::Nil,
        OscArg::Inf => OscArgModel::Inf,
        OscArg::Other => OscArgModel::Other,
        OscArg::Json(v) => OscArgModel::Json(v.model()),
    }
}

/// The models of a sequence of arguments.
pub open spec fn args_model(s: Seq<OscArg>) -> Seq<OscArgModel> {
    s.map_values(|a: OscArg| arg_model(a))
}

/// An OSC message: an address and arguments.
#[derive(Debug)]
pub struct OscMessage {
    pub addr: String,
    pub args: Vec<OscArg>,
}

/// An OSC time tag: seconds and fractions of a second (in units of
/// 1/2^32).
#[derive(Clone, Debug)]
pub struct OscTime {
    pub seconds: u32,
    pub fractional: u32,
}

/// An OSC bundle: a time tag and packets.
#[derive(Debug)]
pub struct OscBundle {
    pub timetag: OscTime,
    pub content: Vec<Packet>,
}

/// An OSC packet.
#[derive(Debug)]
pub enum Packet {
    Message(OscMessage),
    Bundle(OscBundle),
}

/// The bit pattern of positive infinity as an `f64`.
pub const F64_INFINITY_BITS: u64 = 0x7ff0000000000000;

/// The number of places a nonzero fraction below 2^23 moves left until
/// its top bit reaches bit 23.
pub open spec fn normalizing_shift(m: nat) -> nat
    decreases 0x100_0000 - m,
{
    if m == 0 || m >= 0x80_0000 {
        0
    } else {
        1 + normalizing_shift(2 * m)
    }
}

/// The bits of a 32-bit IEEE-754 float widened to 64 bits: the sign is
/// kept, the exponent rebiased (by 896), the 23-bit fraction moved to the
/// top of the 52-bit one; a subnormal is normalized, and a NaN keeps its
/// payload with the quiet bit set.
pub open spec fn widened_bits(b: u32) -> u64 {
    let sign = b as int / 0x8000_0000;
    let e = (b as int / 0x80_0000) % 0x100;
    let m = b as int % 0x80_0000;
    let (exp, frac) = if e == 0xff {
        (0x7ff, (if m != 0 && m < 0x40_0000 { m + 0x40_0000 } else { m }) * 0x2000_0000)
    } else if e == 0 {
        if m == 0 {
            (0, 0)
        } else {
            let n = normalizing_shift(m as nat);
            (897 - n, (m * pow2(n) - 0x80_0000) * 0x2000_0000)
        }
    } else {
        (e + 896, m * 0x2000_0000)
    };
    (sign * 0x8000_0000_0000_0000 + exp * 0x10_0000_0000_0000 + frac) as u64
}

/// Widens the bits of a 32-bit float to those of the same value as a
/// 64-bit float.
pub fn widen_float_bits(b: u32) -> (r: u64)
    ensures
        r == widened_bits(b),
{
    let sign: u64 = (b / 0x8000_0000) as u64;
    let e: u64 = ((b / 0x80_0000) % 0x100) as u64;
    let m: u64 = (b % 0x80_0000) as u64;
    let (exp, frac): (u64, u64) = if e == 0xff {
        let q: u64 = if m != 0 && m < 0x40_0000 {
            m + 0x40_0000
        } else {
            m
        };
        (0x7ff, q * 0x2000_0000)
    } else if e == 0 {
        if m == 0 {
            (0, 0)
        } else {
            let mut mm: u64 = m;
            let mut n: u64 = 0;
            proof {
                lemma2_to64();
            }
            while mm < 0x80_0000
                invariant
                    1 <= m < 0x80_0000,
                    1 <= mm < 0x100_0000,
                    n <= 23,
                    mm == m * pow2(n as nat),
                    normalizing_shift(m as nat) == n + normalizing_shift(mm as nat),
                    pow2(23) == 0x80_0000,
                decreases 0x100_0000 - mm,
            {
                proof {
                    lemma_pow2_unfold((n + 1) as nat);
                    if n >= 23 {
                        if n > 23 {
                            lemma_pow2_strictly_increases(23, n as nat);
                        }
                        assert(mm >= pow2(n as nat)) by (nonlinear_arith)
                            requires
                                mm == m * pow2(n as nat),
                                m >= 1,
                        ;
                    }
                }
                mm = mm * 2;
                n = n + 1;
                assert(mm == m * pow2(n as nat)) by (nonlinear_arith)
                    requires
                        mm == 2 * (m * pow2((n - 1) as nat)),
                        pow2(n as nat) == 2 * pow2((n - 1) as nat),
                ;
            }
            (897 - n, (mm - 0x80_0000) * 0x2000_0000)
        }
    } else {
        (e + 896, m * 0x2000_0000)
    };
    sign * 0x8000_0000_0000_0000 + exp * 0x10_0000_0000_0000 + frac
}

/// The CLASP value of an OSC argument.
pub open spec fn arg_value(a: OscArgModel) -> ValueModel {
    match a {
        OscArgModel::Int(i) => ValueModel::Int(i as int),
        OscArgModel::Float(b) => ValueModel::Float(widened_bits(b)),
        OscArgModel::Str(s) => ValueModel::Str(s),
        OscArgModel::Blob(b) => ValueModel::Bytes(b),
        OscArgModel::Long(l) => ValueModel::Int(l as int),
        OscArgModel::Double(b) => ValueModel::Float(b),
        OscArgModel::Bool(b) => ValueModel::Bool(b),
        OscArgModel::Nil => ValueModel::Null,
        OscArgModel::Inf => ValueModel::Float(F64_INFINITY_BITS),
        OscArgModel::Other => ValueModel::Null,
        OscArgModel::Json(v) => v,
    }
}

/// The CLASP value of an OSC argument.
pub fn osc_arg_to_value(arg: &OscArg) -> (v: ClaspValue)
    ensures
        v.model() == arg_value(arg_model(*arg)),
{
    match arg {
        OscArg::Int(i) => ClaspValue::Int(*i as i64),
        OscArg::Float(b) => ClaspValue::Float(widen_float_bits(*b)),
        OscArg::String(s) => ClaspValue::String(s.clone()),
        OscArg::Blob(b) => {
            let v = ClaspValue::Bytes(b.clone());
            assert(v.model() == arg_value(arg_model(*arg)));
            v
        },
        OscArg::Long(l) => ClaspValue::Int(*l),
        OscArg::Double(b) => ClaspValue::Float(*b),
        OscArg::Bool(b) => ClaspValue::Bool(*b),
        OscArg::Nil => ClaspValue::Null,
        OscArg::Inf => ClaspValue::Float(F64_INFINITY_BITS),
        OscArg::Other => ClaspValue::Null,
        OscArg::Json(v) => v.duplicate(),
    }
}

/// The CLASP value of the arguments of a message: null for none, the value
/// of a single one, else an array of their values.
pub open spec fn args_value(args: Seq<OscArgModel>) -> ValueModel {
    if args.len() == 0 {
        ValueModel::Null
    } else if args.len() == 1 {
        arg_value(args[0])
    } else {
        ValueModel::Array(args.map_values(|a: OscArgModel| arg_value(a)))
    }
}

/// The value of the arguments of a message.
pub fn args_to_value(args: &Vec<OscArg>) -> (v: ClaspValue)
    ensures
        v.model() == args_value(args_model(args@)),
{
    if args.len() == 0 {
        ClaspValue::Null
    } else if args.len() == 1 {
        osc_arg_to_value(&args[0])
    } else {
        let mut vals: Vec<ClaspValue> = Vec::new();
        let mut i: usize = 0;
        while i < args.len()
            invariant
                i <= args.len(),
                vals.len() == i,
                forall|j: int|
                    0 <= j < i ==> #[trigger] vals@[j].model() == arg_value(arg_model(args@[j])),
            decreases args.len() - i,
        {
            vals.push(osc_arg_to_value(&args[i]));
            i = i + 1;
        }
        let v = ClaspValue::Array(vals);
        proof {
            let s1 = v.model()->Array_0;
            let s2 = args_model(args@).map_values(|a: OscArgModel| arg_value(a));
            assert(s1.len() == s2.len());
            assert forall|j: int| 0 <= j < s1.len() implies s1[j] == s2[j] by {
                assert(s1[j] == vals@[j].model());
            }
            assert(s1 =~= s2);
        }
        v
    }
}

/// The time in microseconds of an OSC time tag: whole seconds and the
/// fraction scaled to a million, rounded down.
pub open spec fn timetag_micros(t: OscTime) -> nat {
    (t.seconds as nat) * 1000000 + (t.fractional as nat) * 1000000 / 0xffff_ffff
}

/// The CLASP messages of an OSC packet: a message is a SET of
/// `{namespace}{address}` with the value of its arguments; a bundle is a
/// CLASP bundle, stamped with its time tag, of the messages of its packets
/// in order, or nothing when it holds none.
pub open spec fn packet_messages(namespace: Seq<char>, p: Packet) -> Option<Seq<MessageModel>>
    decreases p, 0nat,
{
    match p {
        Packet::Message(m) => Some(
            seq![MessageModel::Setting(namespace + m.addr@, args_value(args_model(m.args@)))],
        ),
        Packet::Bundle(b) => {
            let inner = bundle_messages(namespace, b.content@);
            if inner.len() == 0 {
                None
            } else {
                Some(seq![MessageModel::Bundle(timetag_micros(b.timetag), inner)])
            }
        },
    }
}

/// The messages of the packets of a bundle, in order.
pub open spec fn bundle_messages(namespace: Seq<char>, ps: Seq<Packet>) -> Seq<MessageModel>
    decreases ps, 1nat,
{
    if ps.len() == 0 {
        Seq::empty()
    } else {
        bundle_messages(namespace, ps.drop_last()) + match packet_messages(namespace, ps.last()) {
            Some(ms) => ms,
            None => Seq::empty(),
        }
    }
}

/// The shape of a CLASP message made from OSC: a plain SET, or a bundle
/// with a time stamp (or anything else).
pub enum MessageModel {
    Setting(Seq<char>, ValueModel),
    Bundle(nat, Seq<MessageModel>),
    Unshaped,
}

/// The shape of a CLASP message: a plain SET by its address and value, a
/// stamped bundle by its time and the shapes of its messages; any other
/// message has no shape here.
pub open spec fn shape(m: Message) -> MessageModel
    decreases m,
{
    match m {
        Message::SetParam(set) => if set.revision is None && !set.lock && !set.unlock {
            MessageModel::Setting(set.address@, set.value.model())
        } else {
            MessageModel::Unshaped
        },
        Message::Bundle(b) => match b.timestamp {
            Some(t) => MessageModel::Bundle(
                t as nat,
                Seq::new(
                    b.messages@.len(),
                    |i: int|
                        if 0 <= i < b.messages@.len() {
                            shape(b.messages@[i])
                        } else {
                            MessageModel::Unshaped
                        },
                ),
            ),
            None => MessageModel::Unshaped,
        },
        _ => MessageModel::Unshaped,
    }
}

/// The shapes of a sequence of messages.
pub open spec fn shapes(s: Seq<Message>) -> Seq<MessageModel> {
    s.map_values(|m: Message| shape(m))
}

/// The CLASP messages of an OSC packet, as [`packet_messages`] states.
pub fn packet_to_messages(packet: &Packet, namespace: &str) -> (r: Option<Vec<Message>>)
    ensures
        match packet_messages(namespace@, *packet) {
            Some(ms) => r matches Some(v) && shapes(v@) == ms,
            None => r is None,
        },
    decreases packet,
{
    match packet {
        Packet::Message(m) => {
            let mut address = String::from_str(namespace);
            address.append(m.addr.as_str());
            let value = args_to_value(&m.args);
            let msg = Message::SetParam(
                crate::message::SetMessage {
                    address,
                    value,
                    revision: None,
                    lock: false,
                    unlock: false,
                },
            );
            let mut v: Vec<Message> = Vec::new();
            v.push(msg);
            assert(shapes(v@) =~= packet_messages(namespace@, *packet)->0);
            Some(v)
        },
        Packet::Bundle(b) => {
            let mut messages: Vec<Message> = Vec::new();
            let mut i: usize = 0;
            while i < b.content.len()
                invariant
                    i <= b.content.len(),
                    *packet == Packet::Bundle(*b),
                    shapes(messages@) == bundle_messages(namespace@, b.content@.take(i as int)),
                decreases b.content.len() - i,
            {
                assert(b.content@.take(i + 1).drop_last() =~= b.content@.take(i as int));
                proof {
                    assert(decreases_to!(*packet => (*packet)->Bundle_0));
                    assert((*packet)->Bundle_0 == *b);
                    assert(decreases_to!(*b => b.content));
                    assert(decreases_to!(b.content => b.content@));
                    assert(decreases_to!(b.content@ => b.content@[i as int]));
                }
                let ghost before = messages@;
                match packet_to_messages(&b.content[i], namespace) {
                    Some(sub) => {
                        let mut sub = sub;
                        let ghost sub0 = sub@;
                        let n = sub.len();
                        let mut k: usize = 0;
                        while k < n
                            invariant
                                k <= n,
                                n == sub0.len(),
                                sub@ == sub0.skip(k as int),
                                messages@ == before + sub0.take(k as int),
                            decreases n - k,
                        {
                            let m = sub.remove(0);
                            messages.push(m);
                            k = k + 1;
                            assert(sub@ =~= sub0.skip(k as int));
                            assert(messages@ =~= before + sub0.take(k as int));
                        }
                        assert(sub0.take(sub0.len() as int) =~= sub0);
                        assert(shapes(messages@) =~= shapes(before) + shapes(sub0));
                    },
                    None => {
                        assert(shapes(messages@) =~= shapes(before) + Seq::<MessageModel>::empty());
                    },
                }
                i = i + 1;
            }
            assert(b.content@.take(b.content.len() as int) =~= b.content@);
            if messages.len() == 0 {
                return None;
            }
            let t = (b.timetag.seconds as u64) * 1000000 + (b.timetag.fractional as u64) * 1000000
                / 0xffff_ffff;
            let ghost inner = messages@;
            let mut v: Vec<Message> = Vec::new();
            v.push(Message::Bundle(BundleMessage { timestamp: Some(t), messages }));
            proof {
                let m0 = v@[0];
                assert(m0->Bundle_0.messages@ == inner);
                assert(m0->Bundle_0.timestamp == Some(t));
                let sh = shape(m0);
                assert(sh is Bundle);
                let els = sh->Bundle_1;
                assert(els.len() == inner.len());
                assert forall|j: int| 0 <= j < inner.len() implies els[j] == shapes(inner)[j] by {
                    assert(els[j] == shape(inner[j]));
                }
                assert(els =~= shapes(inner));
                assert(shapes(v@) =~= packet_messages(namespace@, *packet)->0);
            }
            Some(v)
        },
    }
}

/// The OSC arguments of a CLASP value: none for null, one for a boolean,
/// integer (as a long), float (as a double), string or bytes (as a blob),
/// the arguments of its elements in order for an array, and a map as one
/// argument of its JSON text.
pub open spec fn value_args(v: ValueModel) -> Seq<OscArgModel>
    decreases v, 0nat,
{
    match v {
        ValueModel::Null => Seq::empty(),
        ValueModel::Bool(b) => seq![OscArgModel::Bool(b)],
        ValueModel::Int(i) => seq![OscArgModel::Long(i as i64)],
        ValueModel::Float(b) => seq![OscArgModel::Double(b)],
        ValueModel::Str(s) => seq![OscArgModel::Str(s)],
        ValueModel::Bytes(b) => seq![OscArgModel::Blob(b)],
        ValueModel::Array(items) => array_args(items),
        ValueModel::Dict(_) => seq![OscArgModel::Json(v)],
    }
}

/// The arguments of the elements of an array, in order.
pub open spec fn array_args(items: Seq<ValueModel>) -> Seq<OscArgModel>
    decreases items, 1nat,
{
    if items.len() == 0 {
        Seq::empty()
    } else {
        array_args(items.drop_last()) + value_args(items.last())
    }
}

/// The OSC arguments of a value, as [`value_args`] states.
pub fn value_to_osc_args(value: &ClaspValue) -> (r: Vec<OscArg>)
    ensures
        args_model(r@) == value_args(value.model()),
    decreases value,
{
    match value {
        ClaspValue::Null => {
            let v: Vec<OscArg> = Vec::new();
            assert(args_model(v@) =~= Seq::<OscArgModel>::empty());
            v
        },
        ClaspValue::Bool(b) => {
            let mut v: Vec<OscArg> = Vec::new();
            v.push(OscArg::Bool(*b));
            assert(args_model(v@) =~= seq![OscArgModel::Bool(*b)]);
            v
        },
        ClaspValue::Int(i) => {
            let mut v: Vec<OscArg> = Vec::new();
            v.push(OscArg::Long(*i));
            assert(args_model(v@) =~= seq![OscArgModel::Long(*i)]);
            v
        },
        ClaspValue::Float(b) => {
            let mut v: Vec<OscArg> = Vec::new();
            v.push(OscArg::Double(*b));
            assert(args_model(v@) =~= seq![OscArgModel::Double(*b)]);
            v
        },
        ClaspValue::String(s) => {
            let mut v: Vec<OscArg> = Vec::new();
            v.push(OscArg::String(s.clone()));
            assert(args_model(v@) =~= seq![OscArgModel::Str(s@)]);
            v
        },
        ClaspValue::Bytes(b) => {
            let mut v: Vec<OscArg> = Vec::new();
            let blob = b.clone();
            v.push(OscArg::Blob(blob));
            assert(args_model(v@) =~= seq![OscArgModel::Blob(b@)]);
            v
        },
        ClaspValue::Array(items) => {
            let ghost ms = value.model()->Array_0;
            let mut out: Vec<OscArg> = Vec::new();
            let mut i: usize = 0;
            assert(ms.take(0) =~= Seq::<ValueModel>::empty());
            while i < items.len()
                invariant
                    i <= items.len(),
                    *value == ClaspValue::Array(*items),
                    ms == value.model()->Array_0,
                    ms.len() == items.len(),
                    forall|j: int| 0 <= j < items.len() ==> #[trigger] ms[j] == items@[j].model(),
                    array_args(ms.take(i as int)) == args_model(out@),
                decreases items.len() - i,
            {
                assert(ms.take(i + 1).drop_last() =~= ms.take(i as int));
                assert(ms.take(i + 1).last() == items@[i as int].model());
                proof {
                    assert(decreases_to!(*value => (*value)->Array_0));
                    assert((*value)->Array_0 == *items);
                    assert(decreases_to!(*items => items@));
                    assert(decreases_to!(items@ => items@[i as int]));
                }
                {
                    let sub = value_to_osc_args(&items[i]);
                    {
                        let ghost before = out@;
                        let mut sub = sub;
                        let ghost sub0 = sub@;
                        let n = sub.len();
                        let mut k: usize = 0;
                        while k < n
                            invariant
                                k <= n,
                                n == sub0.len(),
                                sub@ == sub0.skip(k as int),
                                out@ == before + sub0.take(k as int),
                            decreases n - k,
                        {
                            let a = sub.remove(0);
                            out.push(a);
                            k = k + 1;
                            assert(sub@ =~= sub0.skip(k as int));
                            assert(out@ =~= before + sub0.take(k as int));
                        }
                        assert(sub0.take(sub0.len() as int) =~= sub0);
                        assert(args_model(out@) =~= args_model(before) + args_model(sub0));
                    }
                }
                i = i + 1;
            }
            assert(ms.take(items.len() as int) =~= ms);
            out
        },
        ClaspValue::Dict(_) => {
            let mut v: Vec<OscArg> = Vec::new();
            v.push(OscArg::Json(value.duplicate()));
            assert(args_model(v@) =~= seq![OscArgModel::Json(value.model())]);
            v
        },
    }
}

/// OSC bridge configuration.
#[derive(Clone, Debug)]
pub struct OscBridgeConfig {
    /// Local address to bind.
    pub bind_addr: String,
    /// Remote address to send to.
    pub remote_addr: Option<String>,
    /// Address prefix on the CLASP side.
    pub namespace: String,
}

impl Default for OscBridgeConfig {
    /// Bound to `0.0.0.0:8000`, no remote address, namespace `/osc`.
    fn default() -> (c: Self)
        ensures
            c.bind_addr@ == "0.0.0.0:8000"@,
            c.remote_addr is None,
            c.namespace@ == "/osc"@,
    {
        OscBridgeConfig {
            bind_addr: String::from_str("0.0.0.0:8000"),
            remote_addr: None,
            namespace: String::from_str("/osc"),
        }
    }
}

/// The OSC bridge: its configuration and whether its socket is open.
#[derive(Clone, Debug)]
pub struct OscBridge {
    pub config: BridgeConfig,
    pub osc_config: OscBridgeConfig,
    pub connected: bool,
}

/// The OSC address of a CLASP address: without the namespace when it
/// starts with it.
pub open spec fn osc_address(namespace: Seq<char>, address: Seq<char>) -> Seq<char> {
    if is_prefix(namespace, address) {
        address.skip(namespace.len() as int)
    } else {
        address
    }
}

/// What a CLASP message becomes in OSC: a SET sends its value, a PUBLISH
/// its value or else its payload (or no argument), to the OSC address;
/// other messages send nothing.
pub open spec fn osc_packet_of(namespace: Seq<char>, m: Message) -> Option<(Seq<char>, Seq<OscArgModel>)> {
    match m {
        Message::SetParam(set) => Some((osc_address(namespace, set.address@), value_args(set.value.model()))),
        Message::Publish(p) => Some(
            (
                osc_address(namespace, p.address@),
                match p.value {
                    Some(v) => value_args(v.model()),
                    None => match p.payload {
                        Some(v) => value_args(v.model()),
                        None => Seq::empty(),
                    },
                },
            ),
        ),
        _ => None,
    }
}

/// The outcome of turning a CLASP message into OSC.
#[derive(Debug)]
pub enum OscOutput {
    /// The message to send.
    Send(OscMessage),
    /// Nothing to send.
    Nothing,
}

impl OscBridge {
    /// A closed bridge named `OSC Bridge`, working both ways.
    pub fn new(osc_config: OscBridgeConfig) -> (b: Self)
        ensures
            b.config.name@ == "OSC Bridge"@,
            b.config.protocol@ == "osc"@,
            b.config.bidirectional,
            b.config.options.len() == 0,
            b.osc_config == osc_config,
            !b.connected,
    {
        OscBridge {
            config: BridgeConfig::named("OSC Bridge", "osc", true),
            osc_config,
            connected: false,
        }
    }

    /// The CLASP messages of a received OSC packet.
    pub fn osc_to_clasp(&self, packet: &Packet) -> (r: Option<Vec<Message>>)
        ensures
            match packet_messages(self.osc_config.namespace@, *packet) {
                Some(ms) => r matches Some(v) && shapes(v@) == ms,
                None => r is None,
            },
    {
        packet_to_messages(packet, self.osc_config.namespace.as_str())
    }

    /// What a CLASP message becomes in OSC, as [`osc_packet_of`] states.
    pub fn clasp_to_osc(&self, message: &Message) -> (r: OscOutput)
        ensures
            match osc_packet_of(self.osc_config.namespace@, *message) {
                None => r is Nothing,
                Some((addr, args)) => r matches OscOutput::Send(m) && m.addr@ == addr
                    && args_model(m.args@) == args,
            },
    {
        let (address, value) = match message {
            Message::SetParam(set) => (&set.address, Some(&set.value)),
            Message::Publish(p) => match &p.value {
                Some(v) => (&p.address, Some(v)),
                None => match &p.payload {
                    Some(v) => (&p.address, Some(v)),
                    None => (&p.address, None),
                },
            },
            _ => {
                return OscOutput::Nothing;
            },
        };
        let a = chars_of(address.as_str());
        let ns = chars_of(self.osc_config.namespace.as_str());
        let addr = if starts_with(&a, &ns) {
            string_from_chars(&chars_from(&a, ns.len()))
        } else {
            address.clone()
        };
        let args = match value {
            Some(v) => value_to_osc_args(v),
            None => {
                let v: Vec<OscArg> = Vec::new();
                assert(args_model(v@) =~= Seq::<OscArgModel>::empty());
                v
            },
        };
        OscOutput::Send(OscMessage { addr, args })
    }

    /// What to send for a CLASP message: refused with `Not connected`
    /// while the socket is closed and with `No remote address configured`
    /// without a remote address.
    pub fn send(&self, message: &Message) -> (r: Result<OscOutput, BridgeError>)
        ensures
            !self.connected ==> (r matches Err(BridgeError::ConnectionFailed(e)) && e@
                == "Not connected"@),
            self.connected && self.osc_config.remote_addr is None ==> (r matches Err(
                BridgeError::Send(e),
            ) && e@ == "No remote address configured"@),
            self.connected && self.osc_config.remote_addr is Some ==> (r matches Ok(o) && match osc_packet_of(
                self.osc_config.namespace@,
                *message,
            ) {
                None => o is Nothing,
                Some((addr, args)) => o matches OscOutput::Send(m) && m.addr@ == addr
                    && args_model(m.args@) == args,
            }),
    {
        proof {
            reveal_strlit("Not connected");
            reveal_strlit("No remote address configured");
        }
        if !self.connected {
            return Err(BridgeError::ConnectionFailed(String::from_str("Not connected")));
        }
        if self.osc_config.remote_addr.is_none() {
            return Err(BridgeError::Send(String::from_str("No remote address configured")));
        }
        Ok(self.clasp_to_osc(message))
    }
}

/// The OSC packet that `rosc::decoder::decode_udp` reads from a datagram,
/// or `None` where it reports an error.
pub uninterp spec fn osc_decoding(datagram: Seq<u8>) -> Option<Packet>;

#[verifier::external_type_specification]
#[verifier::external_body]
pub struct ExRoscPacket(rosc::OscPacket);

#[verifier::external_type_specification]
#[verifier::external_body]
pub struct ExRoscType(rosc::OscType);

/// `rosc::decoder::decode_udp`: the packet decoded from a datagram, as
/// named by [`osc_decoding`]; the bytes after the packet are ignored.
#[verifier::external_body]
fn decode_datagram(datagram: &[u8]) -> (r: Option<Packet>)
    ensures
        r == osc_decoding(datagram@),
{
    match rosc::decoder::decode_udp(datagram) {
        Ok((_, packet)) => Some(packet_from_rosc(&packet)),
        Err(_) => None,
    }
}

/// Converts a packet decoded by `rosc` into an [`Packet`], field for
/// field and packet for packet. It makes no call of its own and nothing is
/// stated of it: [`decode_datagram`] states what the two give together.
#[verifier::external_body]
fn packet_from_rosc(packet: &rosc::OscPacket) -> Packet {
    match packet {
        rosc::OscPacket::Message(m) => Packet::Message(
            OscMessage { addr: m.addr.clone(), args: m.args.iter().map(arg_from_rosc).collect() },
        ),
        rosc::OscPacket::Bundle(b) => Packet::Bundle(
            OscBundle {
                timetag: OscTime { seconds: b.timetag.seconds, fractional: b.timetag.fractional },
                content: b.content.iter().map(packet_from_rosc).collect(),
            },
        ),
    }
}

/// Converts an argument decoded by `rosc` into an [`OscArg`], variant for
/// variant: floats are kept as their bits; time
/// tags, characters, colours, MIDI messages and arrays become `Other`.
/// Nothing is stated of it: [`decode_datagram`] states what it gives.
#[verifier::external_body]
fn arg_from_rosc(arg: &rosc::OscType) -> OscArg {
    match arg {
        rosc::OscType::Int(i) => OscArg::Int(*i),
        rosc::OscType::Float(f) => OscArg::Float(f.to_bits()),
        rosc::OscType::String(s) => OscArg::String(s.clone()),
        rosc::OscType::Blob(b) => OscArg::Blob(b.clone()),
        rosc::OscType::Long(l) => OscArg::Long(*l),
        rosc::OscType::Double(d) => OscArg::Double(d.to_bits()),
        rosc::OscType::Bool(b) => OscArg::Bool(*b),
        rosc::OscType::Nil => OscArg::Nil,
        rosc::OscType::Inf => OscArg::Inf,
        _ => OscArg::Other,
    }
}

/// The CLASP messages of a datagram: those of the packet that
/// [`osc_decoding`] names, none where it names no packet.
pub open spec fn datagram_messages(namespace: Seq<char>, datagram: Seq<u8>) -> Option<Seq<MessageModel>> {
    match osc_decoding(datagram) {
        Some(p) => packet_messages(namespace, p),
        None => None,
    }
}

impl OscBridge {
    /// The CLASP messages of a received datagram: it is decoded, and the
    /// packet turned into messages under this bridge's namespace; a
    /// datagram that does not decode gives none.
    pub fn receive(&self, datagram: &[u8]) -> (r: Option<Vec<Message>>)
        ensures
            match datagram_messages(self.osc_config.namespace@, datagram@) {
                Some(ms) => r matches Some(v) && shapes(v@) == ms,
                None => r is None,
            },
    {
        match decode_datagram(datagram) {
            Some(packet) => self.osc_to_clasp(&packet),
            None => None,
        }
    }

}

/// A scalar value sent as OSC arguments and read back is the same value.
pub proof fn law_scalar_roundtrip(v: ValueModel)
    requires
        !(v is Array),
        !(v is Dict),
        v is Int ==> i64::MIN <= v->Int_0 <= i64::MAX,
    ensures
        args_value(value_args(v)) == v,
{
    match v {
        ValueModel::Null => {},
        ValueModel::Bool(b) => {},
        ValueModel::Int(i) => {},
        ValueModel::Float(b) => {},
        ValueModel::Str(s) => {},
        ValueModel::Bytes(b) => {},
        _ => {},
    }
}

/// A SET sends the arguments of its value; a PUBLISH those of its value,
/// or, without a value, those of its payload, so that an event's payload
/// is never lost; the OSC address is the CLASP address with the namespace
/// taken off its front (the whole address when it does not start with the
/// namespace); other messages send nothing.
pub proof fn law_osc_carries_content(namespace: Seq<char>, m: Message)
    ensures
        m is SetParam ==> (osc_packet_of(namespace, m) matches Some((_, args)) && args == value_args(
            m->SetParam_0.value.model(),
        )),
        (m is Publish && m->Publish_0.value is Some) ==> (osc_packet_of(namespace, m) matches Some(
            (_, args),
        ) && args == value_args(m->Publish_0.value->0.model())),
        (m is Publish && m->Publish_0.value is None && m->Publish_0.payload is Some) ==> (
        osc_packet_of(namespace, m) matches Some((_, args)) && args == value_args(
            m->Publish_0.payload->0.model(),
        )),
        (m is Publish && m->Publish_0.value is None && m->Publish_0.payload is None) ==> (
        osc_packet_of(namespace, m) matches Some((_, args)) && args.len() == 0),
        !(m is SetParam) && !(m is Publish) ==> osc_packet_of(namespace, m) is None,
        osc_packet_of(namespace, m) matches Some((a, _)) ==> {
            let full = match m {
                Message::SetParam(s) => s.address@,
                Message::Publish(p) => p.address@,
                _ => a,
            };
            &&& is_prefix(namespace, full) ==> namespace + a == full
            &&& !is_prefix(namespace, full) ==> a == full
        },
{
    if let Some((a, _)) = osc_packet_of(namespace, m) {
        let full = match m {
            Message::SetParam(s) => s.address@,
            Message::Publish(p) => p.address@,
            _ => a,
        };
        if is_prefix(namespace, full) {
            assert(namespace + full.skip(namespace.len() as int) =~= full);
        }
    }
}

} // verus!
