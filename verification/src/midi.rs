//! MIDI bridge: translation between MIDI byte messages and CLASP messages.
use vstd::prelude::*;
use crate::message::{event, plain_set, Message, SignalType};
use crate::text::{
    append_str, chars_eq_str, chars_of, decimal, extend_chars, free_of, lemma_decimal_digits,
    lemma_parse_decimal, lemma_split_push_piece, parse_unsigned, parse_unsigned_chars, split_chars,
    split_on, string_from_chars, u64_to_chars,
};
use crate::value::{
    dict_find, dict_get, dict_lookup, model_as_bool, model_as_int, ClaspValue, ValueModel,
};
use crate::mapping::{find_chars, find_from};

verus! {

/// MIDI bridge configuration.
#[derive(Clone, Debug)]
pub struct MidiBridgeConfig {
    /// Input port name (or part of it).
    pub input_port: Option<String>,
    /// Output port name (or part of it).
    pub output_port: Option<String>,
    /// Address namespace.
    pub namespace: String,
    /// Device name in addresses.
    pub device_name: String,
}

impl Default for MidiBridgeConfig {
    fn default() -> (c: Self)
        ensures
            c.input_port is None,
            c.output_port is None,
            c.namespace@ == "/midi"@,
            c.device_name@ == "default"@,
    {
        MidiBridgeConfig {
            input_port: None,
            output_port: None,
            namespace: String::from_str("/midi"),
            device_name: String::from_str("default"),
        }
    }
}

/// What a MIDI byte message means.
pub enum MidiEvent {
    Note { channel: nat, note: nat, velocity: nat, on: bool },
    ControlChange { channel: nat, controller: nat, value: nat },
    ProgramChange { channel: nat, program: nat },
    PitchBend { channel: nat, value: int },
    Clock,
    Transport { action: Seq<char> },
}

/// Byte `i` of a message, or 0 when the message is shorter.
pub open spec fn byte_or_zero(m: Seq<u8>, i: int) -> u8 {
    if 0 <= i < m.len() {
        m[i]
    } else {
        0
    }
}

/// The 14-bit pitch-bend amount of two data bytes, centred on zero.
pub open spec fn bend_amount(lsb: u8, msb: u8) -> int {
    (((msb as u64) << 7u64) | (lsb as u64)) as int - 8192
}

/// The meaning of a MIDI byte message: channel voice messages by the high
/// nibble of the status byte, clock and transport system messages by the
/// whole status byte; anything else means nothing.
pub open spec fn decode_midi(m: Seq<u8>) -> Option<MidiEvent> {
    if m.len() == 0 {
        None
    } else {
        let status = m[0] / 16;
        let channel = (m[0] % 16) as nat;
        let d1 = byte_or_zero(m, 1);
        let d2 = byte_or_zero(m, 2);
        if status == 8 || status == 9 {
            Some(
                MidiEvent::Note {
                    channel,
                    note: d1 as nat,
                    velocity: d2 as nat,
                    on: status == 9 && d2 > 0,
                },
            )
        } else if status == 11 {
            Some(MidiEvent::ControlChange { channel, controller: d1 as nat, value: d2 as nat })
        } else if status == 12 {
            Some(MidiEvent::ProgramChange { channel, program: d1 as nat })
        } else if status == 14 {
            Some(MidiEvent::PitchBend { channel, value: bend_amount(d1, d2) })
        } else if m[0] == 0xF8 {
            Some(MidiEvent::Clock)
        } else if m[0] == 0xFA {
            Some(MidiEvent::Transport { action: "start"@ })
        } else if m[0] == 0xFB {
            Some(MidiEvent::Transport { action: "continue"@ })
        } else if m[0] == 0xFC {
            Some(MidiEvent::Transport { action: "stop"@ })
        } else {
            None
        }
    }
}

/// Address of the messages of one MIDI channel under `base`.
pub open spec fn channel_address(base: Seq<char>, channel: nat) -> Seq<char> {
    base + "/ch/"@ + decimal(channel)
}

/// A PUBLISH event at `address` whose payload has the model `payload`.
pub open spec fn is_event_with(m: Message, address: Seq<char>, payload: Option<ValueModel>) -> bool {
    &&& m is Publish
    &&& m->Publish_0.address@ == address
    &&& m->Publish_0.signal == Some(SignalType::Event)
    &&& m->Publish_0.value is None
    &&& match payload {
        Some(p) => m->Publish_0.payload is Some && m->Publish_0.payload->0.model() == p,
        None => m->Publish_0.payload is None,
    }
    &&& m->Publish_0.id is None
    &&& m->Publish_0.timestamp is None
}

/// The model of a note payload: `note`, `velocity` and `on`, in that order.
pub open spec fn note_payload(note: nat, velocity: nat, on: bool) -> ValueModel {
    ValueModel::Dict(
        seq![
            ("note"@, ValueModel::Int(note as int)),
            ("velocity"@, ValueModel::Int(velocity as int)),
            ("on"@, ValueModel::Bool(on)),
        ],
    )
}

/// The CLASP message that a MIDI event becomes under the base address.
pub open spec fn midi_event_message(m: Message, ev: MidiEvent, base: Seq<char>) -> bool {
    match ev {
        MidiEvent::Note { channel, note, velocity, on } => is_event_with(
            m,
            channel_address(base, channel) + "/note"@,
            Some(note_payload(note, velocity, on)),
        ),
        MidiEvent::ControlChange { channel, controller, value } => {
            &&& m is SetParam
            &&& m->SetParam_0.address@ == channel_address(base, channel) + "/cc/"@ + decimal(
                controller,
            )
            &&& m->SetParam_0.value.model() == ValueModel::Int(value as int)
            &&& m->SetParam_0.revision is None
            &&& !m->SetParam_0.lock
            &&& !m->SetParam_0.unlock
        },
        MidiEvent::ProgramChange { channel, program } => is_event_with(
            m,
            channel_address(base, channel) + "/program"@,
            Some(ValueModel::Int(program as int)),
        ),
        MidiEvent::PitchBend { channel, value } => {
            &&& m is SetParam
            &&& m->SetParam_0.address@ == channel_address(base, channel) + "/bend"@
            &&& m->SetParam_0.value.model() == ValueModel::Int(value)
            &&& m->SetParam_0.revision is None
            &&& !m->SetParam_0.lock
            &&& !m->SetParam_0.unlock
        },
        MidiEvent::Clock => is_event_with(m, base + "/clock"@, None),
        MidiEvent::Transport { action } => is_event_with(
            m,
            base + "/transport"@,
            Some(ValueModel::Str(action)),
        ),
    }
}

fn address_with(prefix: &Vec<char>, suffix: &str) -> (s: String)
    ensures
        s@ == prefix@ + suffix@,
{
    let mut v = prefix.clone();
    append_str(&mut v, suffix);
    string_from_chars(&v)
}

/// Translates a MIDI byte message into a CLASP message under `base_addr`
/// (such as `/midi/{device}`): notes and program changes become events,
/// control changes and pitch bend become parameter sets, clock and
/// transport become events at the base address; anything else gives `None`.
pub fn midi_message_to_clasp(message: &[u8], base_addr: &str) -> (r: Option<Message>)
    ensures
        r is Some <==> decode_midi(message@) is Some,
        r is Some ==> midi_event_message(r->0, decode_midi(message@)->0, base_addr@),
{
    if message.len() == 0 {
        return None;
    }
    let b0 = message[0];
    let status: u8 = b0 / 16;
    let channel: u8 = b0 % 16;
    let d1: u8 = if message.len() > 1 {
        message[1]
    } else {
        0
    };
    let d2: u8 = if message.len() > 2 {
        message[2]
    } else {
        0
    };
    let base = chars_of(base_addr);
    let mut ch_addr = base.clone();
    append_str(&mut ch_addr, "/ch/");
    let ch_digits = u64_to_chars(channel as u64);
    extend_chars(&mut ch_addr, &ch_digits);
    assert(ch_addr@ == channel_address(base_addr@, channel as nat));
    if status == 8 || status == 9 {
        let on = status == 9 && d2 > 0;
        let address = address_with(&ch_addr, "/note");
        let mut entries: Vec<(String, ClaspValue)> = Vec::new();
        entries.push((String::from_str("note"), ClaspValue::Int(d1 as i64)));
        entries.push((String::from_str("velocity"), ClaspValue::Int(d2 as i64)));
        entries.push((String::from_str("on"), ClaspValue::Bool(on)));
        let ghost e = entries@;
        let payload = ClaspValue::Dict(entries);
        proof {
            let pm = payload.model()->Dict_0;
            let want = note_payload(d1 as nat, d2 as nat, on)->Dict_0;
            assert(pm.len() == 3);
            assert(pm[0] == (e[0].0@, e[0].1.model()));
            assert(pm[1] == (e[1].0@, e[1].1.model()));
            assert(pm[2] == (e[2].0@, e[2].1.model()));
            assert(pm =~= want);
        }
        let m = event(address, Some(payload));
        Some(m)
    } else if status == 11 {
        let mut a = ch_addr.clone();
        append_str(&mut a, "/cc/");
        let cc_digits = u64_to_chars(d1 as u64);
        extend_chars(&mut a, &cc_digits);
        let address = string_from_chars(&a);
        Some(plain_set(address, ClaspValue::Int(d2 as i64)))
    } else if status == 12 {
        let address = address_with(&ch_addr, "/program");
        Some(event(address, Some(ClaspValue::Int(d1 as i64))))
    } else if status == 14 {
        let raw: u64 = ((d2 as u64) << 7u64) | (d1 as u64);
        assert(raw < 0x10000) by (bit_vector)
            requires
                raw == ((d2 as u64) << 7u64) | (d1 as u64),
        ;
        let value: i64 = raw as i64 - 8192;
        let address = address_with(&ch_addr, "/bend");
        Some(plain_set(address, ClaspValue::Int(value)))
    } else if b0 == 0xF8 {
        let address = address_with(&base, "/clock");
        Some(event(address, None))
    } else if b0 == 0xFA || b0 == 0xFB || b0 == 0xFC {
        let address = address_with(&base, "/transport");
        let action = if b0 == 0xFA {
            String::from_str("start")
        } else if b0 == 0xFB {
            String::from_str("continue")
        } else {
            String::from_str("stop")
        };
        Some(event(address, Some(ClaspValue::String(action))))
    } else {
        None
    }
}


/// `x` limited to `lo..=hi`.
pub open spec fn clamp(x: int, lo: int, hi: int) -> int {
    if x < lo {
        lo
    } else if x > hi {
        hi
    } else {
        x
    }
}

/// The MIDI bytes that a CLASP message becomes, by the `/`-separated pieces
/// of its address, which follow `/midi/{device}/ch/{channel}/{kind}` (the
/// first piece is the empty text before the leading `/`, the fourth is
/// `ch`, the fifth the channel, the sixth the kind): a SET of kind `cc`
/// gives a control change (controller in the seventh piece), one of kind
/// `bend` a pitch bend; a PUBLISH of kind `note` whose payload is a
/// dictionary gives a note on or off. Channel numbers keep their low four
/// bits, data values are clamped to their ranges.
pub open spec fn encode_midi(m: Message) -> Option<Seq<u8>> {
    match m {
        Message::SetParam(set) => {
            let parts = split_on(set.address@, '/');
            if parts.len() >= 7 && parts[3] == "ch"@ && parts[5] == "cc"@ {
                match (
                    parse_unsigned(parts[4], 255),
                    parse_unsigned(parts[6], 255),
                    model_as_int(set.value.model()),
                ) {
                    (Some(ch), Some(cc), Some(v)) => Some(
                        seq![(0xB0 + ch % 16) as u8, cc as u8, clamp(v, 0, 127) as u8],
                    ),
                    _ => None,
                }
            } else if parts.len() >= 6 && parts[3] == "ch"@ && parts[5] == "bend"@ {
                match (parse_unsigned(parts[4], 255), model_as_int(set.value.model())) {
                    (Some(ch), Some(v)) => {
                        let b = clamp(v + 8192, 0, 16383);
                        Some(seq![(0xE0 + ch % 16) as u8, (b % 128) as u8, (b / 128) as u8])
                    },
                    _ => None,
                }
            } else {
                None
            }
        },
        Message::Publish(p) => {
            let parts = split_on(p.address@, '/');
            if parts.len() >= 6 && parts[3] == "ch"@ && parts[5] == "note"@ {
                match (parse_unsigned(parts[4], 255), p.payload) {
                    (Some(ch), Some(payload)) => match payload.model() {
                        ValueModel::Dict(entries) => match (
                            dict_get(entries, "note"@),
                            dict_get(entries, "velocity"@),
                        ) {
                            (Some(nv), Some(vv)) => match (model_as_int(nv), model_as_int(vv)) {
                                (Some(n), Some(v)) => {
                                    let note = clamp(n, 0, 127);
                                    let vel = clamp(v, 0, 127);
                                    let on = match dict_get(entries, "on"@) {
                                        Some(ov) => match model_as_bool(ov) {
                                            Some(b) => b,
                                            None => vel > 0,
                                        },
                                        None => vel > 0,
                                    };
                                    let status: int = if on {
                                        0x90
                                    } else {
                                        0x80
                                    };
                                    Some(seq![(status + ch % 16) as u8, note as u8, vel as u8])
                                },
                                _ => None,
                            },
                            _ => None,
                        },
                        _ => None,
                    },
                    _ => None,
                }
            } else {
                None
            }
        },
        _ => None,
    }
}

/// The message's pitch-bend value can be offset by 8192 within `i64`
/// (for other messages this holds trivially).
pub open spec fn bend_in_range(m: Message) -> bool {
    match m {
        Message::SetParam(set) => {
            let parts = split_on(set.address@, '/');
            (parts.len() >= 6 && parts[3] == "ch"@ && parts[5] == "bend"@ && !(parts.len() >= 7
                && parts[5] == "cc"@) && parse_unsigned(parts[4], 255) is Some) ==> match set.value.model() {
                ValueModel::Int(v) => v + 8192 <= i64::MAX,
                _ => true,
            }
        },
        _ => true,
    }
}

fn int_of(v: &ClaspValue) -> (r: Option<i64>)
    ensures
        match r {
            Some(i) => model_as_int(v.model()) == Some(i as int),
            None => model_as_int(v.model()) is None,
        },
{
    match v {
        ClaspValue::Int(i) => Some(*i),
        _ => None,
    }
}

fn clamp_i64(x: i64, lo: i64, hi: i64) -> (r: i64)
    requires
        lo <= hi,
    ensures
        r == clamp(x as int, lo as int, hi as int),
{
    if x < lo {
        lo
    } else if x > hi {
        hi
    } else {
        x
    }
}

/// Translates a CLASP message into MIDI bytes, as [`encode_midi`] states.
pub fn clasp_to_midi(message: &Message, config: &MidiBridgeConfig) -> (r: Option<Vec<u8>>)
    requires
        bend_in_range(*message),
    ensures
        match r {
            Some(b) => encode_midi(*message) == Some(b@),
            None => encode_midi(*message) is None,
        },
{
    match message {
        Message::SetParam(set) => {
            let addr = chars_of(set.address.as_str());
            let parts = split_chars(&addr, '/');
            proof {
                if parts.len() >= 6 {
                    assert(crate::text::views(parts@)[5] == parts@[5]@);
                    assert(crate::text::views(parts@)[4] == parts@[4]@);
                    assert(crate::text::views(parts@)[3] == parts@[3]@);
                }
            }
            if parts.len() >= 7 && chars_eq_str(&parts[3], "ch") && chars_eq_str(&parts[5], "cc") {
                assert(crate::text::views(parts@)[6] == parts@[6]@);
                let ch = match parse_unsigned_chars(&parts[4], 255) {
                    Some(c) => c,
                    None => return None,
                };
                let cc = match parse_unsigned_chars(&parts[6], 255) {
                    Some(c) => c,
                    None => return None,
                };
                let v = match int_of(&set.value) {
                    Some(v) => v,
                    None => return None,
                };
                let value = clamp_i64(v, 0, 127);
                let mut out: Vec<u8> = Vec::new();
                out.push(0xB0u8 + (ch % 16) as u8);
                out.push(cc as u8);
                out.push(value as u8);
                assert(out@ =~= seq![(0xB0 + ch % 16) as u8, cc as u8, value as u8]);
                return Some(out);
            }
            if parts.len() >= 6 && chars_eq_str(&parts[3], "ch") && chars_eq_str(&parts[5], "bend") {
                let ch = match parse_unsigned_chars(&parts[4], 255) {
                    Some(c) => c,
                    None => return None,
                };
                let v = match int_of(&set.value) {
                    Some(v) => v,
                    None => return None,
                };
                let b = clamp_i64(v + 8192, 0, 16383);
                let mut out: Vec<u8> = Vec::new();
                out.push(0xE0u8 + (ch % 16) as u8);
                out.push((b % 128) as u8);
                out.push((b / 128) as u8);
                assert(out@ =~= seq![(0xE0 + ch % 16) as u8, (b % 128) as u8, (b / 128) as u8]);
                return Some(out);
            }
            None
        },
        Message::Publish(p) => {
            let addr = chars_of(p.address.as_str());
            let parts = split_chars(&addr, '/');
            proof {
                if parts.len() >= 6 {
                    assert(crate::text::views(parts@)[5] == parts@[5]@);
                    assert(crate::text::views(parts@)[4] == parts@[4]@);
                    assert(crate::text::views(parts@)[3] == parts@[3]@);
                }
            }
            if parts.len() >= 6 && chars_eq_str(&parts[3], "ch") && chars_eq_str(&parts[5], "note") {
                let ch = match parse_unsigned_chars(&parts[4], 255) {
                    Some(c) => c,
                    None => return None,
                };
                if let Some(ClaspValue::Dict(entries)) = &p.payload {
                    let ghost em = ClaspValue::Dict(*entries).model()->Dict_0;
                    let ni = match dict_lookup(entries, "note") {
                        Some(i) => i,
                        None => return None,
                    };
                    let vi = match dict_lookup(entries, "velocity") {
                        Some(i) => i,
                        None => return None,
                    };
                    assert(em[ni as int].1 == entries[ni as int].1.model());
                    assert(em[vi as int].1 == entries[vi as int].1.model());
                    let n = match int_of(&entries[ni].1) {
                        Some(n) => n,
                        None => return None,
                    };
                    let v = match int_of(&entries[vi].1) {
                        Some(v) => v,
                        None => return None,
                    };
                    let note = clamp_i64(n, 0, 127);
                    let vel = clamp_i64(v, 0, 127);
                    let on = match dict_lookup(entries, "on") {
                        Some(oi) => {
                            assert(em[oi as int].1 == entries[oi as int].1.model());
                            match &entries[oi].1 {
                                ClaspValue::Bool(b) => *b,
                                _ => vel > 0,
                            }
                        },
                        None => vel > 0,
                    };
                    let status: u8 = if on {
                        0x90
                    } else {
                        0x80
                    };
                    let mut out: Vec<u8> = Vec::new();
                    out.push(status + (ch % 16) as u8);
                    out.push(note as u8);
                    out.push(vel as u8);
                    assert(out@ =~= seq![(status + ch % 16) as u8, note as u8, vel as u8]);
                    return Some(out);
                }
            }
            None
        },
        _ => None,
    }
}

/// The pieces of a channel address: those of the base, then `ch`, then the
/// channel number.
proof fn lemma_channel_pieces(base: Seq<char>, channel: nat)
    ensures
        split_on(channel_address(base, channel), '/') == split_on(base, '/').push("ch"@).push(
            decimal(channel),
        ),
{
    reveal_strlit("/ch/");
    reveal_strlit("ch");
    lemma_decimal_digits(channel);
    assert(free_of("ch"@, '/'));
    lemma_split_push_piece(base, "ch"@, '/');
    lemma_split_push_piece(base.push('/') + "ch"@, decimal(channel), '/');
    assert(channel_address(base, channel) =~= (base.push('/') + "ch"@).push('/') + decimal(channel));
}

/// The pieces of a channel address followed by `/` and one more
/// separator-free piece.
proof fn lemma_kind_pieces(base: Seq<char>, channel: nat, kind: Seq<char>)
    requires
        free_of(kind, '/'),
    ensures
        split_on(channel_address(base, channel).push('/') + kind, '/') == split_on(base, '/').push(
            "ch"@,
        ).push(decimal(channel)).push(kind),
{
    lemma_channel_pieces(base, channel);
    lemma_split_push_piece(channel_address(base, channel), kind, '/');
}

/// A status byte is its kind's high nibble and its channel.
proof fn lemma_status_byte(b: u8, high: int)
    requires
        b / 16 == high,
    ensures
        (high * 16 + (b % 16) as nat % 16) as u8 == b,
{
}

/// Decoding a control change, a pitch bend or a note (7-bit data bytes;
/// not a note-on of velocity 0, which reads as a note-off) under a base
/// address of three `/`-separated pieces, such as `/midi/{device}`, and
/// encoding the message that results gives back the same three bytes.
pub proof fn law_midi_round_trip(bytes: Seq<u8>, base: Seq<char>, m: Message)
    requires
        bytes.len() == 3,
        bytes[1] < 128,
        bytes[2] < 128,
        bytes[0] / 16 == 11 || bytes[0] / 16 == 14 || bytes[0] / 16 == 8 || (bytes[0] / 16 == 9
            && bytes[2] > 0),
        split_on(base, '/').len() == 3,
        midi_event_message(m, decode_midi(bytes)->0, base),
    ensures
        bend_in_range(m),
        encode_midi(m) == Some(bytes),
{
    let status = bytes[0] / 16;
    let ch = (bytes[0] % 16) as nat;
    let d1 = bytes[1];
    let d2 = bytes[2];
    let sb = split_on(base, '/');
    reveal_strlit("ch");
    reveal_strlit("cc");
    reveal_strlit("bend");
    reveal_strlit("note");
    reveal_strlit("/cc/");
    reveal_strlit("/bend");
    reveal_strlit("/note");
    lemma_parse_decimal(ch, 255);
    lemma_status_byte(bytes[0], status as int);
    if status == 11 {
        let cc = d1 as nat;
        lemma_decimal_digits(cc);
        lemma_parse_decimal(cc, 255);
        assert(free_of("cc"@, '/'));
        lemma_kind_pieces(base, ch, "cc"@);
        let pre = channel_address(base, ch).push('/') + "cc"@;
        lemma_split_push_piece(pre, decimal(cc), '/');
        assert(channel_address(base, ch) + "/cc/"@ + decimal(cc) =~= pre.push('/') + decimal(cc));
        let parts = split_on(m->SetParam_0.address@, '/');
        assert(parts == sb.push("ch"@).push(decimal(ch)).push("cc"@).push(decimal(cc)));
        assert(parts[3] == "ch"@ && parts[4] == decimal(ch) && parts[5] == "cc"@ && parts[6] == decimal(cc));
        assert(seq![(0xB0 + ch % 16) as u8, cc as u8, clamp(d2 as int, 0, 127) as u8] =~= bytes);
    } else if status == 14 {
        assert(free_of("bend"@, '/'));
        lemma_kind_pieces(base, ch, "bend"@);
        assert(channel_address(base, ch) + "/bend"@ =~= channel_address(base, ch).push('/') + "bend"@);
        let parts = split_on(m->SetParam_0.address@, '/');
        assert(parts == sb.push("ch"@).push(decimal(ch)).push("bend"@));
        assert(parts[3] == "ch"@ && parts[4] == decimal(ch) && parts[5] == "bend"@);
        assert(((d2 as u64) << 7u64) | (d1 as u64) == (d2 as u64) * 128 + (d1 as u64)) by (bit_vector)
            requires
                d1 < 128,
                d2 < 128,
        ;
        let b = d2 * 128 + d1;
        assert(bend_amount(d1, d2) + 8192 == b);
        assert(b % 128 == d1 && b / 128 == d2) by (nonlinear_arith)
            requires
                b == d2 * 128 + d1,
                d1 < 128,
        ;
        assert(seq![(0xE0 + ch % 16) as u8, (b % 128) as u8, (b / 128) as u8] =~= bytes);
    } else {
        let on = status == 9 && d2 > 0;
        assert(free_of("note"@, '/'));
        lemma_kind_pieces(base, ch, "note"@);
        assert(channel_address(base, ch) + "/note"@ =~= channel_address(base, ch).push('/') + "note"@);
        let parts = split_on(m->Publish_0.address@, '/');
        assert(parts == sb.push("ch"@).push(decimal(ch)).push("note"@));
        assert(parts[3] == "ch"@ && parts[4] == decimal(ch) && parts[5] == "note"@);
        reveal_strlit("velocity");
        reveal_strlit("on");
        let entries = note_payload(d1 as nat, d2 as nat, on)->Dict_0;
        reveal_with_fuel(dict_find, 4);
        assert(entries.drop_first().drop_first()[0].0 == "on"@);
        assert(dict_get(entries, "note"@) == Some(ValueModel::Int(d1 as int)));
        assert(dict_get(entries, "velocity"@) == Some(ValueModel::Int(d2 as int)));
        assert(dict_get(entries, "on"@) == Some(ValueModel::Bool(on)));
        let st: int = if on { 0x90 } else { 0x80 };
        assert(seq![(st + ch % 16) as u8, d1, d2] =~= bytes);
    }
}

/// A MIDI voice message becomes the CLASP message its bytes name, under
/// `{base}/ch/{channel}` with the channel from the status byte's low
/// nibble: a program change an event at `/program` whose payload is the
/// first data byte; a control change a SET at `/cc/{first data byte}` of
/// the second data byte; a note an event at `/note` whose payload holds the
/// first data byte as `note`, the second as `velocity`, and whether it is a
/// note-on of non-zero velocity as `on`; a pitch bend (7-bit data bytes) a
/// SET at `/bend` of the 14-bit value they form, centred on zero.
pub proof fn law_midi_voice_fields(m: Seq<u8>, base: Seq<char>, msg: Message)
    requires
        m.len() >= 1,
        midi_event_message(msg, decode_midi(m)->0, base),
    ensures
        ({
            let ch = base + "/ch/"@ + decimal((m[0] % 16) as nat);
            &&& (m.len() >= 2 && m[0] / 16 == 12) ==> {
                &&& msg is Publish
                &&& msg->Publish_0.address@ == ch + "/program"@
                &&& msg->Publish_0.signal == Some(SignalType::Event)
                &&& msg->Publish_0.value is None
                &&& msg->Publish_0.payload matches Some(p) && p.model() == ValueModel::Int(
                    m[1] as int,
                )
            }
            &&& (m.len() >= 3 && m[0] / 16 == 11) ==> {
                &&& msg is SetParam
                &&& msg->SetParam_0.address@ == ch + "/cc/"@ + decimal(m[1] as nat)
                &&& msg->SetParam_0.value.model() == ValueModel::Int(m[2] as int)
            }
            &&& (m.len() >= 3 && (m[0] / 16 == 8 || m[0] / 16 == 9)) ==> {
                &&& msg is Publish
                &&& msg->Publish_0.address@ == ch + "/note"@
                &&& msg->Publish_0.signal == Some(SignalType::Event)
                &&& msg->Publish_0.payload matches Some(p) && p.model() == ValueModel::Dict(
                    seq![
                        ("note"@, ValueModel::Int(m[1] as int)),
                        ("velocity"@, ValueModel::Int(m[2] as int)),
                        ("on"@, ValueModel::Bool(m[0] / 16 == 9 && m[2] > 0)),
                    ],
                )
            }
            &&& (m.len() >= 3 && m[0] / 16 == 14 && m[1] < 128 && m[2] < 128) ==> {
                &&& msg is SetParam
                &&& msg->SetParam_0.address@ == ch + "/bend"@
                &&& msg->SetParam_0.value.model() == ValueModel::Int(
                    m[2] as int * 128 + m[1] as int - 8192,
                )
            }
        }),
{
    let d1 = m[1];
    let d2 = m[2];
    if m.len() >= 3 && m[0] / 16 == 14 && d1 < 128 && d2 < 128 {
        assert(((d2 as u64) << 7u64) | (d1 as u64) == (d2 as u64) * 128 + (d1 as u64)) by (bit_vector)
            requires
                d1 < 128,
                d2 < 128,
        ;
    }
}

/// The address under which a bridge's MIDI input is published:
/// `{namespace}/{device_name}`.
pub open spec fn input_base_address(config: MidiBridgeConfig) -> Seq<char> {
    config.namespace@ + "/"@ + config.device_name@
}

impl MidiBridgeConfig {
    /// The address under which MIDI input is published, as
    /// [`input_base_address`] states.
    pub fn base_address(&self) -> (a: String)
        ensures
            a@ == input_base_address(*self),
    {
        proof {
            reveal_strlit("/");
        }
        let mut a = self.namespace.clone();
        a.append("/");
        a.append(self.device_name.as_str());
        a
    }
}

/// The first port from index `i` on whose name is known and contains
/// `wanted`.
pub open spec fn first_port_named(names: Seq<Option<Seq<char>>>, wanted: Seq<char>, i: int) -> Option<int>
    decreases names.len() - i,
{
    if i < 0 || i >= names.len() {
        None
    } else if names[i] matches Some(n) && find_from(n, wanted, 0) is Some {
        Some(i)
    } else {
        first_port_named(names, wanted, i + 1)
    }
}

/// The port a bridge opens, among the names of the available ports
/// (`None` where a name cannot be read): the first whose name contains
/// the wanted text, or the first port when none is wanted; none when there
/// are no ports.
pub open spec fn selected_port(names: Seq<Option<Seq<char>>>, wanted: Option<Seq<char>>) -> Option<int> {
    if names.len() == 0 {
        None
    } else {
        match wanted {
            Some(w) => first_port_named(names, w, 0),
            None => Some(0),
        }
    }
}

/// The optional texts of optional strings.
pub open spec fn opt_texts(names: Seq<Option<String>>) -> Seq<Option<Seq<char>>> {
    names.map_values(
        |n: Option<String>|
            match n {
                Some(s) => Some(s@),
                None => None,
            },
    )
}

/// Chooses the port to open, as [`selected_port`] states.
pub fn select_port(names: &Vec<Option<String>>, wanted: Option<&str>) -> (r: Option<usize>)
    ensures
        match selected_port(
            opt_texts(names@),
            match wanted {
                Some(w) => Some(w@),
                None => None,
            },
        ) {
            Some(i) => r matches Some(j) && j == i,
            None => r is None,
        },
{
    if names.len() == 0 {
        return None;
    }
    let wanted_text: &str = match wanted {
        None => return Some(0),
        Some(x) => x,
    };
    let w = chars_of(wanted_text);
    assert(wanted == Some(wanted_text));
    let ghost ns = opt_texts(names@);
    let mut i: usize = 0;
    while i < names.len()
        invariant
            i <= names.len(),
            ns == opt_texts(names@),
            w@ == wanted_text@,
            wanted == Some(wanted_text),
            first_port_named(ns, w@, 0) == first_port_named(ns, w@, i as int),
        decreases names.len() - i,
    {
        assert(ns[i as int] == match names@[i as int] {
            Some(n) => Some(n@),
            None => None::<Seq<char>>,
        });
        let found = match &names[i] {
            Some(n) => find_chars(&chars_of(n.as_str()), &w).is_some(),
            None => false,
        };
        if found {
            assert(first_port_named(ns, w@, i as int) == Some(i as int));
            return Some(i);
        }
        assert(first_port_named(ns, w@, i as int) == first_port_named(ns, w@, i + 1));
        i = i + 1;
    }
    None
}

} // verus!
