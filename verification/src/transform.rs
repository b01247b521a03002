//! Value transforms on integers and text: bitwise operations, lookup
//! tables, and the kinds of transforms and aggregators.
use vstd::prelude::*;
use crate::text::{chars_of, i64_to_string, parse_unsigned, parse_unsigned_chars, signed_decimal};
use crate::value::{dict_get, lemma_dict_find_bounds, ClaspValue, ValueModel};

verus! {

/// When a threshold transform outputs 1.
#[derive(Clone, Copy, PartialEq, Eq, Structural, Debug)]
pub enum ThresholdMode {
    /// Above the threshold.
    Above,
    /// Below the threshold.
    Below,
    /// Within 0.001 of the threshold.
    Equal,
}

/// Value types a value can be converted to.
#[derive(Clone, Copy, PartialEq, Eq, Structural, Debug)]
pub enum ValueType {
    Int,
    Float,
    Bool,
    String,
}

/// Bitwise operations on integer values.
#[derive(Clone, Copy, PartialEq, Eq, Structural, Debug)]
pub enum BitwiseOp {
    And,
    Or,
    Xor,
    Not,
    ShiftLeft,
    ShiftRight,
    GetBit,
    SetBit,
    ClearBit,
}

/// Ways of combining a stream of values.
#[derive(Clone, Copy, PartialEq, Eq, Structural, Debug)]
pub enum Aggregator {
    Average,
    Sum,
    Min,
    Max,
    Latest,
    First,
    Count,
    /// Average over the last `window_size` values.
    MovingAverage { window_size: usize },
    /// Change per second.
    RateOfChange,
    StdDev,
}

impl Aggregator {
    /// How many recent values the aggregator keeps: the window of a moving
    /// average, else 100.
    pub fn window_size(&self) -> (n: usize)
        ensures
            n == match *self {
                Aggregator::MovingAverage { window_size } => window_size,
                _ => 100,
            },
    {
        match self {
            Aggregator::MovingAverage { window_size } => *window_size,
            _ => 100,
        }
    }
}

/// The operand of a bitwise operation, or its default.
pub open spec fn operand_or(operand: Option<i64>, default: i64) -> i64 {
    match operand {
        Some(o) => o,
        None => default,
    }
}

/// The shift amount of a bitwise operation: the operand, or its default,
/// cut to 32 bits.
pub open spec fn shift_amount(operand: Option<i64>, default: i64) -> u32 {
    operand_or(operand, default) as u32
}

/// Whether a bitwise operation shifts by less than 64 bits (shifts by
/// more overflow).
pub open spec fn shift_in_range(op: BitwiseOp, operand: Option<i64>) -> bool {
    match op {
        BitwiseOp::ShiftLeft | BitwiseOp::ShiftRight => shift_amount(operand, 1) < 64,
        BitwiseOp::GetBit | BitwiseOp::SetBit | BitwiseOp::ClearBit => shift_amount(operand, 0)
            < 64,
        _ => true,
    }
}

/// The result of a bitwise operation on `v`: the operand defaults to 0,
/// and to 1 for the shifts.
pub open spec fn bitwise_result(op: BitwiseOp, operand: Option<i64>, v: i64) -> i64 {
    match op {
        BitwiseOp::And => v & operand_or(operand, 0),
        BitwiseOp::Or => v | operand_or(operand, 0),
        BitwiseOp::Xor => v ^ operand_or(operand, 0),
        BitwiseOp::Not => !v,
        BitwiseOp::ShiftLeft => v << shift_amount(operand, 1),
        BitwiseOp::ShiftRight => v >> shift_amount(operand, 1),
        BitwiseOp::GetBit => (v >> shift_amount(operand, 0)) & 1,
        BitwiseOp::SetBit => v | (1i64 << shift_amount(operand, 0)),
        BitwiseOp::ClearBit => v & !(1i64 << shift_amount(operand, 0)),
    }
}

/// A bitwise transform: an integer value becomes the result of the
/// operation; any other value passes through.
pub fn apply_bitwise(op: BitwiseOp, operand: Option<i64>, value: &ClaspValue) -> (r: ClaspValue)
    requires
        value is Int ==> shift_in_range(op, operand),
    ensures
        match *value {
            ClaspValue::Int(v) => r == ClaspValue::Int(bitwise_result(op, operand, v)),
            _ => r.model() == value.model(),
        },
{
    match value {
        ClaspValue::Int(v) => {
            let v = *v;
            let result = match op {
                BitwiseOp::And => v & operand.unwrap_or(0),
                BitwiseOp::Or => v | operand.unwrap_or(0),
                BitwiseOp::Xor => v ^ operand.unwrap_or(0),
                BitwiseOp::Not => !v,
                BitwiseOp::ShiftLeft => v << (operand.unwrap_or(1) as u32),
                BitwiseOp::ShiftRight => v >> (operand.unwrap_or(1) as u32),
                BitwiseOp::GetBit => (v >> (operand.unwrap_or(0) as u32)) & 1,
                BitwiseOp::SetBit => v | (1i64 << (operand.unwrap_or(0) as u32)),
                BitwiseOp::ClearBit => v & !(1i64 << (operand.unwrap_or(0) as u32)),
            };
            ClaspValue::Int(result)
        },
        _ => value.duplicate(),
    }
}

/// The key under which a lookup table is searched for a value: the
/// decimal text of an integer, a string itself, `true` or `false`. Floats
/// (whose text is not computed here), null, bytes, arrays and maps have
/// no key.
pub open spec fn lookup_key_of(v: ValueModel) -> Option<Seq<char>> {
    match v {
        ValueModel::Int(i) => Some(signed_decimal(i)),
        ValueModel::Str(s) => Some(s),
        ValueModel::Bool(b) => Some(
            if b {
                "true"@
            } else {
                "false"@
            },
        ),
        _ => None,
    }
}

/// The lookup key of an integer, string or boolean value.
pub fn lookup_key(value: &ClaspValue) -> (r: Option<String>)
    ensures
        match r {
            Some(k) => lookup_key_of(value.model()) == Some(k@),
            None => lookup_key_of(value.model()) is None,
        },
{
    proof {
        reveal_strlit("true");
        reveal_strlit("false");
    }
    match value {
        ClaspValue::Int(i) => Some(i64_to_string(*i)),
        ClaspValue::String(s) => Some(s.clone()),
        ClaspValue::Bool(b) => Some(
            if *b {
                String::from_str("true")
            } else {
                String::from_str("false")
            },
        ),
        _ => None,
    }
}

/// What a lookup table gives for a key: the entry of the key, else the
/// default, else the value itself; without a key, the default or the value.
pub open spec fn lookup_result(
    table: Seq<(Seq<char>, ValueModel)>,
    default: Option<ValueModel>,
    key: Option<Seq<char>>,
    v: ValueModel,
) -> ValueModel {
    let fallback = match default {
        Some(d) => d,
        None => v,
    };
    match key {
        Some(k) => match dict_get(table, k) {
            Some(e) => e,
            None => fallback,
        },
        None => fallback,
    }
}

/// A lookup transform with the value's key (see [`lookup_key`]; a float's
/// key is its text).
pub fn lookup(table: &Vec<(String, ClaspValue)>, default: &Option<ClaspValue>, key: Option<&str>, value: &ClaspValue) -> (r: ClaspValue)
    ensures
        r.model() == lookup_result(
            ClaspValue::Dict(*table).model()->Dict_0,
            match *default {
                Some(d) => Some(d.model()),
                None => None,
            },
            match key {
                Some(k) => Some(k@),
                None => None,
            },
            value.model(),
        ),
{
    if let Some(k) = key {
        if let Some(i) = crate::value::dict_lookup(table, k) {
            proof {
                lemma_dict_find_bounds(ClaspValue::Dict(*table).model()->Dict_0, k@);
            }
            return table[i].1.duplicate();
        }
    }
    match default {
        Some(d) => d.duplicate(),
        None => value.duplicate(),
    }
}

/// Reading a bit just set gives 1, reading a bit just cleared gives 0,
/// inverting twice and xoring twice with the same operand give the value
/// back.
pub proof fn law_bit_operations(v: i64, n: i64, o: i64)
    requires
        0 <= n < 64,
    ensures
        bitwise_result(BitwiseOp::GetBit, Some(n), bitwise_result(BitwiseOp::SetBit, Some(n), v))
            == 1,
        bitwise_result(BitwiseOp::GetBit, Some(n), bitwise_result(BitwiseOp::ClearBit, Some(n), v))
            == 0,
        bitwise_result(BitwiseOp::Not, None, bitwise_result(BitwiseOp::Not, None, v)) == v,
        bitwise_result(BitwiseOp::Xor, Some(o), bitwise_result(BitwiseOp::Xor, Some(o), v)) == v,
{
    let s = n as u32;
    assert(s < 64);
    assert(((v | (1i64 << s)) >> s) & 1 == 1) by (bit_vector)
        requires
            s < 64,
    ;
    assert(((v & !(1i64 << s)) >> s) & 1 == 0) by (bit_vector)
        requires
            s < 64,
    ;
    assert(!(!v) == v) by (bit_vector);
    assert((v ^ o) ^ o == v) by (bit_vector);
}

/// Bit `k` of `x` (0 the lowest, 63 the sign) is set.
pub open spec fn bit_set(x: i64, k: u32) -> bool {
    (x >> k) & 1i64 == 1i64
}

/// Bit by bit, AND keeps the bits set in both the value and the operand,
/// OR the bits set in either, XOR the bits set in exactly one, and NOT
/// the bits not set in the value; without an operand AND gives 0 and OR and
/// XOR give the value back.
pub proof fn law_bitwise_by_bits(v: i64, o: i64, k: u32)
    requires
        k < 64,
    ensures
        bit_set(bitwise_result(BitwiseOp::And, Some(o), v), k) == (bit_set(v, k) && bit_set(o, k)),
        bit_set(bitwise_result(BitwiseOp::Or, Some(o), v), k) == (bit_set(v, k) || bit_set(o, k)),
        bit_set(bitwise_result(BitwiseOp::Xor, Some(o), v), k) == (bit_set(v, k) != bit_set(o, k)),
        bit_set(bitwise_result(BitwiseOp::Not, Some(o), v), k) == !bit_set(v, k),
        bitwise_result(BitwiseOp::And, None, v) == 0,
        bitwise_result(BitwiseOp::Or, None, v) == v,
        bitwise_result(BitwiseOp::Xor, None, v) == v,
{
    assert(bit_set(v & o, k) == (bit_set(v, k) && bit_set(o, k))) by (bit_vector)
        requires
            k < 64,
    ;
    assert(bit_set(v | o, k) == (bit_set(v, k) || bit_set(o, k))) by (bit_vector)
        requires
            k < 64,
    ;
    assert(bit_set(v ^ o, k) == (bit_set(v, k) != bit_set(o, k))) by (bit_vector)
        requires
            k < 64,
    ;
    assert(bit_set(!v, k) == !bit_set(v, k)) by (bit_vector)
        requires
            k < 64,
    ;
    assert(v & 0i64 == 0i64 && v | 0i64 == v && v ^ 0i64 == v) by (bit_vector);
}

/// For a bit position `n` below 64: setting bit `n` sets that bit and keeps
/// the others, clearing it clears that bit and keeps the others, reading
/// it gives 1 exactly when it is set; shifting left by `n` moves bit
/// `k - n` to bit `k` and fills with zeros, shifting right moves bit
/// `k + n` to bit `k` and fills with the sign bit.
pub proof fn law_bit_positions(v: i64, n: i64, k: u32)
    requires
        0 <= n < 64,
        k < 64,
    ensures
        bit_set(bitwise_result(BitwiseOp::SetBit, Some(n), v), k) == (k == n || bit_set(v, k)),
        bit_set(bitwise_result(BitwiseOp::ClearBit, Some(n), v), k) == (k != n && bit_set(v, k)),
        bitwise_result(BitwiseOp::GetBit, Some(n), v) == if bit_set(v, n as u32) {
            1i64
        } else {
            0i64
        },
        bit_set(bitwise_result(BitwiseOp::ShiftLeft, Some(n), v), k) == (k >= n && bit_set(
            v,
            (k - n) as u32,
        )),
        bit_set(bitwise_result(BitwiseOp::ShiftRight, Some(n), v), k) == if k + n < 64 {
            bit_set(v, (k + n) as u32)
        } else {
            bit_set(v, 63)
        },
{
    let s: u32 = n as u32;
    assert(s == n);
    assert(bit_set(v | (1i64 << s), k) == (k == s || bit_set(v, k))) by (bit_vector)
        requires
            s < 64,
            k < 64,
    ;
    assert(bit_set(v & !(1i64 << s), k) == (k != s && bit_set(v, k))) by (bit_vector)
        requires
            s < 64,
            k < 64,
    ;
    assert((v >> s) & 1i64 == if bit_set(v, s) {
        1i64
    } else {
        0i64
    }) by (bit_vector)
        requires
            s < 64,
    ;
    if k >= s {
        let d: u32 = (k - s) as u32;
        assert(bit_set(v << s, k) == bit_set(v, d)) by (bit_vector)
            requires
                s < 64,
                k < 64,
                d == k - s,
        ;
    } else {
        assert(!bit_set(v << s, k)) by (bit_vector)
            requires
                s < 64,
                k < s,
        ;
    }
    if k + s < 64 {
        let e: u32 = (k + s) as u32;
        assert(bit_set(v >> s, k) == bit_set(v, e)) by (bit_vector)
            requires
                s < 64,
                k < 64,
                e == k + s,
        ;
    } else {
        assert(bit_set(v >> s, k) == bit_set(v, 63)) by (bit_vector)
            requires
                s < 64,
                k < 64,
                k + s >= 64,
        ;
    }
}

/// The integer a text reads as, as `str::parse::<i64>` reads it: an
/// optional `+` or `-` and at least one decimal digit, within the range of
/// `i64`.
pub open spec fn i64_of_text(s: Seq<char>) -> Option<int> {
    if s.len() > 0 && s[0] == '-' {
        let rest = s.skip(1);
        if rest.len() > 0 && rest[0] == '+' {
            None
        } else {
            match parse_unsigned(rest, 0x8000_0000_0000_0000) {
                Some(n) => Some(-n),
                None => None,
            }
        }
    } else {
        match parse_unsigned(s, 0x7fff_ffff_ffff_ffff) {
            Some(n) => Some(n as int),
            None => None,
        }
    }
}

/// Reads an integer from text, as [`i64_of_text`] states.
pub fn parse_i64(text: &str) -> (r: Option<i64>)
    ensures
        match i64_of_text(text@) {
            Some(n) => r matches Some(v) && v == n,
            None => r is None,
        },
{
    let s = chars_of(text);
    if s.len() > 0 && s[0] == '-' {
        let mut rest: Vec<char> = Vec::new();
        let mut i: usize = 1;
        while i < s.len()
            invariant
                1 <= i <= s.len(),
                rest@ == s@.subrange(1, i as int),
            decreases s.len() - i,
        {
            rest.push(s[i]);
            i = i + 1;
        }
        assert(rest@ == s@.skip(1));
        if rest.len() > 0 && rest[0] == '+' {
            return None;
        }
        match parse_unsigned_chars(&rest, 0x8000_0000_0000_0000) {
            Some(n) => {
                if n == 0x8000_0000_0000_0000 {
                    Some(i64::MIN)
                } else {
                    Some(-(n as i64))
                }
            },
            None => None,
        }
    } else {
        match parse_unsigned_chars(&s, 0x7fff_ffff_ffff_ffff) {
            Some(n) => Some(n as i64),
            None => None,
        }
    }
}

} // verus!
