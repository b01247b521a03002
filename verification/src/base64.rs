//! Standard base64 text (RFC 4648 alphabet, `=` padding) of binary values.
use vstd::prelude::*;
use crate::text::push_char;

verus! {

/// The base64 digit for a six-bit number: `A`-`Z`, `a`-`z`, `0`-`9`, `+`,
/// `/`.
pub open spec fn b64_digit(n: nat) -> char {
    if n < 26 {
        (65 + n) as char
    } else if n < 52 {
        (97 + (n - 26)) as char
    } else if n < 62 {
        (48 + (n - 52)) as char
    } else if n == 62 {
        '+'
    } else {
        '/'
    }
}

/// The 24-bit group of up to three bytes, missing bytes counting as zero.
pub open spec fn group_of(c: Seq<u8>) -> nat {
    let b1: nat = if c.len() > 1 {
        c[1] as nat
    } else {
        0
    };
    let b2: nat = if c.len() > 2 {
        c[2] as nat
    } else {
        0
    };
    (c[0] as nat) * 65536 + b1 * 256 + b2
}

/// The four characters of a group of one to three bytes: the six-bit
/// pieces of the group from the highest, `=` for each piece past the data.
pub open spec fn chunk_text(c: Seq<u8>) -> Seq<char> {
    let n = group_of(c);
    seq![
        b64_digit(n / 262144),
        b64_digit((n / 4096) % 64),
        if c.len() > 1 {
            b64_digit((n / 64) % 64)
        } else {
            '='
        },
        if c.len() > 2 {
            b64_digit(n % 64)
        } else {
            '='
        },
    ]
}

/// The base64 text of the bytes from index `i` on, three bytes at a time.
pub open spec fn base64_from(d: Seq<u8>, i: int) -> Seq<char>
    decreases d.len() - i,
{
    if i < 0 || i >= d.len() {
        Seq::empty()
    } else if i + 3 >= d.len() {
        chunk_text(d.subrange(i, d.len() as int))
    } else {
        chunk_text(d.subrange(i, i + 3)) + base64_from(d, i + 3)
    }
}

/// The base64 text of a byte sequence.
pub open spec fn base64_text(d: Seq<u8>) -> Seq<char> {
    base64_from(d, 0)
}

/// The character of a six-bit number.
pub(crate) fn digit(n: u32) -> (c: char)
    requires
        n < 64,
    ensures
        c == b64_digit(n as nat),
{
    if n < 26 {
        ((65 + n) as u8) as char
    } else if n < 52 {
        ((97 + (n - 26)) as u8) as char
    } else if n < 62 {
        ((48 + (n - 52)) as u8) as char
    } else if n == 62 {
        '+'
    } else {
        '/'
    }
}

/// Appends the four characters of the group of `data[i..]` (one to three
/// bytes), built from the 24-bit number of the group.
fn push_chunk(out: &mut String, data: &[u8], i: usize)
    requires
        i < data.len(),
    ensures
        final(out)@ == old(out)@ + chunk_text(
            data@.subrange(
                i as int,
                if i + 3 <= data.len() {
                    i + 3
                } else {
                    data.len() as int
                },
            ),
        ),
{
    let len = data.len() - i;
    let ghost c = data@.subrange(
        i as int,
        if i + 3 <= data.len() {
            i + 3
        } else {
            data.len() as int
        },
    );
    let c0 = data[i] as u32;
    let c1: u32 = if len > 1 {
        data[i + 1] as u32
    } else {
        0
    };
    let c2: u32 = if len > 2 {
        data[i + 2] as u32
    } else {
        0
    };
    let n: u32 = (c0 << 16) | (c1 << 8) | c2;
    proof {
        assert(c0 < 256 && c1 < 256 && c2 < 256);
        assert((c0 << 16) | (c1 << 8) | c2 == c0 * 65536 + c1 * 256 + c2) by (bit_vector)
            requires
                c0 < 256,
                c1 < 256,
                c2 < 256,
        ;
        assert(n == group_of(c));
        assert((n >> 18) & 0x3F == n / 262144) by (bit_vector)
            requires
                n < 0x1000000,
        ;
        assert((n >> 12) & 0x3F == (n / 4096) % 64) by (bit_vector);
        assert((n >> 6) & 0x3F == (n / 64) % 64) by (bit_vector);
        assert(n & 0x3F == n % 64) by (bit_vector);
    }
    let ghost start = out@;
    push_char(out, digit((n >> 18) & 0x3F));
    push_char(out, digit((n >> 12) & 0x3F));
    if len > 1 {
        push_char(out, digit((n >> 6) & 0x3F));
    } else {
        push_char(out, '=');
    }
    if len > 2 {
        push_char(out, digit(n & 0x3F));
    } else {
        push_char(out, '=');
    }
    assert(out@ =~= start + chunk_text(c));
}

/// The base64 text of `data`, with `=` padding.
pub fn encode(data: &[u8]) -> (s: String)
    ensures
        s@ == base64_text(data@),
{
    let mut out = String::new();
    let mut i: usize = 0;
    while i < data.len()
        invariant
            i <= data.len(),
            out@ + base64_from(data@, i as int) == base64_text(data@),
        decreases data.len() - i,
    {
        let ghost before = out@;
        push_chunk(&mut out, data, i);
        if data.len() - i <= 3 {
            assert(before + base64_from(data@, i as int) =~= out@);
            i = data.len();
        } else {
            assert(before + base64_from(data@, i as int) =~= out@ + base64_from(data@, i + 3));
            i = i + 3;
        }
    }
    out
}

/// Base64 text is four characters for every three bytes or part of three.
pub proof fn law_base64_len(d: Seq<u8>)
    ensures
        base64_text(d).len() == 4 * ((d.len() + 2) / 3),
{
    lemma_base64_from_len(d, 0);
}

proof fn lemma_base64_from_len(d: Seq<u8>, i: int)
    requires
        0 <= i <= d.len(),
    ensures
        base64_from(d, i).len() == 4 * ((d.len() - i + 2) / 3),
    decreases d.len() - i,
{
    if i < d.len() && i + 3 < d.len() {
        lemma_base64_from_len(d, i + 3);
    }
}

} // verus!
