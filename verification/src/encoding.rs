//! Base64 as RFC 4648 defines it, with the standard alphabet and padding: the
//! text of bytes, and the bytes of a text.

use vstd::prelude::*;

verus! {

/// The character for six bits.
pub open spec fn base64_char(bits: int) -> char {
    if bits < 26 {
        ('A' as u32 + bits) as char
    } else if bits < 52 {
        ('a' as u32 + (bits - 26)) as char
    } else if bits < 62 {
        ('0' as u32 + (bits - 52)) as char
    } else if bits == 62 {
        '+'
    } else {
        '/'
    }
}

/// The four characters for three bytes, six bits each.
pub open spec fn base64_group(x: u8, y: u8, z: u8) -> Seq<char> {
    seq![
        base64_char(x as int / 4),
        base64_char(x % 4 * 16 + y / 16),
        base64_char(y % 16 * 4 + z / 64),
        base64_char(z as int % 64),
    ]
}

/// The text of bytes: four characters for every three bytes. A byte or two that
/// are left over at the end have zero bits behind them, and padding in the
/// place of the characters that hold nothing else.
pub open spec fn base64_text(bytes: Seq<u8>) -> Seq<char>
    decreases bytes.len(),
{
    if bytes.len() == 0 {
        Seq::empty()
    } else if bytes.len() == 1 {
        base64_group(bytes[0], 0, 0).take(2) + seq!['=', '=']
    } else if bytes.len() == 2 {
        base64_group(bytes[0], bytes[1], 0).take(3) + seq!['=']
    } else {
        base64_group(bytes[0], bytes[1], bytes[2]) + base64_text(bytes.skip(3))
    }
}

/// The six bits that a character stands for, if any.
pub open spec fn base64_bits(c: char) -> Option<int> {
    if 'A' <= c <= 'Z' {
        Some(c as u32 - 'A' as u32)
    } else if 'a' <= c <= 'z' {
        Some(c as u32 - 'a' as u32 + 26)
    } else if '0' <= c <= '9' {
        Some(c as u32 - '0' as u32 + 52)
    } else if c == '+' {
        Some(62)
    } else if c == '/' {
        Some(63)
    } else {
        None
    }
}

/// The three bytes in four times six bits.
pub open spec fn bytes_of_bits(a: int, b: int, c: int, d: int) -> Seq<u8> {
    seq![(a * 4 + b / 16) as u8, (b % 16 * 16 + c / 4) as u8, (c % 4 * 64 + d) as u8]
}

/// The bytes that four characters stand for: three, or fewer where padding
/// stands at the end and the bits left over are zero. Other characters stand
/// for none.
pub open spec fn group_bytes(p: char, q: char, r: char, s: char) -> Option<Seq<u8>> {
    match (base64_bits(p), base64_bits(q), base64_bits(r), base64_bits(s)) {
        (Some(a), Some(b), Some(c), Some(d)) => Some(bytes_of_bits(a, b, c, d)),
        (Some(a), Some(b), Some(c), None) => if s == '=' && c % 4 == 0 {
            Some(bytes_of_bits(a, b, c, 0).take(2))
        } else {
            None
        },
        (Some(a), Some(b), None, None) => if r == '=' && s == '=' && b % 16 == 0 {
            Some(bytes_of_bits(a, b, 0, 0).take(1))
        } else {
            None
        },
        _ => None,
    }
}

/// The bytes that a text stands for, or `None` where it is not base64: groups
/// of four characters, of which only the last may have padding.
pub open spec fn base64_bytes(text: Seq<char>) -> Option<Seq<u8>>
    decreases text.len(),
{
    if text.len() == 0 {
        Some(Seq::empty())
    } else if text.len() < 4 {
        None
    } else {
        match (group_bytes(text[0], text[1], text[2], text[3]), base64_bytes(text.skip(4))) {
            (Some(first), Some(rest)) => if first.len() == 3 || text.len() == 4 {
                Some(first + rest)
            } else {
                None
            },
            _ => None,
        }
    }
}

proof fn lemma_bits_of_char(bits: int)
    requires
        0 <= bits < 64,
    ensures
        base64_bits(base64_char(bits)) == Some(bits),
{
}

proof fn lemma_group(x: u8, y: u8, z: u8)
    ensures
        ({
            let g = base64_group(x, y, z);
            &&& group_bytes(g[0], g[1], g[2], g[3]) == Some(seq![x, y, z])
            &&& z == 0 ==> group_bytes(g[0], g[1], g[2], '=') == Some(seq![x, y])
            &&& y == 0 && z == 0 ==> group_bytes(g[0], g[1], '=', '=') == Some(seq![x])
        }),
{
    lemma_bits_of_char(x as int / 4);
    lemma_bits_of_char(x % 4 * 16 + y / 16);
    lemma_bits_of_char(y % 16 * 4 + z / 64);
    lemma_bits_of_char(z as int % 64);
    let a = x as int / 4;
    let b = x % 4 * 16 + y / 16;
    let c = y % 16 * 4 + z / 64;
    let d = z as int % 64;
    assert(a * 4 + b / 16 == x);
    assert(b % 16 * 16 + c / 4 == y);
    assert(c % 4 * 64 + d == z);
    assert(bytes_of_bits(a, b, c, d) =~= seq![x, y, z]);
    if z == 0 {
        assert(bytes_of_bits(a, b, c, 0).take(2) =~= seq![x, y]);
    }
    if y == 0 && z == 0 {
        assert(bytes_of_bits(a, b, 0, 0).take(1) =~= seq![x]);
    }
}

/// Reading the text of bytes gives the bytes back, whatever they are.
pub proof fn law_base64_round_trip(bytes: Seq<u8>)
    ensures
        base64_bytes(base64_text(bytes)) == Some(bytes),
    decreases bytes.len(),
{
    let text = base64_text(bytes);
    if bytes.len() == 0 {
        assert(bytes =~= Seq::<u8>::empty());
    } else if bytes.len() < 3 {
        let y = if bytes.len() == 2 {
            bytes[1]
        } else {
            0u8
        };
        lemma_group(bytes[0], y, 0);
        assert(text.skip(4) =~= Seq::<char>::empty());
        assert(base64_bytes(text.skip(4)) == Some(Seq::<u8>::empty()));
        if bytes.len() == 1 {
            assert(seq![bytes[0]] + Seq::<u8>::empty() =~= bytes);
        } else {
            assert(seq![bytes[0], bytes[1]] + Seq::<u8>::empty() =~= bytes);
        }
    } else {
        let rest = bytes.skip(3);
        lemma_group(bytes[0], bytes[1], bytes[2]);
        law_base64_round_trip(rest);
        assert(text.skip(4) =~= base64_text(rest));
        assert(seq![bytes[0], bytes[1], bytes[2]] + rest =~= bytes);
    }
}

/// The text of bytes has four characters for every three bytes begun.
pub proof fn law_base64_length(bytes: Seq<u8>)
    ensures
        base64_text(bytes).len() == (bytes.len() + 2) / 3 * 4,
    decreases bytes.len(),
{
    if bytes.len() >= 3 {
        law_base64_length(bytes.skip(3));
    }
}

} // verus!
