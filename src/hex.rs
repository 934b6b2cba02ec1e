//! Hexadecimal text for cipher keys: the form in which a key is persisted in
//! the secret store and printed by the instrumentation helper.

use vstd::prelude::*;
use crate::text::{chars_of, is_hex_digit, is_hex_digit_char, push_char, trim, trim_str};

verus! {

/// Why a text is not a hexadecimal byte string.
#[derive(Debug, Clone, Copy, PartialEq, Eq)]
pub enum HexError {
    /// An odd number of digits.
    OddLength,
    /// A character that is not a hexadecimal digit.
    InvalidDigit,
}

pub open spec fn all_hex(s: Seq<char>) -> bool {
    forall|i: int| 0 <= i < s.len() ==> is_hex_digit(#[trigger] s[i])
}

/// The value of one hexadecimal digit, either case.
pub open spec fn hex_value(c: char) -> int {
    if '0' <= c <= '9' {
        (c as u32) - ('0' as u32)
    } else if 'a' <= c <= 'f' {
        (c as u32) - ('a' as u32) + 10
    } else {
        (c as u32) - ('A' as u32) + 10
    }
}

/// The lower-case digit for a value below 16.
pub open spec fn digit_char(n: int) -> char {
    if n < 10 {
        ((n + 48) as u8) as char
    } else {
        ((n + 87) as u8) as char
    }
}

/// The bytes that pairs of digits spell, most significant digit first.
pub open spec fn decode_spec(s: Seq<char>) -> Seq<u8>
    decreases s.len(),
{
    if s.len() < 2 {
        seq![]
    } else {
        decode_spec(s.subrange(0, s.len() - 2)).push(
            (hex_value(s[s.len() - 2]) * 16 + hex_value(s[s.len() - 1])) as u8,
        )
    }
}

/// Two lower-case digits per byte.
pub open spec fn encode_spec(b: Seq<u8>) -> Seq<char>
    decreases b.len(),
{
    if b.len() == 0 {
        seq![]
    } else {
        encode_spec(b.drop_last()) + seq![
            digit_char(b.last() as int / 16),
            digit_char(b.last() as int % 16),
        ]
    }
}

/// Whether `t` (already trimmed) decodes.
pub open spec fn hex_ok(t: Seq<char>) -> bool {
    t.len() % 2 == 0 && all_hex(t)
}

/// The error that a trimmed text that does not decode gives.
pub open spec fn hex_error(t: Seq<char>) -> HexError {
    if t.len() % 2 == 1 {
        HexError::OddLength
    } else {
        HexError::InvalidDigit
    }
}

pub(crate) fn digit_value(c: char) -> (r: u8)
    requires
        is_hex_digit(c),
    ensures
        r as int == hex_value(c),
        r < 16,
{
    if '0' <= c && c <= '9' {
        ((c as u32) - ('0' as u32)) as u8
    } else if 'a' <= c && c <= 'f' {
        ((c as u32) - ('a' as u32) + 10) as u8
    } else {
        ((c as u32) - ('A' as u32) + 10) as u8
    }
}

fn digit_of(n: u8) -> (c: char)
    requires
        n < 16,
    ensures
        c == digit_char(n as int),
{
    if n < 10 {
        (n + 48) as char
    } else {
        (n + 87) as char
    }
}

/// Decodes the trimmed `input` as pairs of hexadecimal digits.
pub fn decode_hex(input: &str) -> (r: Result<Vec<u8>, HexError>)
    ensures
        match r {
            Ok(v) => hex_ok(trim(input@)) && v@ == decode_spec(trim(input@)),
            Err(e) => !hex_ok(trim(input@)) && e == hex_error(trim(input@)),
        },
{
    let t = trim_str(input);
    let cs = chars_of(t);
    if cs.len() % 2 != 0 {
        return Err(HexError::OddLength);
    }
    let mut out: Vec<u8> = Vec::new();
    let mut i: usize = 0;
    while i < cs.len()
        invariant
            cs@ == trim(input@),
            cs.len() % 2 == 0,
            i % 2 == 0,
            i <= cs.len(),
            forall|j: int| 0 <= j < i ==> is_hex_digit(#[trigger] cs@[j]),
            out@ == decode_spec(cs@.subrange(0, i as int)),
        decreases cs.len() - i,
    {
        let hi = cs[i];
        let lo = cs[i + 1];
        if !is_hex_digit_char(hi) || !is_hex_digit_char(lo) {
            return Err(HexError::InvalidDigit);
        }
        let v = digit_value(hi) * 16 + digit_value(lo);
        out.push(v);
        proof {
            let s2 = cs@.subrange(0, i + 2);
            assert(s2.subrange(0, s2.len() - 2) =~= cs@.subrange(0, i as int));
        }
        i = i + 2;
    }
    assert(cs@.subrange(0, i as int) =~= cs@);
    Ok(out)
}

/// Two lower-case hexadecimal digits per byte.
pub fn encode_hex(bytes: &[u8]) -> (r: String)
    ensures
        r@ == encode_spec(bytes@),
{
    let mut out = String::new();
    let mut i: usize = 0;
    while i < bytes.len()
        invariant
            i <= bytes.len(),
            out@ == encode_spec(bytes@.subrange(0, i as int)),
        decreases bytes.len() - i,
    {
        let b = bytes[i];
        push_char(&mut out, digit_of(b / 16));
        push_char(&mut out, digit_of(b % 16));
        proof {
            let s2 = bytes@.subrange(0, i + 1);
            assert(s2.drop_last() =~= bytes@.subrange(0, i as int));
        }
        i = i + 1;
    }
    assert(bytes@.subrange(0, i as int) =~= bytes@);
    out
}

/// A non-empty text of an even number of hexadecimal digits and nothing else.
pub fn is_hex_string(input: &str) -> (r: bool)
    ensures
        r == (input@.len() > 0 && input@.len() % 2 == 0 && all_hex(input@)),
{
    let cs = chars_of(input);
    if cs.len() == 0 || cs.len() % 2 != 0 {
        return false;
    }
    let mut i: usize = 0;
    while i < cs.len()
        invariant
            cs@ == input@,
            i <= cs.len(),
            forall|j: int| 0 <= j < i ==> is_hex_digit(#[trigger] cs@[j]),
        decreases cs.len() - i,
    {
        if !is_hex_digit_char(cs[i]) {
            return false;
        }
        i = i + 1;
    }
    true
}

} // verus!

verus! {

proof fn lemma_digit_char(n: int)
    requires
        0 <= n < 16,
    ensures
        is_hex_digit(digit_char(n)),
        hex_value(digit_char(n)) == n,
        !crate::text::is_space(digit_char(n)),
{
    let c = digit_char(n);
    if n < 10 {
        assert(c as u32 == n + 48);
    } else {
        assert(c as u32 == n + 87);
    }
}

proof fn lemma_encode_shape(b: Seq<u8>)
    ensures
        encode_spec(b).len() == 2 * b.len(),
        all_hex(encode_spec(b)),
        forall|i: int| 0 <= i < encode_spec(b).len() ==> !crate::text::is_space(#[trigger] encode_spec(b)[i]),
        decode_spec(encode_spec(b)) == b,
    decreases b.len(),
{
    if b.len() > 0 {
        let p = b.drop_last();
        lemma_encode_shape(p);
        let x = b.last() as int;
        lemma_digit_char(x / 16);
        lemma_digit_char(x % 16);
        let e = encode_spec(b);
        let ep = encode_spec(p);
        assert(e == ep + seq![digit_char(x / 16), digit_char(x % 16)]);
        assert(e.subrange(0, e.len() - 2) =~= ep);
        assert(e[e.len() - 2] == digit_char(x / 16));
        assert(e[e.len() - 1] == digit_char(x % 16));
        assert((x / 16) * 16 + x % 16 == x);
        assert(decode_spec(e) =~= p.push(b.last()));
        assert(p.push(b.last()) =~= b);
        assert forall|i: int| 0 <= i < e.len() implies is_hex_digit(#[trigger] e[i])
            && !crate::text::is_space(e[i]) by {
            if i < ep.len() {
                assert(e[i] == ep[i]);
            }
        }
    } else {
        assert(encode_spec(b) =~= Seq::<char>::empty());
    }
}

/// A key written as hexadecimal reads back as the same key: what
/// `encode_hex` writes, `decode_hex` accepts and decodes to the bytes written.
pub proof fn lemma_hex_round_trip(key: Seq<u8>)
    ensures
        hex_ok(trim(encode_spec(key))),
        decode_spec(trim(encode_spec(key))) == key,
{
    lemma_encode_shape(key);
    let e = encode_spec(key);
    if e.len() > 0 {
        assert(!crate::text::is_space(e[0]));
        assert(!crate::text::is_space(e.last()));
    }
    assert(crate::text::trim_start(e) == e);
    assert(crate::text::trim_end(e) == e);
}

} // verus!
