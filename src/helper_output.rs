//! The line-oriented output of the live-instrumentation helper: a marker
//! followed by a hexadecimal key, or a hex dump of the key's bytes; and the
//! process-id column of a process listing.

use vstd::prelude::*;
use vstd::slice::slice_subrange;
use crate::hex::{decode_hex, decode_spec, digit_value, hex_error, hex_ok, hex_value, HexError};
use crate::text::{
    chars_of, is_ascii_digit, is_ascii_digit_char, is_hex_digit, is_hex_digit_char, is_space,
    is_space_char, lemma_trim_idempotent, string_of, trim, trim_start, trim_str,
};

verus! {

/// Marker of the line on which the derivation hook prints the key.
pub const DB_KEY_MARKER: &'static str = "WECHAT_DB_KEY:";

/// Marker of the line on which a raw-key capture prints the key.
pub const RAW_KEY_MARKER: &'static str = "RAW KEY CAPTURED:";

/// Why no key could be read from the helper's output.
#[derive(Debug, Clone, Copy, PartialEq, Eq)]
pub enum KeyParseError {
    /// A marked line carried text that is not hexadecimal.
    Hex(HexError),
    /// Neither a marked line nor 16 dumped bytes.
    NoKey,
}

impl KeyParseError {
    /// A human-readable description.
    pub fn message(&self) -> (r: String)
        ensures
            r@ == (match self {
                KeyParseError::Hex(HexError::OddLength) => "hex 长度非法"@,
                KeyParseError::Hex(HexError::InvalidDigit) => "hex 非法"@,
                KeyParseError::NoKey => "frida 输出未包含有效密钥"@,
            }),
    {
        match self {
            KeyParseError::Hex(HexError::OddLength) => String::from_str("hex 长度非法"),
            KeyParseError::Hex(HexError::InvalidDigit) => String::from_str("hex 非法"),
            KeyParseError::NoKey => String::from_str("frida 输出未包含有效密钥"),
        }
    }
}

/// The length of the first line of `s`, up to its first `'\n'`.
pub open spec fn line_len(s: Seq<char>) -> nat
    decreases s.len(),
{
    if s.len() == 0 || s[0] == '\n' {
        0
    } else {
        1 + line_len(s.drop_first())
    }
}

/// The first position at or after `i` where `n` occurs in `h`.
pub open spec fn find_from(h: Seq<char>, n: Seq<char>, i: int) -> Option<int>
    decreases h.len() + 1 - i,
{
    if i < 0 || i + n.len() > h.len() {
        None
    } else if h.subrange(i, i + n.len()) == n {
        Some(i)
    } else {
        find_from(h, n, i + 1)
    }
}

/// What follows the first occurrence of `marker` in `line`, trimmed, if that is
/// not empty.
pub open spec fn marker_payload(line: Seq<char>, marker: Seq<char>) -> Option<Seq<char>> {
    match find_from(line, marker, 0) {
        Some(p) => {
            let t = trim(line.subrange(p + marker.len(), line.len() as int));
            if t.len() == 0 {
                None
            } else {
                Some(t)
            }
        },
        None => None,
    }
}

/// The payload of the first line of `s` that carries `marker` with a payload.
pub open spec fn marked_payload(s: Seq<char>, marker: Seq<char>) -> Option<Seq<char>>
    decreases s.len(),
{
    if s.len() == 0 {
        None
    } else {
        let e = line_len(s);
        match marker_payload(s.subrange(0, e as int), marker) {
            Some(h) => Some(h),
            None => if e < s.len() {
                marked_payload(s.subrange(e + 1 as int, s.len() as int), marker)
            } else {
                None
            },
        }
    }
}

/// Decoding a trimmed payload.
pub open spec fn decode_result(t: Seq<char>) -> Result<Seq<u8>, HexError> {
    if hex_ok(t) {
        Ok(decode_spec(t))
    } else {
        Err(hex_error(t))
    }
}

/// What reading the key after `marker` gives: nothing, a key, or the decoding
/// error of the first marked payload.
pub open spec fn marked_key(s: Seq<char>, marker: Seq<char>) -> Result<Option<Seq<u8>>, HexError> {
    match marked_payload(s, marker) {
        Some(t) => match decode_result(t) {
            Ok(k) => Ok(Some(k)),
            Err(e) => Err(e),
        },
        None => Ok(None),
    }
}

/// The byte that a finished white-space-separated token gives, if it is two
/// hexadecimal digits.
pub open spec fn token_byte(tok: Seq<char>) -> Seq<u8> {
    if tok.len() == 2 && is_hex_digit(tok[0]) && is_hex_digit(tok[1]) {
        seq![(hex_value(tok[0]) * 16 + hex_value(tok[1])) as u8]
    } else {
        seq![]
    }
}

/// The bytes of the two-digit tokens of `s`, where `cur` is the token read so far.
pub open spec fn dump_bytes(s: Seq<char>, cur: Seq<char>) -> Seq<u8>
    decreases s.len(),
{
    if s.len() == 0 {
        token_byte(cur)
    } else if is_space(s[0]) {
        token_byte(cur) + dump_bytes(s.drop_first(), seq![])
    } else {
        dump_bytes(s.drop_first(), cur.push(s[0]))
    }
}

/// A dumped key: the first 32 bytes, or else the first 16.
pub open spec fn dump_key(b: Seq<u8>) -> Result<Seq<u8>, KeyParseError> {
    if b.len() >= 32 {
        Ok(b.subrange(0, 32))
    } else if b.len() >= 16 {
        Ok(b.subrange(0, 16))
    } else {
        Err(KeyParseError::NoKey)
    }
}

/// The key that the helper's output gives: the derivation marker's payload,
/// else the raw-capture marker's, else the hex dump.
pub open spec fn output_key(s: Seq<char>) -> Result<Seq<u8>, KeyParseError> {
    match marked_key(s, DB_KEY_MARKER@) {
        Err(e) => Err(KeyParseError::Hex(e)),
        Ok(Some(k)) => Ok(k),
        Ok(None) => match marked_key(s, RAW_KEY_MARKER@) {
            Err(e) => Err(KeyParseError::Hex(e)),
            Ok(Some(k)) => Ok(k),
            Ok(None) => dump_key(dump_bytes(s, seq![])),
        },
    }
}

proof fn lemma_line_len(s: Seq<char>, j: int)
    requires
        0 <= j <= s.len(),
        forall|k: int| 0 <= k < j ==> s[k] != '\n',
        j == s.len() || s[j] == '\n',
    ensures
        line_len(s) == j,
    decreases s.len(),
{
    if s.len() > 0 && s[0] != '\n' {
        assert forall|k: int| 0 <= k < j - 1 implies s.drop_first()[k] != '\n' by {
            assert(s.drop_first()[k] == s[k + 1]);
        }
        lemma_line_len(s.drop_first(), j - 1);
    }
}

/// The first position in `h[lo..hi]` where `n` occurs, relative to `lo`.
pub(crate) fn find_in(h: &Vec<char>, lo: usize, hi: usize, n: &Vec<char>) -> (r: Option<usize>)
    requires
        lo <= hi <= h.len(),
    ensures
        match r {
            Some(p) => find_from(h@.subrange(lo as int, hi as int), n@, 0) == Some(p as int) && p
                + n.len() <= hi - lo,
            None => find_from(h@.subrange(lo as int, hi as int), n@, 0) is None,
        },
{
    let ghost line = h@.subrange(lo as int, hi as int);
    if n.len() > hi - lo {
        return None;
    }
    let last = hi - lo - n.len();
    let mut i: usize = 0;
    loop
        invariant
            line == h@.subrange(lo as int, hi as int),
            lo <= hi <= h.len(),
            last == hi - lo - n.len(),
            i <= last,
            find_from(line, n@, 0) == find_from(line, n@, i as int),
        decreases last - i,
    {
        let mut j: usize = 0;
        let mut same = true;
        while j < n.len()
            invariant
                lo <= hi <= h.len(),
                i + n.len() <= hi - lo,
                j <= n.len(),
                same == (forall|k: int| 0 <= k < j ==> h@[lo + i + k] == n@[k]),
            decreases n.len() - j,
        {
            if h[lo + i + j] != n[j] {
                same = false;
            }
            j = j + 1;
        }
        if same {
            assert(line.subrange(i as int, i + n.len()) =~= n@);
            return Some(i);
        } else {
            assert(line.subrange(i as int, i + n.len()) != n@) by {
                let k = choose|k: int| 0 <= k < n.len() && h@[lo + i + k] != n@[k];
                assert(line.subrange(i as int, i + n.len())[k] == h@[lo + i + k]);
            }
        }
        if i == last {
            assert(find_from(line, n@, i + 1) is None);
            return None;
        }
        i = i + 1;
    }
}

/// The key after the first line of `output` that carries `marker` followed by
/// non-blank text; `Ok(None)` where no line does.
pub fn extract_key_from_line(output: &str, marker: &str) -> (r: Result<Option<Vec<u8>>, HexError>)
    ensures
        match r {
            Ok(Some(k)) => marked_key(output@, marker@) == Ok::<Option<Seq<u8>>, HexError>(
                Some(k@),
            ),
            Ok(None) => marked_key(output@, marker@) == Ok::<Option<Seq<u8>>, HexError>(None),
            Err(e) => marked_key(output@, marker@) == Err::<Option<Seq<u8>>, HexError>(e),
        },
{
    let cs = chars_of(output);
    let m = chars_of(marker);
    let mut st: usize = 0;
    assert(cs@.subrange(0, cs.len() as int) =~= cs@);
    loop
        invariant
            cs@ == output@,
            m@ == marker@,
            st <= cs.len(),
            marked_payload(output@, marker@) == marked_payload(
                cs@.subrange(st as int, cs.len() as int),
                marker@,
            ),
        ensures
            marked_payload(output@, marker@) is None,
        decreases cs.len() - st,
    {
        if st == cs.len() {
            assert(cs@.subrange(st as int, cs.len() as int) =~= Seq::<char>::empty());
            break;
        }
        let ghost rest = cs@.subrange(st as int, cs.len() as int);
        let mut e: usize = st;
        while e < cs.len() && cs[e] != '\n'
            invariant
                st <= e <= cs.len(),
                forall|k: int| st <= k < e ==> cs@[k] != '\n',
            decreases cs.len() - e,
        {
            e = e + 1;
        }
        let ghost line = cs@.subrange(st as int, e as int);
        proof {
            assert forall|k: int| 0 <= k < e - st implies rest[k] != '\n' by {
                assert(rest[k] == cs@[st + k]);
            }
            if e < cs.len() {
                assert(rest[e - st] == cs@[e as int]);
            }
            lemma_line_len(rest, e - st);
            assert(rest.subrange(0, e - st) =~= line);
            if e < cs.len() {
                assert(rest.subrange(e - st + 1, rest.len() as int) =~= cs@.subrange(
                    e + 1,
                    cs.len() as int,
                ));
            }
        }
        match find_in(&cs, st, e, &m) {
            Some(p) => {
                let tail = string_of(slice_subrange(cs.as_slice(), st + p + m.len(), e));
                assert(tail@ =~= line.subrange(p + m@.len(), line.len() as int));
                let t = trim_str(tail.as_str());
                if !t.is_empty() {
                    proof {
                        lemma_trim_idempotent(tail@);
                        assert(marker_payload(line, marker@) == Some(trim(tail@)));
                        assert(marked_payload(rest, marker@) == Some(trim(tail@)));
                        assert(trim(t@) == trim(tail@));
                    }
                    return match decode_hex(t) {
                        Ok(k) => Ok(Some(k)),
                        Err(err) => Err(err),
                    };
                }
                assert(marker_payload(line, marker@) == None::<Seq<char>>);
            },
            None => {
                assert(marker_payload(line, marker@) == None::<Seq<char>>);
            },
        }
        if e == cs.len() {
            assert(marked_payload(rest, marker@) == None::<Seq<char>>);
            break;
        }
        st = e + 1;
    }
    Ok(None)
}

/// The bytes of the two-digit hexadecimal tokens of `cs`.
fn dumped_bytes(cs: &Vec<char>) -> (r: Vec<u8>)
    ensures
        r@ == dump_bytes(cs@, seq![]),
{
    let mut out: Vec<u8> = Vec::new();
    let mut tok_start: usize = 0;
    let mut i: usize = 0;
    assert(cs@.subrange(0, cs.len() as int) =~= cs@);
    assert(cs@.subrange(0, 0) =~= Seq::<char>::empty());
    assert(out@ + dump_bytes(cs@, seq![]) =~= dump_bytes(cs@, seq![]));
    while i < cs.len()
        invariant
            tok_start <= i <= cs.len(),
            out@ + dump_bytes(
                cs@.subrange(i as int, cs.len() as int),
                cs@.subrange(tok_start as int, i as int),
            ) == dump_bytes(cs@, seq![]),
        decreases cs.len() - i,
    {
        let ghost rest = cs@.subrange(i as int, cs.len() as int);
        let ghost cur = cs@.subrange(tok_start as int, i as int);
        let ghost old_out = out@;
        assert(rest.drop_first() =~= cs@.subrange(i + 1, cs.len() as int));
        assert(rest[0] == cs@[i as int]);
        if is_space_char(cs[i]) {
            if i - tok_start == 2 && is_hex_digit_char(cs[tok_start]) && is_hex_digit_char(
                cs[tok_start + 1],
            ) {
                let v = digit_value(cs[tok_start]) * 16 + digit_value(cs[tok_start + 1]);
                out.push(v);
            }
            proof {
                assert(cur.len() == i - tok_start);
                if cur.len() == 2 {
                    assert(cur[0] == cs@[tok_start as int] && cur[1] == cs@[tok_start + 1]);
                }
                assert(out@ =~= old_out + token_byte(cur));
                assert(cs@.subrange(i + 1, i + 1) =~= Seq::<char>::empty());
                assert(old_out + (token_byte(cur) + dump_bytes(rest.drop_first(), seq![])) =~= (
                old_out + token_byte(cur)) + dump_bytes(rest.drop_first(), seq![]));
            }
            tok_start = i + 1;
        } else {
            assert(cur.push(cs@[i as int]) =~= cs@.subrange(tok_start as int, i + 1));
        }
        i = i + 1;
    }
    let ghost cur = cs@.subrange(tok_start as int, i as int);
    let ghost old_out = out@;
    if i - tok_start == 2 && is_hex_digit_char(cs[tok_start]) && is_hex_digit_char(
        cs[tok_start + 1],
    ) {
        let v = digit_value(cs[tok_start]) * 16 + digit_value(cs[tok_start + 1]);
        out.push(v);
    }
    proof {
        assert(cur.len() == i - tok_start);
        if cur.len() == 2 {
            assert(cur[0] == cs@[tok_start as int] && cur[1] == cs@[tok_start + 1]);
        }
        assert(cs@.subrange(i as int, cs.len() as int) =~= Seq::<char>::empty());
        assert(out@ =~= old_out + token_byte(cur));
    }
    out
}

/// Reads the key from the helper's output: the payload of the derivation
/// marker, else of the raw-capture marker, else the first 32 (or 16) bytes of
/// a hex dump.
pub fn extract_key_from_frida_output(output: &str) -> (r: Result<Vec<u8>, KeyParseError>)
    ensures
        match r {
            Ok(k) => output_key(output@) == Ok::<Seq<u8>, KeyParseError>(k@),
            Err(e) => output_key(output@) == Err::<Seq<u8>, KeyParseError>(e),
        },
{
    match extract_key_from_line(output, DB_KEY_MARKER) {
        Err(e) => return Err(KeyParseError::Hex(e)),
        Ok(Some(k)) => return Ok(k),
        Ok(None) => {},
    }
    match extract_key_from_line(output, RAW_KEY_MARKER) {
        Err(e) => return Err(KeyParseError::Hex(e)),
        Ok(Some(k)) => return Ok(k),
        Ok(None) => {},
    }
    let cs = chars_of(output);
    let mut bytes = dumped_bytes(&cs);
    if bytes.len() >= 32 {
        bytes.truncate(32);
        Ok(bytes)
    } else if bytes.len() >= 16 {
        bytes.truncate(16);
        Ok(bytes)
    } else {
        Err(KeyParseError::NoKey)
    }
}

} // verus!

verus! {

/// The number of characters of `s` before its first white space.
pub open spec fn token_len(s: Seq<char>) -> nat
    decreases s.len(),
{
    if s.len() == 0 || is_space(s[0]) {
        0
    } else {
        1 + token_len(s.drop_first())
    }
}

/// The first white-space-separated token of `s` (empty where there is none).
pub open spec fn first_token(s: Seq<char>) -> Seq<char> {
    let t = trim_start(s);
    t.subrange(0, token_len(t) as int)
}

pub open spec fn all_digits(d: Seq<char>) -> bool {
    forall|i: int| 0 <= i < d.len() ==> is_ascii_digit(#[trigger] d[i])
}

/// The number that decimal digits spell.
pub open spec fn digits_value(d: Seq<char>) -> int
    decreases d.len(),
{
    if d.len() == 0 {
        0
    } else {
        digits_value(d.drop_last()) * 10 + ((d.last() as u32) - ('0' as u32))
    }
}

/// `str::parse::<u32>`: an optional `+`, then at least one decimal digit, the
/// value fitting in 32 bits.
pub open spec fn parse_u32_spec(t: Seq<char>) -> Option<u32> {
    let d = if t.len() > 0 && t[0] == '+' {
        t.drop_first()
    } else {
        t
    };
    if d.len() > 0 && all_digits(d) && digits_value(d) <= u32::MAX {
        Some(digits_value(d) as u32)
    } else {
        None
    }
}

proof fn lemma_skip_spaces(s: Seq<char>, i: int)
    requires
        0 <= i <= s.len(),
        forall|k: int| 0 <= k < i ==> is_space(s[k]),
        i == s.len() || !is_space(s[i]),
    ensures
        trim_start(s) == s.subrange(i, s.len() as int),
    decreases s.len(),
{
    if s.len() > 0 && is_space(s[0]) {
        assert forall|k: int| 0 <= k < i - 1 implies is_space(s.drop_first()[k]) by {
            assert(s.drop_first()[k] == s[k + 1]);
        }
        if i - 1 < s.len() - 1 {
            assert(s.drop_first()[i - 1] == s[i]);
        }
        lemma_skip_spaces(s.drop_first(), i - 1);
        assert(s.drop_first().subrange(i - 1, s.len() - 1) =~= s.subrange(i, s.len() as int));
    } else {
        assert(s.subrange(0, s.len() as int) =~= s);
    }
}

proof fn lemma_token_len(s: Seq<char>, j: int)
    requires
        0 <= j <= s.len(),
        forall|k: int| 0 <= k < j ==> !is_space(s[k]),
        j == s.len() || is_space(s[j]),
    ensures
        token_len(s) == j,
    decreases s.len(),
{
    if s.len() > 0 && !is_space(s[0]) {
        assert forall|k: int| 0 <= k < j - 1 implies !is_space(s.drop_first()[k]) by {
            assert(s.drop_first()[k] == s[k + 1]);
        }
        if j - 1 < s.len() - 1 {
            assert(s.drop_first()[j - 1] == s[j]);
        }
        lemma_token_len(s.drop_first(), j - 1);
    }
}

/// Parses `cs[lo..hi]` as `str::parse::<u32>` does.
fn parse_u32_range(cs: &Vec<char>, lo: usize, hi: usize) -> (r: Option<u32>)
    requires
        lo <= hi <= cs.len(),
    ensures
        r == parse_u32_spec(cs@.subrange(lo as int, hi as int)),
{
    let ghost t = cs@.subrange(lo as int, hi as int);
    let mut start = lo;
    if lo < hi && cs[lo] == '+' {
        start = lo + 1;
    }
    let ghost d = cs@.subrange(start as int, hi as int);
    assert(d =~= (if t.len() > 0 && t[0] == '+' {
        t.drop_first()
    } else {
        t
    }));
    if start == hi {
        return None;
    }
    let mut v: u64 = 0;
    let mut over = false;
    let mut k: usize = start;
    while k < hi
        invariant
            lo <= start <= k <= hi <= cs.len(),
            d == cs@.subrange(start as int, hi as int),
            t == cs@.subrange(lo as int, hi as int),
            d == (if t.len() > 0 && t[0] == '+' {
                t.drop_first()
            } else {
                t
            }),
            forall|i: int| start <= i < k ==> is_ascii_digit(#[trigger] cs@[i]),
            !over ==> v == digits_value(cs@.subrange(start as int, k as int)),
            !over ==> v <= u32::MAX,
            over ==> digits_value(cs@.subrange(start as int, k as int)) > u32::MAX,
        decreases hi - k,
    {
        let c = cs[k];
        if !is_ascii_digit_char(c) {
            assert(d[k - start] == c);
            assert(!all_digits(d));
            return None;
        }
        let ghost p = cs@.subrange(start as int, k as int);
        let ghost p2 = cs@.subrange(start as int, k + 1);
        assert(p2.drop_last() =~= p);
        assert(p2.last() == c);
        assert(digits_value(p2) == digits_value(p) * 10 + ((c as u32) - ('0' as u32)));
        if !over {
            let nv = v * 10 + ((c as u32) - ('0' as u32)) as u64;
            if nv > 0xffff_ffff {
                over = true;
            } else {
                v = nv;
            }
        }
        k = k + 1;
    }
    assert(cs@.subrange(start as int, k as int) =~= d);
    if over {
        None
    } else {
        Some(v as u32)
    }
}

/// The process id at the start of a process-listing line: its first
/// white-space-separated token, parsed as an unsigned 32-bit number.
pub fn parse_ps_pid(line: &str) -> (r: Option<u32>)
    ensures
        r == parse_u32_spec(first_token(line@)),
{
    let cs = chars_of(line);
    let mut i: usize = 0;
    while i < cs.len() && is_space_char(cs[i])
        invariant
            i <= cs.len(),
            forall|k: int| 0 <= k < i ==> is_space(cs@[k]),
        decreases cs.len() - i,
    {
        i = i + 1;
    }
    let mut j: usize = i;
    while j < cs.len() && !is_space_char(cs[j])
        invariant
            i <= j <= cs.len(),
            forall|k: int| i <= k < j ==> !is_space(cs@[k]),
        decreases cs.len() - j,
    {
        j = j + 1;
    }
    proof {
        lemma_skip_spaces(cs@, i as int);
        let t = cs@.subrange(i as int, cs.len() as int);
        assert forall|k: int| 0 <= k < j - i implies !is_space(t[k]) by {
            assert(t[k] == cs@[i + k]);
        }
        if j < cs.len() {
            assert(t[j - i] == cs@[j as int]);
        }
        lemma_token_len(t, j - i);
        assert(t.subrange(0, j - i) =~= cs@.subrange(i as int, j as int));
    }
    parse_u32_range(&cs, i, j)
}

} // verus!
