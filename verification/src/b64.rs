//! Standard base64 decoding (RFC 4648 alphabet, `=` padding), used to read
//! the obfuscated Mixcloud stream URLs.
use vstd::prelude::*;
use crate::text::chars_of;

verus! {

// ---------------------------------------------------------------------------
// Specification
// ---------------------------------------------------------------------------

/// Value of a base64 digit.
pub open spec fn sextet(c: char) -> Option<int> {
    if 'A' <= c && c <= 'Z' {
        Some(c as int - 65)
    } else if 'a' <= c && c <= 'z' {
        Some(c as int - 97 + 26)
    } else if '0' <= c && c <= '9' {
        Some(c as int - 48 + 52)
    } else if c == '+' {
        Some(62)
    } else if c == '/' {
        Some(63)
    } else {
        None
    }
}

/// The digit of value `v` (`0 <= v < 64`).
pub open spec fn digit_char(v: int) -> char {
    if v < 26 {
        (v + 65) as char
    } else if v < 52 {
        (v - 26 + 97) as char
    } else if v < 62 {
        (v - 52 + 48) as char
    } else if v == 62 {
        '+'
    } else {
        '/'
    }
}

pub open spec fn val(c: char) -> int {
    match sextet(c) {
        Some(v) => v,
        None => 0,
    }
}

pub open spec fn all_digits(s: Seq<char>) -> bool {
    forall|i: int| 0 <= i < s.len() ==> #[trigger] sextet(s[i]) is Some
}

pub open spec fn byte0(a: char, b: char) -> u8 {
    (val(a) * 4 + val(b) / 16) as u8
}

pub open spec fn byte1(b: char, c: char) -> u8 {
    ((val(b) % 16) * 16 + val(c) / 4) as u8
}

pub open spec fn byte2(c: char, d: char) -> u8 {
    ((val(c) % 4) * 64 + val(d)) as u8
}

/// Bytes of unpadded digits: three per group of four, then one for a final
/// pair and two for a final triple.
pub open spec fn decode_digits(s: Seq<char>) -> Seq<u8>
    decreases s.len(),
{
    if s.len() >= 4 {
        seq![byte0(s[0], s[1]), byte1(s[1], s[2]), byte2(s[2], s[3])] + decode_digits(s.skip(4))
    } else if s.len() == 3 {
        seq![byte0(s[0], s[1]), byte1(s[1], s[2])]
    } else if s.len() == 2 {
        seq![byte0(s[0], s[1])]
    } else {
        Seq::empty()
    }
}

/// Number of trailing `=` (at most two).
pub open spec fn padding(s: Seq<char>) -> int {
    if s.len() >= 2 && s[s.len() - 1] == '=' && s[s.len() - 2] == '=' {
        2
    } else if s.len() >= 1 && s[s.len() - 1] == '=' {
        1
    } else {
        0
    }
}

/// Decoding of a base64 text: the digits before the padding must all be
/// valid, cannot leave a lone digit in the last group, and a padded text
/// is made of whole groups of four.
pub open spec fn decode(s: Seq<char>) -> Option<Seq<u8>> {
    let p = padding(s);
    let body = s.take(s.len() - p);
    if all_digits(body) && body.len() % 4 != 1 && (p == 0 || s.len() % 4 == 0) {
        Some(decode_digits(body))
    } else {
        None
    }
}

/// Digits encoding bytes (standard base64, without the padding).
pub open spec fn encode_digits(b: Seq<u8>) -> Seq<char>
    decreases b.len(),
{
    if b.len() >= 3 {
        seq![
            digit_char((b[0] / 4) as int),
            digit_char((b[0] % 4) * 16 + b[1] / 16),
            digit_char((b[1] % 16) * 4 + b[2] / 64),
            digit_char((b[2] % 64) as int),
        ] + encode_digits(b.skip(3))
    } else if b.len() == 2 {
        seq![
            digit_char((b[0] / 4) as int),
            digit_char((b[0] % 4) * 16 + b[1] / 16),
            digit_char((b[1] % 16) * 4),
        ]
    } else if b.len() == 1 {
        seq![digit_char((b[0] / 4) as int), digit_char((b[0] % 4) * 16)]
    } else {
        Seq::empty()
    }
}

/// Standard padded base64 encoding of bytes.
pub open spec fn encode(b: Seq<u8>) -> Seq<char> {
    encode_digits(b) + if b.len() % 3 == 1 {
        seq!['=', '=']
    } else if b.len() % 3 == 2 {
        seq!['=']
    } else {
        Seq::empty()
    }
}

// ---------------------------------------------------------------------------
// Implementation
// ---------------------------------------------------------------------------

fn sextet_exec(c: char) -> (r: Option<u8>)
    ensures
        match sextet(c) {
            Some(v) => r == Some(v as u8),
            None => r is None,
        },
{
    if 'A' <= c && c <= 'Z' {
        Some(((c as u32) - 65) as u8)
    } else if 'a' <= c && c <= 'z' {
        Some(((c as u32) - 97 + 26) as u8)
    } else if '0' <= c && c <= '9' {
        Some(((c as u32) - 48 + 52) as u8)
    } else if c == '+' {
        Some(62)
    } else if c == '/' {
        Some(63)
    } else {
        None
    }
}

fn padding_exec(s: &[char]) -> (p: usize)
    ensures
        p == padding(s@),
{
    let n = s.len();
    if n >= 2 && s[n - 1] == '=' && s[n - 2] == '=' {
        2
    } else if n >= 1 && s[n - 1] == '=' {
        1
    } else {
        0
    }
}

/// Values of the first `m` digits, or `None` if one of them is not a digit.
fn digit_values(s: &[char], m: usize) -> (r: Option<Vec<u8>>)
    requires
        m <= s@.len(),
    ensures
        r is Some <==> all_digits(s@.take(m as int)),
        r matches Some(v) ==> v@.len() == m && forall|k: int|
            0 <= k < m ==> v@[k] == val(#[trigger] s@[k]) && v@[k] < 64,
{
    let mut vals: Vec<u8> = Vec::new();
    let mut i: usize = 0;
    while i < m
        invariant
            m <= s@.len(),
            i <= m,
            vals@.len() == i,
            forall|k: int| 0 <= k < i ==> sextet(#[trigger] s@[k]) is Some,
            forall|k: int| 0 <= k < i ==> vals@[k] == val(#[trigger] s@[k]) && vals@[k] < 64,
        decreases m - i,
    {
        match sextet_exec(s[i]) {
            Some(v) => vals.push(v),
            None => {
                assert(sextet(s@.take(m as int)[i as int]) is None);
                return None;
            },
        }
        i = i + 1;
    }
    assert forall|k: int| 0 <= k < m implies #[trigger] sextet(s@.take(m as int)[k]) is Some by {
        assert(s@.take(m as int)[k] == s@[k]);
    }
    Some(vals)
}

/// Bytes of the digits whose values are `vals`.
fn decode_values(vals: &Vec<u8>, Ghost(body): Ghost<Seq<char>>) -> (out: Vec<u8>)
    requires
        vals@.len() == body.len(),
        body.len() % 4 != 1,
        forall|k: int| 0 <= k < body.len() ==> vals@[k] == val(#[trigger] body[k]) && vals@[k] < 64,
    ensures
        out@ == decode_digits(body),
{
    let m = vals.len();
    let mut out: Vec<u8> = Vec::new();
    let mut g: usize = 0;
    assert(body.skip(0) =~= body);
    while g < m && m - g >= 4
        invariant
            m == vals@.len() == body.len(),
            body.len() % 4 != 1,
            forall|k: int| 0 <= k < m ==> vals@[k] == val(#[trigger] body[k]) && vals@[k] < 64,
            g <= m,
            (m - g) % 4 == m % 4,
            out@ + decode_digits(body.skip(g as int)) == decode_digits(body),
        decreases m - g,
    {
        let a = vals[g];
        let b = vals[g + 1];
        let c = vals[g + 2];
        let d = vals[g + 3];
        let ghost rest = body.skip(g as int);
        assert(rest[0] == body[g as int] && rest[1] == body[g + 1] && rest[2] == body[g + 2]
            && rest[3] == body[g + 3]);
        assert(rest.skip(4) =~= body.skip(g + 4));
        let ghost before = out@;
        out.push(((a as u32) * 4 + (b as u32) / 16) as u8);
        out.push((((b as u32) % 16) * 16 + (c as u32) / 4) as u8);
        out.push((((c as u32) % 4) * 64 + (d as u32)) as u8);
        assert(out@ =~= before + seq![
            byte0(rest[0], rest[1]),
            byte1(rest[1], rest[2]),
            byte2(rest[2], rest[3]),
        ]);
        g = g + 4;
    }
    let left = m - g;
    let ghost rest = body.skip(g as int);
    let ghost before = out@;
    if left >= 2 {
        let a = vals[g];
        let b = vals[g + 1];
        assert(rest[0] == body[g as int] && rest[1] == body[g + 1]);
        out.push(((a as u32) * 4 + (b as u32) / 16) as u8);
        if left == 3 {
            let c = vals[g + 2];
            assert(rest[2] == body[g + 2]);
            out.push((((b as u32) % 16) * 16 + (c as u32) / 4) as u8);
            assert(out@ =~= before + decode_digits(rest));
        } else {
            assert(out@ =~= before + decode_digits(rest));
        }
    } else {
        assert(left == 0);
        assert(out@ =~= before + decode_digits(rest));
    }
    out
}

/// Decodes standard padded base64 text; `None` when it is not valid.
pub fn decode_str(text: &str) -> (r: Option<Vec<u8>>)
    ensures
        match decode(text@) {
            Some(b) => r matches Some(v) && v@ == b,
            None => r is None,
        },
{
    let s = chars_of(text);
    let n = s.len();
    let p = padding_exec(s.as_slice());
    let m = n - p;
    let vals = match digit_values(s.as_slice(), m) {
        Some(v) => v,
        None => return None,
    };
    if m % 4 == 1 || (p != 0 && n % 4 != 0) {
        return None;
    }
    let ghost body = s@.take(m as int);
    assert forall|k: int| 0 <= k < body.len() implies vals@[k] == val(#[trigger] body[k])
        && vals@[k] < 64 by {
        assert(body[k] == s@[k]);
    }
    Some(decode_values(&vals, Ghost(body)))
}

// ---------------------------------------------------------------------------
// Properties
// ---------------------------------------------------------------------------

proof fn lemma_digit_char(v: int)
    requires
        0 <= v < 64,
    ensures
        sextet(digit_char(v)) == Some(v),
        digit_char(v) != '=',
{
}

proof fn lemma_first_byte(x: int, y: int)
    requires
        0 <= x < 256,
        0 <= y < 256,
    ensures
        0 <= x / 4 < 64,
        0 <= (x % 4) * 16 + y / 16 < 64,
        (x / 4) * 4 + ((x % 4) * 16 + y / 16) / 16 == x,
{
    assert(0 <= y / 16 < 16);
    assert(0 <= x % 4 < 4);
    assert(((x % 4) * 16 + y / 16) / 16 == x % 4) by (nonlinear_arith)
        requires
            0 <= x % 4 < 4,
            0 <= y / 16 < 16,
    ;
}

proof fn lemma_second_byte(x: int, y: int, z: int)
    requires
        0 <= x < 256,
        0 <= y < 256,
        0 <= z < 256,
    ensures
        0 <= (y % 16) * 4 + z / 64 < 64,
        (((x % 4) * 16 + y / 16) % 16) * 16 + ((y % 16) * 4 + z / 64) / 4 == y,
{
    assert(0 <= y / 16 < 16);
    assert(0 <= x % 4 < 4);
    assert(0 <= z / 64 < 4);
    assert(((x % 4) * 16 + y / 16) % 16 == y / 16) by (nonlinear_arith)
        requires
            0 <= x % 4 < 4,
            0 <= y / 16 < 16,
    ;
    assert(((y % 16) * 4 + z / 64) / 4 == y % 16) by (nonlinear_arith)
        requires
            0 <= y % 16 < 16,
            0 <= z / 64 < 4,
    ;
}

proof fn lemma_third_byte(y: int, z: int)
    requires
        0 <= y < 256,
        0 <= z < 256,
    ensures
        0 <= z % 64 < 64,
        (((y % 16) * 4 + z / 64) % 4) * 64 + z % 64 == z,
{
    assert(0 <= z / 64 < 4);
    assert(((y % 16) * 4 + z / 64) % 4 == z / 64) by (nonlinear_arith)
        requires
            0 <= y % 16 < 16,
            0 <= z / 64 < 4,
    ;
}

/// The digits of an encoding are valid digits and decode back to the bytes.
proof fn lemma_digits_roundtrip(b: Seq<u8>)
    ensures
        all_digits(encode_digits(b)),
        decode_digits(encode_digits(b)) == b,
        encode_digits(b).len() % 4 == (if b.len() % 3 == 1 {
            2int
        } else if b.len() % 3 == 2 {
            3int
        } else {
            0int
        }),
    decreases b.len(),
{
    let e = encode_digits(b);
    if b.len() >= 3 {
        let x = b[0] as int;
        let y = b[1] as int;
        let z = b[2] as int;
        lemma_first_byte(x, y);
        lemma_second_byte(x, y, z);
        lemma_third_byte(y, z);
        let v0 = x / 4;
        let v1 = (x % 4) * 16 + y / 16;
        let v2 = (y % 16) * 4 + z / 64;
        let v3 = z % 64;
        lemma_digit_char(v0);
        lemma_digit_char(v1);
        lemma_digit_char(v2);
        lemma_digit_char(v3);
        lemma_digits_roundtrip(b.skip(3));
        let rest = encode_digits(b.skip(3));
        let g = seq![digit_char(v0), digit_char(v1), digit_char(v2), digit_char(v3)];
        assert(e == g + rest);
        assert(e.skip(4) =~= rest);
        assert forall|i: int| 0 <= i < e.len() implies #[trigger] sextet(e[i]) is Some by {
            if i >= 4 {
                assert(e[i] == rest[i - 4]);
            }
        }
        assert(decode_digits(e) == seq![b[0], b[1], b[2]] + decode_digits(rest));
        assert(b =~= seq![b[0], b[1], b[2]] + b.skip(3));
    } else if b.len() == 2 {
        let x = b[0] as int;
        let y = b[1] as int;
        lemma_first_byte(x, y);
        lemma_second_byte(x, y, 0);
        lemma_digit_char(x / 4);
        lemma_digit_char((x % 4) * 16 + y / 16);
        lemma_digit_char((y % 16) * 4);
        assert(decode_digits(e) =~= b);
    } else if b.len() == 1 {
        let x = b[0] as int;
        lemma_first_byte(x, 0);
        lemma_digit_char(x / 4);
        lemma_digit_char((x % 4) * 16);
        assert(decode_digits(e) =~= b);
    } else {
        assert(decode_digits(e) =~= b);
    }
}

/// Decoding undoes encoding: every byte string survives a round trip.
pub proof fn law_decode_encode(b: Seq<u8>)
    ensures
        decode(encode(b)) == Some(b),
{
    lemma_digits_roundtrip(b);
    let d = encode_digits(b);
    let s = encode(b);
    let pad = s.len() - d.len();
    assert(s.take(d.len() as int) =~= d);
    if d.len() > 0 {
        assert(d[d.len() - 1] != '=') by {
            assert(sextet(d[d.len() - 1]) is Some);
        }
    }
    if b.len() % 3 == 2 && d.len() >= 1 {
        assert(padding(s) == 1);
    }
    assert(padding(s) == pad);
}

} // verus!
