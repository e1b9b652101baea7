//! Hex encoding and decoding of checksums.
//!
//! On the wire a checksum is a 64-character hex string; in memory it is
//! 32 raw bytes. Decoding accepts both letter cases; encoding emits
//! lowercase.

use vstd::prelude::*;

verus! {

/// Whether `c` is a hex digit, either case.
pub open spec fn is_hex_char(c: char) -> bool {
    ('0' <= c <= '9') || ('a' <= c <= 'f') || ('A' <= c <= 'F')
}

/// The value of a hex digit; 0 for anything else.
pub open spec fn spec_hex_val(c: char) -> int {
    match c {
        '0' => 0, '1' => 1, '2' => 2, '3' => 3, '4' => 4,
        '5' => 5, '6' => 6, '7' => 7, '8' => 8, '9' => 9,
        'a' => 10, 'b' => 11, 'c' => 12, 'd' => 13, 'e' => 14, 'f' => 15,
        'A' => 10, 'B' => 11, 'C' => 12, 'D' => 13, 'E' => 14, 'F' => 15,
        _ => 0,
    }
}

/// The lowercase hex digit of a value below 16; '0' for anything else.
pub open spec fn spec_hex_char(v: int) -> char {
    if v == 0 { '0' } else if v == 1 { '1' } else if v == 2 { '2' } else if v == 3 { '3' }
    else if v == 4 { '4' } else if v == 5 { '5' } else if v == 6 { '6' } else if v == 7 { '7' }
    else if v == 8 { '8' } else if v == 9 { '9' } else if v == 10 { 'a' } else if v == 11 { 'b' }
    else if v == 12 { 'c' } else if v == 13 { 'd' } else if v == 14 { 'e' } else if v == 15 { 'f' }
    else { '0' }
}

/// Whether a character sequence is well-formed hex: even length, hex
/// digits throughout.
pub open spec fn hex_valid(s: Seq<char>) -> bool {
    s.len() % 2 == 0 && (forall|i: int| 0 <= i < s.len() ==> is_hex_char(#[trigger] s[i]))
}

/// The byte spelled by the digit pair at byte position `i`.
pub open spec fn hex_byte_at(s: Seq<char>, i: int) -> u8 {
    (16 * spec_hex_val(s[2 * i]) + spec_hex_val(s[2 * i + 1])) as u8
}

/// The bytes a hex string decodes to.
pub open spec fn hex_decoded(s: Seq<char>) -> Seq<u8> {
    Seq::new((s.len() / 2) as nat, |i: int| hex_byte_at(s, i))
}

/// The lowercase hex spelling of a byte sequence.
pub open spec fn hex_encoded(b: Seq<u8>) -> Seq<char> {
    Seq::new(b.len() * 2, |i: int|
        if i % 2 == 0 {
            spec_hex_char(b[i / 2] as int / 16)
        } else {
            spec_hex_char(b[i / 2] as int % 16)
        })
}

/// The value of one hex digit.
pub fn hex_val(c: char) -> (v: u8)
    requires
        is_hex_char(c),
    ensures
        v as int == spec_hex_val(c),
        v < 16,
{
    match c {
        '0' => 0, '1' => 1, '2' => 2, '3' => 3, '4' => 4,
        '5' => 5, '6' => 6, '7' => 7, '8' => 8, '9' => 9,
        'a' => 10, 'b' => 11, 'c' => 12, 'd' => 13, 'e' => 14, 'f' => 15,
        'A' => 10, 'B' => 11, 'C' => 12, 'D' => 13, 'E' => 14, 'F' => 15,
        _ => 0,
    }
}

/// Whether one character is a hex digit.
pub fn hex_char_test(c: char) -> (r: bool)
    ensures
        r == is_hex_char(c),
{
    ('0' <= c && c <= '9') || ('a' <= c && c <= 'f') || ('A' <= c && c <= 'F')
}

/// The lowercase hex digit of a value below 16.
pub fn hex_char(v: u8) -> (c: char)
    requires
        v < 16,
    ensures
        c == spec_hex_char(v as int),
{
    match v {
        0 => '0', 1 => '1', 2 => '2', 3 => '3', 4 => '4',
        5 => '5', 6 => '6', 7 => '7', 8 => '8', 9 => '9',
        10 => 'a', 11 => 'b', 12 => 'c', 13 => 'd', 14 => 'e', 15 => 'f',
        _ => '0',
    }
}

/// Decode a hex string to bytes: `None` unless the string has even
/// length and holds hex digits only, otherwise the spelled bytes.
pub fn hex_decode(s: &str) -> (r: Option<Vec<u8>>)
    ensures
        r is Some <==> hex_valid(s@),
        r is Some ==> r->0@ == hex_decoded(s@),
{
    let n = s.unicode_len();
    if n % 2 != 0 {
        return None;
    }
    let mut out: Vec<u8> = Vec::new();
    let mut j: usize = 0;
    while j < n / 2
        invariant
            n == s@.len(),
            n % 2 == 0,
            0 <= j <= n / 2,
            out@.len() == j,
            forall|k: int| 0 <= k < 2 * j ==> is_hex_char(#[trigger] s@[k]),
            forall|k: int| 0 <= k < j ==> out@[k] == hex_byte_at(s@, k),
        decreases n / 2 - j,
    {
        let c0 = s.get_char(2 * j);
        let c1 = s.get_char(2 * j + 1);
        if !hex_char_test(c0) || !hex_char_test(c1) {
            return None;
        }
        let b: u8 = 16 * hex_val(c0) + hex_val(c1);
        out.push(b);
        j = j + 1;
    }
    assert(forall|k: int| 0 <= k < n ==> is_hex_char(#[trigger] s@[k]));
    assert(out@ =~= hex_decoded(s@));
    Some(out)
}

/// Encode bytes as a lowercase hex string.
pub fn hex_encode(b: &Vec<u8>) -> (r: String)
    ensures
        r@ == hex_encoded(b@),
{
    let mut out = String::new();
    let mut i: usize = 0;
    while i < b.len()
        invariant
            0 <= i <= b@.len(),
            out@.len() == 2 * i,
            forall|k: int| 0 <= k < 2 * i ==> out@[k] == hex_encoded(b@)[k],
        decreases b@.len() - i,
    {
        let v = b[i];
        out.push(hex_char(v / 16));
        out.push(hex_char(v % 16));
        i = i + 1;
    }
    assert(out@ =~= hex_encoded(b@));
    out
}

/// Encoding then decoding gives the bytes back: the hex spelling of any
/// byte sequence is well-formed hex and decodes to that sequence.
pub proof fn lemma_hex_round_trip(b: Seq<u8>)
    ensures
        hex_valid(hex_encoded(b)),
        hex_encoded(b).len() == 2 * b.len(),
        hex_decoded(hex_encoded(b)) == b,
{
    assert forall|i: int| 0 <= i < hex_encoded(b).len() implies is_hex_char(
        #[trigger] hex_encoded(b)[i]) by {
        if i % 2 == 0 {
            assert(0 <= b[i / 2] as int / 16 < 16);
        }
    }
    assert forall|i: int| 0 <= i < b.len() implies hex_decoded(hex_encoded(b))[i] == b[i] by {
        let v = b[i] as int;
        assert(hex_encoded(b)[2 * i] == spec_hex_char(v / 16));
        assert(hex_encoded(b)[2 * i + 1] == spec_hex_char(v % 16));
        assert(spec_hex_val(spec_hex_char(v / 16)) == v / 16);
        assert(spec_hex_val(spec_hex_char(v % 16)) == v % 16);
        assert(16 * (v / 16) + v % 16 == v);
    }
    assert(hex_decoded(hex_encoded(b)) =~= b);
}

} // verus!
