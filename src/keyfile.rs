//! The text format of a pre-shared key file, as go-libp2p writes it:
//!
//! ```text
//! /key/swarm/psk/1.0.0/
//! /base16/
//! <64 hexadecimal digits>
//! ```
//!
//! Lines end in `\n`, optionally preceded by `\r`; the key line may carry
//! trailing whitespace, and anything after the third line is ignored.
use crate::cipher::PreSharedKey;
use vstd::prelude::*;

verus! {

/// Why a key file was refused.
#[derive(Clone, Copy, Debug, PartialEq, Eq, Structural)]
pub enum KeyParseError {
    /// The file has fewer than three lines.
    InvalidKeyFile,
    /// The first line is not `/key/swarm/psk/1.0.0/`.
    InvalidKeyType,
    /// The second line is not `/base16/`.
    InvalidKeyEncoding,
    /// The key line does not hold 64 characters.
    InvalidKeyLength,
    /// The key line holds a character that is not a hexadecimal digit.
    InvalidKeyChar,
}

/// `/key/swarm/psk/1.0.0/`
pub open spec fn key_type_line() -> Seq<u8> {
    seq![
        0x2fu8, 0x6bu8, 0x65u8, 0x79u8, 0x2fu8, 0x73u8, 0x77u8, 0x61u8, 0x72u8, 0x6du8, 0x2fu8,
        0x70u8, 0x73u8, 0x6bu8, 0x2fu8, 0x31u8, 0x2eu8, 0x30u8, 0x2eu8, 0x30u8, 0x2fu8,
    ]
}

/// `/base16/`
pub open spec fn encoding_line() -> Seq<u8> {
    seq![0x2fu8, 0x62u8, 0x61u8, 0x73u8, 0x65u8, 0x31u8, 0x36u8, 0x2fu8]
}

/// The index of the first `\n` at or after `i`, or the length of `t`.
pub open spec fn next_newline(t: Seq<u8>, i: int) -> int
    decreases t.len() - i,
{
    if i >= t.len() {
        t.len() as int
    } else if t[i] == 0x0au8 {
        i
    } else {
        next_newline(t, i + 1)
    }
}

/// `l` without one trailing `\r`.
pub open spec fn strip_cr(l: Seq<u8>) -> Seq<u8> {
    if l.len() > 0 && l.last() == 0x0du8 {
        l.drop_last()
    } else {
        l
    }
}

/// The line that starts at `start`.
pub open spec fn line_at(t: Seq<u8>, start: int) -> Seq<u8> {
    strip_cr(t.subrange(start, next_newline(t, start)))
}

pub open spec fn second_start(t: Seq<u8>) -> int {
    next_newline(t, 0) + 1
}

pub open spec fn third_start(t: Seq<u8>) -> int {
    next_newline(t, second_start(t)) + 1
}

/// Whether `t` has at least three lines.
pub open spec fn has_three_lines(t: Seq<u8>) -> bool {
    next_newline(t, 0) < t.len() && next_newline(t, second_start(t)) < t.len() && third_start(t)
        < t.len()
}

pub open spec fn is_whitespace(c: u8) -> bool {
    c == 0x20u8 || (0x09u8 <= c && c <= 0x0du8)
}

/// `l` without trailing whitespace.
pub open spec fn trim_end(l: Seq<u8>) -> Seq<u8>
    decreases l.len(),
{
    if l.len() > 0 && is_whitespace(l.last()) {
        trim_end(l.drop_last())
    } else {
        l
    }
}

pub open spec fn is_hex_digit(c: u8) -> bool {
    (0x30u8 <= c && c <= 0x39u8) || (0x61u8 <= c && c <= 0x66u8) || (0x41u8 <= c && c <= 0x46u8)
}

/// The value of a hexadecimal digit.
pub open spec fn hex_value(c: u8) -> int {
    if 0x30u8 <= c && c <= 0x39u8 {
        c - 0x30
    } else if 0x61u8 <= c && c <= 0x66u8 {
        c - 0x61 + 10
    } else {
        c - 0x41 + 10
    }
}

/// The bytes that pairs of hexadecimal digits in `h` stand for.
pub open spec fn hex_decode(h: Seq<u8>) -> Seq<u8> {
    Seq::new(h.len() / 2, |i: int| (hex_value(h[2 * i]) * 16 + hex_value(h[2 * i + 1])) as u8)
}

/// The lowercase hexadecimal digit for `v`, below 16.
pub open spec fn hex_digit(v: int) -> u8 {
    if v < 10 {
        (0x30 + v) as u8
    } else {
        (0x61 + v - 10) as u8
    }
}

/// The 64 lowercase hexadecimal digits of the 32-byte key `k`.
pub open spec fn key_hex(k: Seq<u8>) -> Seq<u8> {
    Seq::new(
        64,
        |i: int|
            if i % 2 == 0 {
                hex_digit(k[i / 2] as int / 16)
            } else {
                hex_digit(k[i / 2] as int % 16)
            },
    )
}

/// The outcome of parsing the key file `t`.
pub open spec fn parse_result(t: Seq<u8>) -> Result<Seq<u8>, KeyParseError> {
    if !has_three_lines(t) {
        Err(KeyParseError::InvalidKeyFile)
    } else if line_at(t, 0) != key_type_line() {
        Err(KeyParseError::InvalidKeyType)
    } else if line_at(t, second_start(t)) != encoding_line() {
        Err(KeyParseError::InvalidKeyEncoding)
    } else if trim_end(line_at(t, third_start(t))).len() != 64 {
        Err(KeyParseError::InvalidKeyLength)
    } else if exists|i: int|
        0 <= i < 64 && !is_hex_digit(#[trigger] trim_end(line_at(t, third_start(t)))[i]) {
        Err(KeyParseError::InvalidKeyChar)
    } else {
        Ok(hex_decode(trim_end(line_at(t, third_start(t)))))
    }
}

fn find_newline(t: &Vec<u8>, start: usize) -> (r: usize)
    requires
        start <= t@.len(),
    ensures
        r == next_newline(t@, start as int),
{
    let mut i = start;
    while i < t.len() && t[i] != 0x0au8
        invariant
            start <= i <= t@.len(),
            next_newline(t@, start as int) == next_newline(t@, i as int),
        decreases t@.len() - i,
    {
        i = i + 1;
    }
    i
}

/// Whether `t[start..end]` without one trailing `\r` equals `expected`.
fn line_equals(t: &Vec<u8>, start: usize, end: usize, expected: &[u8]) -> (r: bool)
    requires
        start <= end <= t@.len(),
    ensures
        r == (strip_cr(t@.subrange(start as int, end as int)) == expected@),
{
    let mut stop = end;
    if end > start && t[end - 1] == 0x0du8 {
        stop = end - 1;
    }
    assert(strip_cr(t@.subrange(start as int, end as int)) =~= t@.subrange(
        start as int,
        stop as int,
    ));
    if stop - start != expected.len() {
        return false;
    }
    let mut i: usize = 0;
    while i < expected.len()
        invariant
            start + expected@.len() == stop <= t@.len(),
            start <= end <= t@.len(),
            strip_cr(t@.subrange(start as int, end as int)) == t@.subrange(start as int, stop as int),
            i <= expected@.len(),
            forall|j: int| 0 <= j < i ==> t@[start + j] == expected@[j],
        decreases expected@.len() - i,
    {
        if t[start + i] != expected[i] {
            assert(t@.subrange(start as int, stop as int)[i as int] != expected@[i as int]);
            return false;
        }
        i = i + 1;
    }
    assert(t@.subrange(start as int, stop as int) =~= expected@);
    true
}

fn hex_value_of(c: u8) -> (r: Option<u8>)
    ensures
        r is Some <==> is_hex_digit(c),
        r matches Some(v) ==> v as int == hex_value(c) && v < 16,
{
    if 0x30u8 <= c && c <= 0x39u8 {
        Some(c - 0x30)
    } else if 0x61u8 <= c && c <= 0x66u8 {
        Some(c - 0x61 + 10)
    } else if 0x41u8 <= c && c <= 0x46u8 {
        Some(c - 0x41 + 10)
    } else {
        None
    }
}

proof fn lemma_next_newline_bounds(t: Seq<u8>, i: int)
    requires
        0 <= i <= t.len(),
    ensures
        i <= next_newline(t, i) <= t.len(),
        next_newline(t, i) < t.len() ==> t[next_newline(t, i)] == 0x0au8,
    decreases t.len() - i,
{
    if i < t.len() && t[i] != 0x0au8 {
        lemma_next_newline_bounds(t, i + 1);
    }
}

/// Read a pre-shared key from the text of a key file.
///
/// libp2p-pnet parses this format too (`PreSharedKey::from_str`), but its key
/// type keeps the bytes private, and the cipher here needs them; so the format
/// is read here, accepting what that parser accepts but for a sign before a
/// hexadecimal digit pair.
pub fn parse_key_file(t: &Vec<u8>) -> (r: Result<PreSharedKey, KeyParseError>)
    ensures
        match parse_result(t@) {
            Ok(k) => r matches Ok(psk) && psk@ == k,
            Err(e) => r == Err::<PreSharedKey, KeyParseError>(e),
        },
{
    proof {
        lemma_next_newline_bounds(t@, 0);
    }
    let e1 = find_newline(t, 0);
    if e1 >= t.len() {
        return Err(KeyParseError::InvalidKeyFile);
    }
    proof {
        lemma_next_newline_bounds(t@, e1 + 1);
    }
    let e2 = find_newline(t, e1 + 1);
    if e2 >= t.len() || e2 + 1 >= t.len() {
        return Err(KeyParseError::InvalidKeyFile);
    }
    proof {
        lemma_next_newline_bounds(t@, e2 + 1);
    }
    let e3 = find_newline(t, e2 + 1);
    let key_type: [u8; 21] = [
        0x2f, 0x6b, 0x65, 0x79, 0x2f, 0x73, 0x77, 0x61, 0x72, 0x6d, 0x2f, 0x70, 0x73, 0x6b, 0x2f,
        0x31, 0x2e, 0x30, 0x2e, 0x30, 0x2f,
    ];
    assert(key_type@ =~= key_type_line());
    if !line_equals(t, 0, e1, key_type.as_slice()) {
        return Err(KeyParseError::InvalidKeyType);
    }
    let encoding: [u8; 8] = [0x2f, 0x62, 0x61, 0x73, 0x65, 0x31, 0x36, 0x2f];
    assert(encoding@ =~= encoding_line());
    if !line_equals(t, e1 + 1, e2, encoding.as_slice()) {
        return Err(KeyParseError::InvalidKeyEncoding);
    }
    let ghost line = line_at(t@, e2 + 1);
    let start = e2 + 1;
    let mut stop = e3;
    if e3 > start && t[e3 - 1] == 0x0du8 {
        stop = e3 - 1;
    }
    assert(line =~= t@.subrange(start as int, stop as int));
    while stop > start && (t[stop - 1] == 0x20u8 || (0x09u8 <= t[stop - 1] && t[stop - 1] <= 0x0du8))
        invariant
            start <= stop <= t@.len(),
            trim_end(line) == trim_end(t@.subrange(start as int, stop as int)),
        decreases stop - start,
    {
        assert(t@.subrange(start as int, stop - 1) =~= t@.subrange(start as int, stop as int).drop_last());
        stop = stop - 1;
    }
    let ghost key_line = t@.subrange(start as int, stop as int);
    assert(trim_end(key_line) == key_line);
    if stop - start != 64 {
        return Err(KeyParseError::InvalidKeyLength);
    }
    let mut bad = false;
    let mut j: usize = 0;
    while j < 64
        invariant
            start + 64 == stop <= t@.len(),
            key_line == t@.subrange(start as int, stop as int),
            j <= 64,
            bad == (exists|i: int| 0 <= i < j && !is_hex_digit(#[trigger] key_line[i])),
        decreases 64 - j,
    {
        if hex_value_of(t[start + j]).is_none() {
            assert(!is_hex_digit(key_line[j as int]));
            bad = true;
        }
        j = j + 1;
    }
    if bad {
        return Err(KeyParseError::InvalidKeyChar);
    }
    let mut key = [0u8; 32];
    let mut i: usize = 0;
    while i < 32
        invariant
            start + 64 == stop <= t@.len(),
            key_line == t@.subrange(start as int, stop as int),
            forall|m: int| 0 <= m < 64 ==> is_hex_digit(#[trigger] key_line[m]),
            i <= 32,
            key@.len() == 32,
            forall|m: int| 0 <= m < i ==> key@[m] == hex_decode(key_line)[m],
        decreases 32 - i,
    {
        assert(t@[start + 2 * i] == key_line[2 * i as int]);
        assert(t@[start + 2 * i + 1] == key_line[2 * i + 1]);
        let hi = hex_value_of(t[start + 2 * i]).unwrap();
        let lo = hex_value_of(t[start + 2 * i + 1]).unwrap();
        let ghost before = key@;
        key[i] = hi * 16 + lo;
        assert(key@ == before.update(i as int, (hi * 16 + lo) as u8));
        i = i + 1;
    }
    assert(key@ =~= hex_decode(key_line));
    Ok(PreSharedKey::new(key))
}

/// Relies on libp2p-pnet's `PreSharedKey::new` and its `Display`, which
/// writes `/key/swarm/psk/1.0.0/`, `/base16/` and the key's bytes as
/// lowercase hexadecimal (`{byte:02x}`), each followed by a newline.
#[verifier::external_body]
fn pnet_key_file(key: &[u8; 32]) -> (r: Vec<u8>)
    ensures
        r@ == key_file_text(key@),
{
    libp2p::pnet::PreSharedKey::new(*key).to_string().into_bytes()
}

/// The text of a key file holding `psk`, with the key in lowercase hexadecimal.
pub fn key_file(psk: &PreSharedKey) -> (r: Vec<u8>)
    ensures
        r@ == key_file_text(psk@),
{
    pnet_key_file(&psk.bytes())
}

/// The text of a key file holding the key bytes `k`.
pub open spec fn key_file_text(k: Seq<u8>) -> Seq<u8> {
    key_type_line() + seq![0x0au8] + encoding_line() + seq![0x0au8] + key_hex(k) + seq![0x0au8]
}

proof fn lemma_next_newline_at(t: Seq<u8>, i: int, e: int)
    requires
        0 <= i <= e < t.len(),
        t[e] == 0x0au8,
        forall|j: int| i <= j < e ==> t[j] != 0x0au8,
    ensures
        next_newline(t, i) == e,
    decreases e - i,
{
    if i < e {
        lemma_next_newline_at(t, i + 1, e);
    }
}

proof fn lemma_hex_digit(v: int)
    requires
        0 <= v < 16,
    ensures
        is_hex_digit(hex_digit(v)),
        hex_value(hex_digit(v)) == v,
        !is_whitespace(hex_digit(v)),
        hex_digit(v) != 0x0au8,
        hex_digit(v) != 0x0du8,
{
}

/// A key file written for a key reads back as that key.
pub proof fn lemma_key_file_round_trip(k: Seq<u8>)
    requires
        k.len() == 32,
    ensures
        parse_result(key_file_text(k)) == Ok::<Seq<u8>, KeyParseError>(k),
{
    let t = key_file_text(k);
    let h = key_hex(k);
    assert(t.len() == 96);
    assert forall|i: int| 0 <= i < 64 implies is_hex_digit(#[trigger] h[i]) && !is_whitespace(h[i])
        && h[i] != 0x0au8 && h[i] != 0x0du8 by {
        if i % 2 == 0 {
            lemma_hex_digit(k[i / 2] as int / 16);
        } else {
            lemma_hex_digit(k[i / 2] as int % 16);
        }
    }
    assert forall|i: int| 0 <= i < 64 implies #[trigger] t[31 + i] == h[i] by {}
    lemma_next_newline_at(t, 0, 21);
    lemma_next_newline_at(t, 22, 30);
    assert forall|j: int| 31 <= j < 95 implies t[j] != 0x0au8 by {
        assert(t[j] == h[j - 31]);
    }
    lemma_next_newline_at(t, 31, 95);
    assert(t.subrange(0, 21) =~= key_type_line());
    assert(t.subrange(22, 30) =~= encoding_line());
    assert(t.subrange(31, 95) =~= h);
    assert(line_at(t, 0) == key_type_line());
    assert(line_at(t, second_start(t)) == encoding_line());
    assert(line_at(t, third_start(t)) == h);
    assert(trim_end(h) == h);
    assert forall|i: int| 0 <= i < 32 implies #[trigger] hex_decode(h)[i] == k[i] by {
        let b = k[i];
        lemma_hex_digit(b as int / 16);
        lemma_hex_digit(b as int % 16);
        assert((2 * i) / 2 == i && (2 * i) % 2 == 0);
        assert((2 * i + 1) / 2 == i && (2 * i + 1) % 2 == 1);
        assert(b as int / 16 * 16 + b as int % 16 == b as int);
    }
    assert(hex_decode(h) =~= k);
}

} // verus!
