//! Character-level encodings used across the library: lowercase hexadecimal,
//! decimal digits, hexadecimal parsing, and Unicode lowercasing.

use vstd::prelude::*;

verus! {

// ---------------------------------------------------------------------------
// Hexadecimal
// ---------------------------------------------------------------------------

/// The lowercase hexadecimal digit for a nibble `n < 16`.
pub open spec fn hex_char(n: nat) -> char {
    if n < 10 {
        (n + 48) as char
    } else {
        (n + 87) as char
    }
}

/// Two lowercase hex digits per byte, high nibble first, no prefix.
pub open spec fn hex_lower(bytes: Seq<u8>) -> Seq<char> {
    Seq::new(
        2 * bytes.len(),
        |i: int|
            if i % 2 == 0 {
                hex_char((bytes[i / 2] / 16) as nat)
            } else {
                hex_char((bytes[i / 2] % 16) as nat)
            },
    )
}

/// `0x` followed by the lowercase hex digits of `bytes`.
pub open spec fn prefixed_hex(bytes: Seq<u8>) -> Seq<char> {
    seq!['0', 'x'] + hex_lower(bytes)
}

/// Whitespace that the hex decoder skips.
pub open spec fn is_hex_space(c: char) -> bool {
    c == ' ' || c == '\r' || c == '\n' || c == '\t'
}

/// The value of a hex digit in either case, or `None`.
pub open spec fn hex_value(c: char) -> Option<u8> {
    let v = c as int;
    if 48 <= v <= 57 {
        Some((v - 48) as u8)
    } else if 97 <= v <= 102 {
        Some((v - 87) as u8)
    } else if 65 <= v <= 70 {
        Some((v - 55) as u8)
    } else {
        None
    }
}

/// The nibble values of the hex digits of `s`, skipping whitespace;
/// `None` as soon as any other character occurs.
pub open spec fn hex_nibbles(s: Seq<char>) -> Option<Seq<u8>>
    decreases s.len(),
{
    if s.len() == 0 {
        Some(Seq::empty())
    } else if is_hex_space(s[0]) {
        hex_nibbles(s.drop_first())
    } else {
        match (hex_value(s[0]), hex_nibbles(s.drop_first())) {
            (Some(v), Some(rest)) => Some(seq![v] + rest),
            _ => None,
        }
    }
}

/// Removes one leading lowercase `0x`, if present.
pub open spec fn strip_hex_prefix(s: Seq<char>) -> Seq<char> {
    if s.len() >= 2 && s[0] == '0' && s[1] == 'x' {
        s.skip(2)
    } else {
        s
    }
}

/// Packs pairs of nibbles into bytes, high nibble first.
pub open spec fn pack_nibbles(n: Seq<u8>) -> Seq<u8> {
    Seq::new(n.len() / 2, |i: int| (n[2 * i] * 16 + n[2 * i + 1]) as u8)
}

/// Decodes a 20-byte hex string with an optional `0x` prefix.
pub open spec fn parse_hex20(s: Seq<char>) -> Option<Seq<u8>> {
    match hex_nibbles(strip_hex_prefix(s)) {
        Some(n) => if n.len() == 40 {
            Some(pack_nibbles(n))
        } else {
            None
        },
        None => None,
    }
}

// ---------------------------------------------------------------------------
// Decimal
// ---------------------------------------------------------------------------

/// The ASCII digit for `d < 10`.
pub open spec fn digit_char(d: nat) -> char {
    (d + 48) as char
}

/// Decimal digits of `n`, most significant first, without leading zeros
/// (`0` is a single `'0'`).
pub open spec fn decimal_chars(n: nat) -> Seq<char>
    decreases n,
{
    if n < 10 {
        seq![digit_char(n)]
    } else {
        decimal_chars(n / 10).push(digit_char(n % 10))
    }
}

/// The value of four little-endian 64-bit limbs.
pub open spec fn limbs_value(l: Seq<u64>) -> nat {
    (l[0] + l[1] * 0x1_0000_0000_0000_0000 + l[2] * 0x1_0000_0000_0000_0000_0000_0000_0000_0000
        + l[3] * 0x1_0000_0000_0000_0000_0000_0000_0000_0000_0000_0000_0000_0000) as nat
}

// ---------------------------------------------------------------------------
// Lowercasing
// ---------------------------------------------------------------------------

/// What `str::to_lowercase` returns for a string, by its characters.
pub uninterp spec fn unicode_lowercase(s: Seq<char>) -> Seq<char>;

/// `str::to_lowercase` from std. Its result is the Unicode lowercase mapping
/// of the argument, a function of the argument's characters alone; nothing
/// more is stated of it here.
#[verifier::external_body]
pub(crate) fn lowercase(s: &str) -> (res: String)
    ensures
        res@ == unicode_lowercase(s@),
{
    s.to_lowercase()
}

// ---------------------------------------------------------------------------
// Formatting wrappers
// ---------------------------------------------------------------------------

/// `Display` of `ethers::types::U256` (from the `uint` crate): the value is
/// printed in decimal without leading zeros, `0` as `"0"`. The argument is
/// the value's four little-endian limbs, which is how `U256` stores it.
#[verifier::external_body]
pub(crate) fn u256_decimal(limbs: [u64; 4]) -> (res: String)
    ensures
        res@ == decimal_chars(limbs_value(limbs@)),
{
    ethers::types::U256(limbs).to_string()
}

/// `Display` of `ethers::types::Bytes`: `0x` followed by `const_hex::encode`
/// of the bytes, two lowercase hex digits per byte.
#[verifier::external_body]
pub(crate) fn bytes_display(data: &Vec<u8>) -> (res: String)
    ensures
        res@ == prefixed_hex(data@),
{
    format!("{}", ethers::types::Bytes::from(data.clone()))
}

// ---------------------------------------------------------------------------
// Verified helpers
// ---------------------------------------------------------------------------

/// An owned copy of a string slice.
pub fn owned(s: &str) -> (res: String)
    ensures
        res@ == s@,
{
    s.to_string()
}

/// Splits a 128-bit value into four little-endian 64-bit limbs.
pub fn u128_limbs(x: u128) -> (res: [u64; 4])
    ensures
        limbs_value(res@) == x,
{
    assert((x & 0xffff_ffff_ffff_ffff) <= 0xffff_ffff_ffff_ffff) by (bit_vector);
    assert((x >> 64u32) <= 0xffff_ffff_ffff_ffff) by (bit_vector);
    assert(x == (x & 0xffff_ffff_ffff_ffff) + (x >> 64u32) * 0x1_0000_0000_0000_0000) by (bit_vector);
    let lo: u64 = (x & 0xffff_ffff_ffff_ffff) as u64;
    let hi: u64 = (x >> 64u32) as u64;
    let res: [u64; 4] = [lo, hi, 0, 0];
    assert(res@[0] == lo && res@[1] == hi && res@[2] == 0 && res@[3] == 0);
    res
}

/// Decimal digits of a 128-bit value, as `U256`'s `Display` prints them.
pub fn decimal_string(x: u128) -> (res: String)
    ensures
        res@ == decimal_chars(x as nat),
{
    u256_decimal(u128_limbs(x))
}

// ---------------------------------------------------------------------------
// Lemmas
// ---------------------------------------------------------------------------

/// A string of hex digits (no whitespace) decodes to their values, one
/// nibble per character.
pub proof fn lemma_hex_nibbles_of_digits(s: Seq<char>)
    requires
        forall|i: int| 0 <= i < s.len() ==> (#[trigger] hex_value(s[i])) is Some,
    ensures
        hex_nibbles(s) == Some(Seq::new(s.len(), |i: int| hex_value(s[i])->0)),
    decreases s.len(),
{
    if s.len() > 0 {
        assert(hex_value(s[0]) is Some);
        assert(!is_hex_space(s[0]));
        let t = s.drop_first();
        assert forall|i: int| 0 <= i < t.len() implies (#[trigger] hex_value(t[i])) is Some by {
            assert(t[i] == s[i + 1]);
            assert(hex_value(s[i + 1]) is Some);
        }
        lemma_hex_nibbles_of_digits(t);
        let expect = Seq::new(s.len(), |i: int| hex_value(s[i])->0);
        let got = seq![hex_value(s[0])->0] + Seq::new(t.len(), |i: int| hex_value(t[i])->0);
        assert(got =~= expect);
    }
}

/// Every lowercase hex digit decodes back to its nibble.
pub proof fn lemma_hex_char_value(n: nat)
    requires
        n < 16,
    ensures
        hex_value(hex_char(n)) == Some(n as u8),
        !is_hex_space(hex_char(n)),
{
}

/// Decoding what `prefixed_hex` prints gives the bytes back.
pub proof fn lemma_parse_prefixed_hex(bytes: Seq<u8>)
    requires
        bytes.len() == 20,
    ensures
        parse_hex20(prefixed_hex(bytes)) == Some(bytes),
{
    let h = hex_lower(bytes);
    let s = prefixed_hex(bytes);
    assert(s[0] == '0' && s[1] == 'x');
    assert(s.skip(2) =~= h);
    assert forall|i: int| 0 <= i < h.len() implies (#[trigger] hex_value(h[i])) is Some by {
        if i % 2 == 0 {
            lemma_hex_char_value((bytes[i / 2] / 16) as nat);
        } else {
            lemma_hex_char_value((bytes[i / 2] % 16) as nat);
        }
    }
    lemma_hex_nibbles_of_digits(h);
    let n = Seq::new(h.len(), |i: int| hex_value(h[i])->0);
    assert(n.len() == 40);
    assert forall|j: int| 0 <= j < 20 implies #[trigger] pack_nibbles(n)[j] == bytes[j] by {
        lemma_hex_char_value((bytes[j] / 16) as nat);
        lemma_hex_char_value((bytes[j] % 16) as nat);
        assert((2 * j) % 2 == 0);
        assert((2 * j + 1) % 2 == 1);
        assert((2 * j) / 2 == j);
        assert((2 * j + 1) / 2 == j);
        assert(n[2 * j] == bytes[j] / 16);
        assert(n[2 * j + 1] == bytes[j] % 16);
    }
    assert(pack_nibbles(n) =~= bytes);
}

/// A `0x` followed by exactly forty hex digits decodes.
pub proof fn lemma_parse_plain_hex20(s: Seq<char>)
    requires
        s.len() == 42,
        s[0] == '0',
        s[1] == 'x',
        forall|i: int| 2 <= i < 42 ==> (#[trigger] hex_value(s[i])) is Some,
    ensures
        parse_hex20(s) is Some,
{
    let t = s.skip(2);
    assert forall|i: int| 0 <= i < t.len() implies (#[trigger] hex_value(t[i])) is Some by {
        assert(t[i] == s[i + 2]);
    }
    lemma_hex_nibbles_of_digits(t);
}

} // verus!
