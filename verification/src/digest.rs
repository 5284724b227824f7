//! Deterministic 64-bit digests: FNV-1a over bytes, the SplitMix finaliser,
//! and bit rotation.
use vstd::prelude::*;

verus! {

/// The FNV-1a offset basis.
pub const FNV_OFFSET: u64 = 0xcbf2_9ce4_8422_2325u64;

/// The FNV-1a prime.
pub const FNV_PRIME: u64 = 0x0000_0100_0000_01b3u64;

/// One FNV-1a step: xor the byte in, multiply by the prime modulo 2^64.
pub open spec fn fnv_step(h: u64, b: u8) -> u64 {
    (h ^ (b as u64)).wrapping_mul(FNV_PRIME)
}

/// FNV-1a continued from state `h` over `bytes`.
pub open spec fn fnv_extend(h: u64, bytes: Seq<u8>) -> u64
    decreases bytes.len(),
{
    if bytes.len() == 0 {
        h
    } else {
        fnv_step(fnv_extend(h, bytes.drop_last()), bytes.last())
    }
}

/// Executable FNV-1a continuation.
pub fn fnv_extend_exec(h: u64, bytes: &[u8]) -> (r: u64)
    ensures
        r == fnv_extend(h, bytes@),
{
    let mut acc: u64 = h;
    let mut i: usize = 0;
    while i < bytes.len()
        invariant
            i <= bytes@.len(),
            acc == fnv_extend(h, bytes@.subrange(0, i as int)),
        decreases bytes@.len() - i,
    {
        assert(bytes@.subrange(0, i as int + 1).drop_last() =~= bytes@.subrange(0, i as int));
        acc = (acc ^ (bytes[i] as u64)).wrapping_mul(FNV_PRIME);
        i = i + 1;
    }
    assert(bytes@.subrange(0, bytes@.len() as int) =~= bytes@);
    acc
}

/// FNV-1a of a whole byte string.
pub open spec fn fnv1a(bytes: Seq<u8>) -> u64 {
    fnv_extend(FNV_OFFSET, bytes)
}

/// FNV-1a of the UTF-8 encoding of a text.
pub open spec fn hash_text_spec(text: Seq<char>) -> u64 {
    fnv1a(vstd::utf8::encode_utf8(text))
}

/// FNV-1a of the UTF-8 bytes of `text`.
pub fn hash_text(text: &str) -> (r: u64)
    ensures
        r == hash_text_spec(text@),
{
    let bytes = text.as_bytes();
    fnv_extend_exec(FNV_OFFSET, bytes)
}

/// The SplitMix64 finaliser.
#[verifier::opaque]
pub open spec fn mix64_spec(value: u64) -> u64 {
    let a = value ^ (value >> 30u64);
    let b = a.wrapping_mul(0xbf58_476d_1ce4_e5b9u64);
    let c = b ^ (b >> 27u64);
    let d = c.wrapping_mul(0x94d0_49bb_1331_11ebu64);
    d ^ (d >> 31u64)
}

/// The SplitMix64 finaliser.
pub fn mix64(value: u64) -> (r: u64)
    ensures
        r == mix64_spec(value),
{
    reveal(mix64_spec);
    let mut v = value;
    v = v ^ (v >> 30u64);
    v = v.wrapping_mul(0xbf58_476d_1ce4_e5b9u64);
    v = v ^ (v >> 27u64);
    v = v.wrapping_mul(0x94d0_49bb_1331_11ebu64);
    v ^ (v >> 31u64)
}

/// Left rotation of a 64-bit word by `k` bits, `0 < k < 64`.
#[verifier::opaque]
pub open spec fn rotl_spec(x: u64, k: u64) -> u64 {
    (x << k) | (x >> (64u64 - k) as u64)
}

/// Left rotation of a 64-bit word by `k` bits, `0 < k < 64`.
pub fn rotl(x: u64, k: u64) -> (r: u64)
    requires
        0 < k < 64,
    ensures
        r == rotl_spec(x, k),
{
    reveal(rotl_spec);
    (x << k) | (x >> (64u64 - k))
}


/// The lowercase hexadecimal digit of a value below 16.
pub open spec fn hex_digit(d: u64) -> char {
    if d < 10 {
        (('0' as u64) + d) as char
    } else {
        (('a' as u64) + d - 10) as char
    }
}

/// The 4-bit group of `v` at position `k`, counted from the least
/// significant.
pub open spec fn nibble(v: u64, k: int) -> u64 {
    (v >> ((4 * k) as u64)) & 15
}

/// `format!("{:016x}", v)`: sixteen lowercase hexadecimal digits, the most
/// significant first.
pub open spec fn hex16_spec(v: u64) -> Seq<char> {
    Seq::new(16, |i: int| hex_digit(nibble(v, 15 - i)))
}

/// The hexadecimal digit of a value below 16.
fn hex_digit_exec(d: u64) -> (c: char)
    requires
        d < 16,
    ensures
        c == hex_digit(d),
{
    if d < 10 {
        let b = (d as u8) + 48;
        b as char
    } else {
        let b = (d as u8) + 87;
        b as char
    }
}

/// Sixteen lowercase hexadecimal digits of a value, the most significant
/// first.
pub fn hex16(v: u64) -> (s: String)
    ensures
        s@ == hex16_spec(v),
{
    let mut digits: Vec<char> = Vec::new();
    let mut i: usize = 0;
    while i < 16
        invariant
            i <= 16,
            digits@ == hex16_spec(v).subrange(0, i as int),
        decreases 16 - i,
    {
        let shift: u64 = 4 * (15 - i as u64);
        let d = (v >> shift) & 15;
        assert(d < 16) by (bit_vector)
            requires
                d == (v >> shift) & 15,
        ;
        digits.push(hex_digit_exec(d));
        i = i + 1;
        assert(digits@ =~= hex16_spec(v).subrange(0, i as int));
    }
    assert(hex16_spec(v).subrange(0, 16) =~= hex16_spec(v));
    crate::text::string_from_chars(digits.as_slice())
}

/// `u64::to_le_bytes`: the eight bytes of a value, the least significant
/// first.
pub open spec fn le_bytes_spec(v: u64) -> Seq<u8> {
    Seq::new(8, |k: int| ((v >> ((8 * k) as u64)) & 0xff) as u8)
}

/// The eight bytes of a value, the least significant first.
pub fn le_bytes(v: u64) -> (b: Vec<u8>)
    ensures
        b@ == le_bytes_spec(v),
{
    let mut out: Vec<u8> = Vec::new();
    let mut k: usize = 0;
    while k < 8
        invariant
            k <= 8,
            out@ == le_bytes_spec(v).subrange(0, k as int),
        decreases 8 - k,
    {
        let shift: u64 = 8 * (k as u64);
        let byte = (v >> shift) & 0xff;
        assert(byte < 256) by (bit_vector)
            requires
                byte == (v >> shift) & 0xff,
        ;
        out.push(byte as u8);
        k = k + 1;
        assert(out@ =~= le_bytes_spec(v).subrange(0, k as int));
    }
    assert(le_bytes_spec(v).subrange(0, 8) =~= le_bytes_spec(v));
    out
}

} // verus!
