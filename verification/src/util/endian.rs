//! Multi-byte integers in a declared byte order, independent of the host.

use vstd::prelude::*;
use vstd::arithmetic::div_mod::{lemma_fundamental_div_mod, lemma_fundamental_div_mod_converse};

verus! {

/// The 16-bit value whose little-endian encoding is `b0, b1`.
pub open spec fn spec_u16_le(b0: u8, b1: u8) -> u16 {
    (b0 as int + 256 * (b1 as int)) as u16
}

/// The 32-bit value whose little-endian encoding is `b0, b1, b2, b3`.
pub open spec fn spec_u32_le(b0: u8, b1: u8, b2: u8, b3: u8) -> u32 {
    (b0 as int + 256 * (b1 as int) + 65536 * (b2 as int) + 16777216 * (b3 as int)) as u32
}

/// The little-endian 16-bit value stored at `pos` in `data`.
pub open spec fn le16(data: Seq<u8>, pos: int) -> u16 {
    spec_u16_le(data[pos], data[pos + 1])
}

/// The little-endian 32-bit value stored at `pos` in `data`.
pub open spec fn le32(data: Seq<u8>, pos: int) -> u32 {
    spec_u32_le(data[pos], data[pos + 1], data[pos + 2], data[pos + 3])
}

/// The bytes of a little-endian 16-bit value are its remainder and quotient by 256.
pub proof fn lemma_u16_le_bytes(b0: u8, b1: u8)
    ensures
        spec_u16_le(b0, b1) % 256 == b0,
        spec_u16_le(b0, b1) / 256 == b1,
{
}

/// The bytes of a little-endian 32-bit value are its base-256 digits, lowest first.
pub proof fn lemma_u32_le_bytes(b0: u8, b1: u8, b2: u8, b3: u8)
    ensures
        spec_u32_le(b0, b1, b2, b3) % 256 == b0,
        spec_u32_le(b0, b1, b2, b3) / 256 % 256 == b1,
        spec_u32_le(b0, b1, b2, b3) / 65536 % 256 == b2,
        spec_u32_le(b0, b1, b2, b3) / 16777216 == b3,
{
    let v = spec_u32_le(b0, b1, b2, b3) as int;
    let upper3 = b1 as int + 256 * (b2 as int) + 65536 * (b3 as int);
    let upper2 = b2 as int + 256 * (b3 as int);
    lemma_fundamental_div_mod_converse(v, 256, upper3, b0 as int);
    lemma_fundamental_div_mod_converse(upper3, 256, upper2, b1 as int);
    lemma_fundamental_div_mod_converse(v, 65536, upper2, b0 as int + 256 * (b1 as int));
    lemma_fundamental_div_mod_converse(upper2, 256, b3 as int, b2 as int);
    lemma_fundamental_div_mod_converse(
        v,
        16777216,
        b3 as int,
        b0 as int + 256 * (b1 as int) + 65536 * (b2 as int),
    );
}

/// Assembles a 16-bit value from its little-endian bytes.
pub fn u16_from_le(b0: u8, b1: u8) -> (v: u16)
    ensures
        v == spec_u16_le(b0, b1),
        v as int == b0 as int + 256 * (b1 as int),
{
    (b0 as u16) + (b1 as u16) * 256
}

/// Assembles a 32-bit value from its little-endian bytes.
pub fn u32_from_le(b0: u8, b1: u8, b2: u8, b3: u8) -> (v: u32)
    ensures
        v == spec_u32_le(b0, b1, b2, b3),
        v as int == b0 as int + 256 * (b1 as int) + 65536 * (b2 as int) + 16777216 * (b3 as int),
{
    (b0 as u32) + (b1 as u32) * 256 + (b2 as u32) * 65536 + (b3 as u32) * 16777216
}

/// Reads the little-endian 16-bit value at `pos` of `buf`.
pub fn u16_le_at(buf: &[u8], pos: usize) -> (v: u16)
    requires
        pos + 2 <= buf@.len(),
    ensures
        v == le16(buf@, pos as int),
{
    u16_from_le(buf[pos], buf[pos + 1])
}

/// Reads the little-endian 32-bit value at `pos` of `buf`.
pub fn u32_le_at(buf: &[u8], pos: usize) -> (v: u32)
    requires
        pos + 4 <= buf@.len(),
    ensures
        v == le32(buf@, pos as int),
{
    u32_from_le(buf[pos], buf[pos + 1], buf[pos + 2], buf[pos + 3])
}

/// The two bytes of `v`, low byte first.
pub open spec fn spec_le_bytes16(v: u16) -> Seq<u8> {
    seq![(v % 256) as u8, (v / 256) as u8]
}

/// The four bytes of `v`, low byte first.
pub open spec fn spec_le_bytes32(v: u32) -> Seq<u8> {
    seq![(v % 256) as u8, (v / 256 % 256) as u8, (v / 65536 % 256) as u8, (v / 16777216) as u8]
}

/// The eight bytes of `v`, low byte first: those of its low half, then those of its high half.
pub open spec fn spec_le_bytes64(v: u64) -> Seq<u8> {
    spec_le_bytes32((v % 0x1_0000_0000) as u32) + spec_le_bytes32((v / 0x1_0000_0000) as u32)
}

/// The sixteen bytes of `v`, low byte first: those of its low half, then those of its high half.
pub open spec fn spec_le_bytes128(v: u128) -> Seq<u8> {
    spec_le_bytes64((v % 0x1_0000_0000_0000_0000) as u64) + spec_le_bytes64(
        (v / 0x1_0000_0000_0000_0000) as u64,
    )
}

/// The value of the two bytes `b`, low byte first.
pub open spec fn spec_le_value16(b: Seq<u8>) -> u16 {
    spec_u16_le(b[0], b[1])
}

/// The value of the four bytes `b`, low byte first.
pub open spec fn spec_le_value32(b: Seq<u8>) -> u32 {
    spec_u32_le(b[0], b[1], b[2], b[3])
}

/// The value of the eight bytes `b`, low byte first.
pub open spec fn spec_le_value64(b: Seq<u8>) -> u64 {
    (spec_u32_le(b[0], b[1], b[2], b[3]) as int + 0x1_0000_0000 * (spec_u32_le(
        b[4],
        b[5],
        b[6],
        b[7],
    ) as int)) as u64
}

/// The value of the sixteen bytes `b`, low byte first.
pub open spec fn spec_le_value128(b: Seq<u8>) -> u128 {
    (spec_le_value64(b.subrange(0, 8)) as int + 0x1_0000_0000_0000_0000 * (spec_le_value64(
        b.subrange(8, 16),
    ) as int)) as u128
}

/// A 32-bit value is made of its four base-256 digits.
proof fn lemma_u32_of_digits(v: u32)
    ensures
        spec_u32_le(
            (v % 256) as u8,
            (v / 256 % 256) as u8,
            (v / 65536 % 256) as u8,
            (v / 16777216) as u8,
        ) == v,
{
    let d0 = v % 256;
    let d1 = v / 256 % 256;
    let d2 = v / 65536 % 256;
    let d3 = v / 16777216;
    assert(d0 + 256 * d1 + 65536 * d2 + 16777216 * d3 == v) by (bit_vector)
        requires
            d0 == v % 256,
            d1 == v / 256 % 256,
            d2 == v / 65536 % 256,
            d3 == v / 16777216,
    ;
}

/// The value of eight bytes is made of the values of their halves.
proof fn lemma_le_value64_of_halves(lo: u32, hi: u32)
    ensures
        spec_le_value64(spec_le_bytes32(lo) + spec_le_bytes32(hi)) == lo as int + 0x1_0000_0000 * (
        hi as int),
{
    let low = spec_le_bytes32(lo);
    let high = spec_le_bytes32(hi);
    let b = low + high;
    lemma_u32_of_digits(lo);
    lemma_u32_of_digits(hi);
    assert(b[0] == low[0] && b[1] == low[1] && b[2] == low[2] && b[3] == low[3]);
    assert(b[4] == high[0] && b[5] == high[1] && b[6] == high[2] && b[7] == high[3]);
    assert(spec_u32_le(b[0], b[1], b[2], b[3]) == lo);
    assert(spec_u32_le(b[4], b[5], b[6], b[7]) == hi);
}

/// Encoding a 16-bit value and decoding the bytes gives the value back.
pub proof fn lemma_le_value16_of_bytes(v: u16)
    ensures
        spec_le_bytes16(v).len() == 2,
        spec_le_value16(spec_le_bytes16(v)) == v,
{
}

/// Encoding a 32-bit value and decoding the bytes gives the value back.
pub proof fn lemma_le_value32_of_bytes(v: u32)
    ensures
        spec_le_bytes32(v).len() == 4,
        spec_le_value32(spec_le_bytes32(v)) == v,
{
    lemma_u32_of_digits(v);
}

/// Encoding a 128-bit value and decoding the bytes gives the value back.
pub proof fn lemma_le_value128_of_bytes(v: u128)
    ensures
        spec_le_bytes128(v).len() == 16,
        spec_le_value128(spec_le_bytes128(v)) == v,
{
    let lo = (v % 0x1_0000_0000_0000_0000) as u64;
    let hi = (v / 0x1_0000_0000_0000_0000) as u64;
    lemma_le_value64_of_bytes(lo);
    lemma_le_value64_of_bytes(hi);
    lemma_halves_of_joined(spec_le_bytes64(lo), spec_le_bytes64(hi));
    lemma_fundamental_div_mod(v as int, 0x1_0000_0000_0000_0000);
}

/// Two sequences of eight bytes, joined, fall apart into the two again.
proof fn lemma_halves_of_joined(low: Seq<u8>, high: Seq<u8>)
    requires
        low.len() == 8,
        high.len() == 8,
    ensures
        (low + high).len() == 16,
        (low + high).subrange(0, 8) == low,
        (low + high).subrange(8, 16) == high,
{
    assert((low + high).subrange(0, 8) =~= low);
    assert((low + high).subrange(8, 16) =~= high);
}

/// Encoding a 64-bit value and decoding the bytes gives the value back.
pub proof fn lemma_le_value64_of_bytes(v: u64)
    ensures
        spec_le_bytes64(v).len() == 8,
        spec_le_value64(spec_le_bytes64(v)) == v,
{
    let lo = (v % 0x1_0000_0000) as u32;
    let hi = (v / 0x1_0000_0000) as u32;
    lemma_le_value64_of_halves(lo, hi);
    lemma_fundamental_div_mod(v as int, 0x1_0000_0000);
}

/// Decoding two bytes and encoding the value gives the bytes back.
pub proof fn lemma_le_bytes16_of_value(b: Seq<u8>)
    requires
        b.len() == 2,
    ensures
        spec_le_bytes16(spec_le_value16(b)) == b,
{
    lemma_u16_le_bytes(b[0], b[1]);
    assert(spec_le_bytes16(spec_le_value16(b)) =~= b);
}

/// Decoding four bytes and encoding the value gives the bytes back.
pub proof fn lemma_le_bytes32_of_value(b: Seq<u8>)
    requires
        b.len() == 4,
    ensures
        spec_le_bytes32(spec_le_value32(b)) == b,
{
    lemma_u32_le_bytes(b[0], b[1], b[2], b[3]);
    assert(spec_le_bytes32(spec_le_value32(b)) =~= b);
}

/// Decoding eight bytes and encoding the value gives the bytes back.
pub proof fn lemma_le_bytes64_of_value(b: Seq<u8>)
    requires
        b.len() == 8,
    ensures
        spec_le_bytes64(spec_le_value64(b)) == b,
{
    let lo = spec_u32_le(b[0], b[1], b[2], b[3]);
    let hi = spec_u32_le(b[4], b[5], b[6], b[7]);
    let v = spec_le_value64(b);
    lemma_fundamental_div_mod_converse(v as int, 0x1_0000_0000, hi as int, lo as int);
    lemma_le_bytes32_of_value(b.subrange(0, 4));
    lemma_le_bytes32_of_value(b.subrange(4, 8));
    assert(spec_le_value32(b.subrange(0, 4)) == lo);
    assert(spec_le_value32(b.subrange(4, 8)) == hi);
    assert(b.subrange(0, 4) + b.subrange(4, 8) =~= b);
}

/// Decoding sixteen bytes and encoding the value gives the bytes back.
pub proof fn lemma_le_bytes128_of_value(b: Seq<u8>)
    requires
        b.len() == 16,
    ensures
        spec_le_bytes128(spec_le_value128(b)) == b,
{
    let lo = spec_le_value64(b.subrange(0, 8));
    let hi = spec_le_value64(b.subrange(8, 16));
    let v = spec_le_value128(b);
    lemma_fundamental_div_mod_converse(
        v as int,
        0x1_0000_0000_0000_0000,
        hi as int,
        lo as int,
    );
    lemma_le_bytes64_of_value(b.subrange(0, 8));
    lemma_le_bytes64_of_value(b.subrange(8, 16));
    assert(b.subrange(0, 8) + b.subrange(8, 16) =~= b);
}

/// Encodes `v` in two bytes, low byte first.
pub fn u16_to_le_bytes(v: u16) -> (b: [u8; 2])
    ensures
        b@ == spec_le_bytes16(v),
{
    let b: [u8; 2] = [(v % 256) as u8, (v / 256) as u8];
    assert(b@ =~= spec_le_bytes16(v));
    b
}

/// Encodes `v` in four bytes, low byte first.
pub fn u32_to_le_bytes(v: u32) -> (b: [u8; 4])
    ensures
        b@ == spec_le_bytes32(v),
{
    let b: [u8; 4] = [
        (v % 256) as u8,
        (v / 256 % 256) as u8,
        (v / 65536 % 256) as u8,
        (v / 16777216) as u8,
    ];
    assert(b@ =~= spec_le_bytes32(v));
    b
}

/// Encodes `v` in eight bytes, low byte first.
pub fn u64_to_le_bytes(v: u64) -> (b: [u8; 8])
    ensures
        b@ == spec_le_bytes64(v),
{
    let lo = u32_to_le_bytes((v % 0x1_0000_0000) as u32);
    let hi = u32_to_le_bytes((v / 0x1_0000_0000) as u32);
    let b: [u8; 8] = [lo[0], lo[1], lo[2], lo[3], hi[0], hi[1], hi[2], hi[3]];
    assert(b@ =~= spec_le_bytes64(v));
    b
}

/// Encodes `v` in sixteen bytes, low byte first.
pub fn u128_to_le_bytes(v: u128) -> (b: [u8; 16])
    ensures
        b@ == spec_le_bytes128(v),
{
    let lo = u64_to_le_bytes((v % 0x1_0000_0000_0000_0000) as u64);
    let hi = u64_to_le_bytes((v / 0x1_0000_0000_0000_0000) as u64);
    let b: [u8; 16] = [
        lo[0],
        lo[1],
        lo[2],
        lo[3],
        lo[4],
        lo[5],
        lo[6],
        lo[7],
        hi[0],
        hi[1],
        hi[2],
        hi[3],
        hi[4],
        hi[5],
        hi[6],
        hi[7],
    ];
    assert(b@ =~= spec_le_bytes128(v));
    b
}

/// Decodes two bytes, low byte first.
pub fn u16_from_le_bytes(b: &[u8; 2]) -> (v: u16)
    ensures
        v == spec_le_value16(b@),
{
    u16_from_le(b[0], b[1])
}

/// Decodes four bytes, low byte first.
pub fn u32_from_le_bytes(b: &[u8; 4]) -> (v: u32)
    ensures
        v == spec_le_value32(b@),
{
    u32_from_le(b[0], b[1], b[2], b[3])
}

/// Decodes eight bytes, low byte first.
pub fn u64_from_le_bytes(b: &[u8; 8]) -> (v: u64)
    ensures
        v == spec_le_value64(b@),
{
    let lo = u32_from_le(b[0], b[1], b[2], b[3]);
    let hi = u32_from_le(b[4], b[5], b[6], b[7]);
    (lo as u64) + (hi as u64) * 0x1_0000_0000
}

/// Decodes sixteen bytes, low byte first.
pub fn u128_from_le_bytes(b: &[u8; 16]) -> (v: u128)
    ensures
        v == spec_le_value128(b@),
{
    let lo_bytes: [u8; 8] = [b[0], b[1], b[2], b[3], b[4], b[5], b[6], b[7]];
    let hi_bytes: [u8; 8] = [b[8], b[9], b[10], b[11], b[12], b[13], b[14], b[15]];
    assert(lo_bytes@ =~= b@.subrange(0, 8));
    assert(hi_bytes@ =~= b@.subrange(8, 16));
    let lo = u64_from_le_bytes(&lo_bytes);
    let hi = u64_from_le_bytes(&hi_bytes);
    (lo as u128) + (hi as u128) * 0x1_0000_0000_0000_0000
}

/// A 16-bit value held as its 2 bytes, low byte first.
#[derive(Debug, Clone, Copy, PartialEq, Eq, Hash)]
pub struct Lu16 {
    pub bytes: [u8; 2],
}

impl Lu16 {
    /// The wrapper of `value`: its bytes, low byte first.
    pub open spec fn spec_new(value: u16) -> Lu16 {
        let b = spec_le_bytes16(value);
        Lu16 { bytes: [b[0], b[1]] }
    }

    /// The value that the bytes stand for.
    pub open spec fn spec_value(self) -> u16 {
        spec_le_value16(self.bytes@)
    }

    /// Wraps `value`.
    pub fn new(value: u16) -> (wrapped: Self)
        ensures
            wrapped == Self::spec_new(value),
            wrapped.bytes@ == spec_le_bytes16(value),
            wrapped.spec_value() == value,
    {
        proof {
            lemma_le_value16_of_bytes(value);
        }
        let wrapped = Lu16 { bytes: u16_to_le_bytes(value) };
        assert(wrapped.bytes =~= Self::spec_new(value).bytes);
        wrapped
    }

    /// The value that the bytes stand for.
    pub fn value(self) -> (value: u16)
        ensures
            value == self.spec_value(),
    {
        u16_from_le_bytes(&self.bytes)
    }
}

/// A 16-bit value held as its 2 bytes, high byte first.
#[derive(Debug, Clone, Copy, PartialEq, Eq, Hash)]
pub struct Bu16 {
    pub bytes: [u8; 2],
}

impl Bu16 {
    /// The wrapper of `value`: its bytes, high byte first.
    pub open spec fn spec_new(value: u16) -> Bu16 {
        let b = spec_le_bytes16(value);
        Bu16 { bytes: [b[1], b[0]] }
    }

    /// The value that the bytes stand for: that of the bytes in reverse order, low byte first.
    pub open spec fn spec_value(self) -> u16 {
        spec_le_value16(self.bytes@.reverse())
    }

    /// Wraps `value`.
    pub fn new(value: u16) -> (wrapped: Self)
        ensures
            wrapped == Self::spec_new(value),
            wrapped.bytes@ == spec_le_bytes16(value).reverse(),
            wrapped.spec_value() == value,
    {
        proof {
            lemma_le_value16_of_bytes(value);
        }
        let le = u16_to_le_bytes(value);
        let bytes: [u8; 2] = [le[1], le[0]];
        assert(bytes@ =~= le@.reverse());
        assert(bytes@.reverse() =~= le@);
        assert(bytes =~= Self::spec_new(value).bytes);
        Bu16 { bytes }
    }

    /// The value that the bytes stand for.
    pub fn value(self) -> (value: u16)
        ensures
            value == self.spec_value(),
    {
        let le: [u8; 2] = [self.bytes[1], self.bytes[0]];
        assert(le@ =~= self.bytes@.reverse());
        u16_from_le_bytes(&le)
    }
}

/// A 32-bit value held as its 4 bytes, low byte first.
#[derive(Debug, Clone, Copy, PartialEq, Eq, Hash)]
pub struct Lu32 {
    pub bytes: [u8; 4],
}

impl Lu32 {
    /// The wrapper of `value`: its bytes, low byte first.
    pub open spec fn spec_new(value: u32) -> Lu32 {
        let b = spec_le_bytes32(value);
        Lu32 { bytes: [b[0], b[1], b[2], b[3]] }
    }

    /// The value that the bytes stand for.
    pub open spec fn spec_value(self) -> u32 {
        spec_le_value32(self.bytes@)
    }

    /// Wraps `value`.
    pub fn new(value: u32) -> (wrapped: Self)
        ensures
            wrapped == Self::spec_new(value),
            wrapped.bytes@ == spec_le_bytes32(value),
            wrapped.spec_value() == value,
    {
        proof {
            lemma_le_value32_of_bytes(value);
        }
        let wrapped = Lu32 { bytes: u32_to_le_bytes(value) };
        assert(wrapped.bytes =~= Self::spec_new(value).bytes);
        wrapped
    }

    /// The value that the bytes stand for.
    pub fn value(self) -> (value: u32)
        ensures
            value == self.spec_value(),
    {
        u32_from_le_bytes(&self.bytes)
    }
}

/// A 32-bit value held as its 4 bytes, high byte first.
#[derive(Debug, Clone, Copy, PartialEq, Eq, Hash)]
pub struct Bu32 {
    pub bytes: [u8; 4],
}

impl Bu32 {
    /// The wrapper of `value`: its bytes, high byte first.
    pub open spec fn spec_new(value: u32) -> Bu32 {
        let b = spec_le_bytes32(value);
        Bu32 { bytes: [b[3], b[2], b[1], b[0]] }
    }

    /// The value that the bytes stand for: that of the bytes in reverse order, low byte first.
    pub open spec fn spec_value(self) -> u32 {
        spec_le_value32(self.bytes@.reverse())
    }

    /// Wraps `value`.
    pub fn new(value: u32) -> (wrapped: Self)
        ensures
            wrapped == Self::spec_new(value),
            wrapped.bytes@ == spec_le_bytes32(value).reverse(),
            wrapped.spec_value() == value,
    {
        proof {
            lemma_le_value32_of_bytes(value);
        }
        let le = u32_to_le_bytes(value);
        let bytes: [u8; 4] = [le[3], le[2], le[1], le[0]];
        assert(bytes@ =~= le@.reverse());
        assert(bytes@.reverse() =~= le@);
        assert(bytes =~= Self::spec_new(value).bytes);
        Bu32 { bytes }
    }

    /// The value that the bytes stand for.
    pub fn value(self) -> (value: u32)
        ensures
            value == self.spec_value(),
    {
        let le: [u8; 4] = [self.bytes[3], self.bytes[2], self.bytes[1], self.bytes[0]];
        assert(le@ =~= self.bytes@.reverse());
        u32_from_le_bytes(&le)
    }
}

/// A 64-bit value held as its 8 bytes, low byte first.
#[derive(Debug, Clone, Copy, PartialEq, Eq, Hash)]
pub struct Lu64 {
    pub bytes: [u8; 8],
}

impl Lu64 {
    /// The wrapper of `value`: its bytes, low byte first.
    pub open spec fn spec_new(value: u64) -> Lu64 {
        let b = spec_le_bytes64(value);
        Lu64 { bytes: [b[0], b[1], b[2], b[3], b[4], b[5], b[6], b[7]] }
    }

    /// The value that the bytes stand for.
    pub open spec fn spec_value(self) -> u64 {
        spec_le_value64(self.bytes@)
    }

    /// Wraps `value`.
    pub fn new(value: u64) -> (wrapped: Self)
        ensures
            wrapped == Self::spec_new(value),
            wrapped.bytes@ == spec_le_bytes64(value),
            wrapped.spec_value() == value,
    {
        proof {
            lemma_le_value64_of_bytes(value);
        }
        let wrapped = Lu64 { bytes: u64_to_le_bytes(value) };
        assert(wrapped.bytes =~= Self::spec_new(value).bytes);
        wrapped
    }

    /// The value that the bytes stand for.
    pub fn value(self) -> (value: u64)
        ensures
            value == self.spec_value(),
    {
        u64_from_le_bytes(&self.bytes)
    }
}

/// A 64-bit value held as its 8 bytes, high byte first.
#[derive(Debug, Clone, Copy, PartialEq, Eq, Hash)]
pub struct Bu64 {
    pub bytes: [u8; 8],
}

impl Bu64 {
    /// The wrapper of `value`: its bytes, high byte first.
    pub open spec fn spec_new(value: u64) -> Bu64 {
        let b = spec_le_bytes64(value);
        Bu64 { bytes: [b[7], b[6], b[5], b[4], b[3], b[2], b[1], b[0]] }
    }

    /// The value that the bytes stand for: that of the bytes in reverse order, low byte first.
    pub open spec fn spec_value(self) -> u64 {
        spec_le_value64(self.bytes@.reverse())
    }

    /// Wraps `value`.
    pub fn new(value: u64) -> (wrapped: Self)
        ensures
            wrapped == Self::spec_new(value),
            wrapped.bytes@ == spec_le_bytes64(value).reverse(),
            wrapped.spec_value() == value,
    {
        proof {
            lemma_le_value64_of_bytes(value);
        }
        let le = u64_to_le_bytes(value);
        let bytes: [u8; 8] = [le[7], le[6], le[5], le[4], le[3], le[2], le[1], le[0]];
        assert(bytes@ =~= le@.reverse());
        assert(bytes@.reverse() =~= le@);
        assert(bytes =~= Self::spec_new(value).bytes);
        Bu64 { bytes }
    }

    /// The value that the bytes stand for.
    pub fn value(self) -> (value: u64)
        ensures
            value == self.spec_value(),
    {
        let le: [u8; 8] = [
            self.bytes[7], self.bytes[6], self.bytes[5], self.bytes[4], self.bytes[3],
            self.bytes[2], self.bytes[1], self.bytes[0],
        ];
        assert(le@ =~= self.bytes@.reverse());
        u64_from_le_bytes(&le)
    }
}

/// A 128-bit value held as its 16 bytes, low byte first.
#[derive(Debug, Clone, Copy, PartialEq, Eq, Hash)]
pub struct Lu128 {
    pub bytes: [u8; 16],
}

impl Lu128 {
    /// The wrapper of `value`: its bytes, low byte first.
    pub open spec fn spec_new(value: u128) -> Lu128 {
        let b = spec_le_bytes128(value);
        Lu128 { bytes: [
            b[0], b[1], b[2], b[3], b[4], b[5], b[6], b[7], b[8], b[9], b[10], b[11], b[12],
            b[13], b[14], b[15],
        ] }
    }

    /// The value that the bytes stand for.
    pub open spec fn spec_value(self) -> u128 {
        spec_le_value128(self.bytes@)
    }

    /// Wraps `value`.
    pub fn new(value: u128) -> (wrapped: Self)
        ensures
            wrapped == Self::spec_new(value),
            wrapped.bytes@ == spec_le_bytes128(value),
            wrapped.spec_value() == value,
    {
        proof {
            lemma_le_value128_of_bytes(value);
        }
        let wrapped = Lu128 { bytes: u128_to_le_bytes(value) };
        assert(wrapped.bytes =~= Self::spec_new(value).bytes);
        wrapped
    }

    /// The value that the bytes stand for.
    pub fn value(self) -> (value: u128)
        ensures
            value == self.spec_value(),
    {
        u128_from_le_bytes(&self.bytes)
    }
}

/// A 128-bit value held as its 16 bytes, high byte first.
#[derive(Debug, Clone, Copy, PartialEq, Eq, Hash)]
pub struct Bu128 {
    pub bytes: [u8; 16],
}

impl Bu128 {
    /// The wrapper of `value`: its bytes, high byte first.
    pub open spec fn spec_new(value: u128) -> Bu128 {
        let b = spec_le_bytes128(value);
        Bu128 { bytes: [
            b[15], b[14], b[13], b[12], b[11], b[10], b[9], b[8], b[7], b[6], b[5], b[4], b[3],
            b[2], b[1], b[0],
        ] }
    }

    /// The value that the bytes stand for: that of the bytes in reverse order, low byte first.
    pub open spec fn spec_value(self) -> u128 {
        spec_le_value128(self.bytes@.reverse())
    }

    /// Wraps `value`.
    pub fn new(value: u128) -> (wrapped: Self)
        ensures
            wrapped == Self::spec_new(value),
            wrapped.bytes@ == spec_le_bytes128(value).reverse(),
            wrapped.spec_value() == value,
    {
        proof {
            lemma_le_value128_of_bytes(value);
        }
        let le = u128_to_le_bytes(value);
        let bytes: [
            u8; 16] = [le[15], le[14], le[13], le[12], le[11], le[10], le[9], le[8], le[7],
            le[6], le[5], le[4], le[3], le[2], le[1], le[0],
        ];
        assert(bytes@ =~= le@.reverse());
        assert(bytes@.reverse() =~= le@);
        assert(bytes =~= Self::spec_new(value).bytes);
        Bu128 { bytes }
    }

    /// The value that the bytes stand for.
    pub fn value(self) -> (value: u128)
        ensures
            value == self.spec_value(),
    {
        let le: [u8; 16] = [
            self.bytes[15], self.bytes[14], self.bytes[13], self.bytes[12], self.bytes[11],
            self.bytes[10], self.bytes[9], self.bytes[8], self.bytes[7], self.bytes[6],
            self.bytes[5], self.bytes[4], self.bytes[3], self.bytes[2], self.bytes[1],
            self.bytes[0],
        ];
        assert(le@ =~= self.bytes@.reverse());
        u128_from_le_bytes(&le)
    }
}

impl From<u16> for Lu16 {
    fn from(value: u16) -> (wrapped: Self) {
        Lu16::new(value)
    }
}

impl vstd::std_specs::convert::FromSpecImpl<u16> for Lu16 {
    open spec fn obeys_from_spec() -> bool {
        true
    }

    open spec fn from_spec(value: u16) -> Lu16 {
        Lu16::spec_new(value)
    }
}

impl From<Lu16> for u16 {
    fn from(wrapped: Lu16) -> (value: Self) {
        wrapped.value()
    }
}

impl vstd::std_specs::convert::FromSpecImpl<Lu16> for u16 {
    open spec fn obeys_from_spec() -> bool {
        true
    }

    open spec fn from_spec(wrapped: Lu16) -> u16 {
        wrapped.spec_value()
    }
}

impl From<u16> for Bu16 {
    fn from(value: u16) -> (wrapped: Self) {
        Bu16::new(value)
    }
}

impl vstd::std_specs::convert::FromSpecImpl<u16> for Bu16 {
    open spec fn obeys_from_spec() -> bool {
        true
    }

    open spec fn from_spec(value: u16) -> Bu16 {
        Bu16::spec_new(value)
    }
}

impl From<Bu16> for u16 {
    fn from(wrapped: Bu16) -> (value: Self) {
        wrapped.value()
    }
}

impl vstd::std_specs::convert::FromSpecImpl<Bu16> for u16 {
    open spec fn obeys_from_spec() -> bool {
        true
    }

    open spec fn from_spec(wrapped: Bu16) -> u16 {
        wrapped.spec_value()
    }
}

impl From<u32> for Lu32 {
    fn from(value: u32) -> (wrapped: Self) {
        Lu32::new(value)
    }
}

impl vstd::std_specs::convert::FromSpecImpl<u32> for Lu32 {
    open spec fn obeys_from_spec() -> bool {
        true
    }

    open spec fn from_spec(value: u32) -> Lu32 {
        Lu32::spec_new(value)
    }
}

impl From<Lu32> for u32 {
    fn from(wrapped: Lu32) -> (value: Self) {
        wrapped.value()
    }
}

impl vstd::std_specs::convert::FromSpecImpl<Lu32> for u32 {
    open spec fn obeys_from_spec() -> bool {
        true
    }

    open spec fn from_spec(wrapped: Lu32) -> u32 {
        wrapped.spec_value()
    }
}

impl From<u32> for Bu32 {
    fn from(value: u32) -> (wrapped: Self) {
        Bu32::new(value)
    }
}

impl vstd::std_specs::convert::FromSpecImpl<u32> for Bu32 {
    open spec fn obeys_from_spec() -> bool {
        true
    }

    open spec fn from_spec(value: u32) -> Bu32 {
        Bu32::spec_new(value)
    }
}

impl From<Bu32> for u32 {
    fn from(wrapped: Bu32) -> (value: Self) {
        wrapped.value()
    }
}

impl vstd::std_specs::convert::FromSpecImpl<Bu32> for u32 {
    open spec fn obeys_from_spec() -> bool {
        true
    }

    open spec fn from_spec(wrapped: Bu32) -> u32 {
        wrapped.spec_value()
    }
}

impl From<u64> for Lu64 {
    fn from(value: u64) -> (wrapped: Self) {
        Lu64::new(value)
    }
}

impl vstd::std_specs::convert::FromSpecImpl<u64> for Lu64 {
    open spec fn obeys_from_spec() -> bool {
        true
    }

    open spec fn from_spec(value: u64) -> Lu64 {
        Lu64::spec_new(value)
    }
}

impl From<Lu64> for u64 {
    fn from(wrapped: Lu64) -> (value: Self) {
        wrapped.value()
    }
}

impl vstd::std_specs::convert::FromSpecImpl<Lu64> for u64 {
    open spec fn obeys_from_spec() -> bool {
        true
    }

    open spec fn from_spec(wrapped: Lu64) -> u64 {
        wrapped.spec_value()
    }
}

impl From<u64> for Bu64 {
    fn from(value: u64) -> (wrapped: Self) {
        Bu64::new(value)
    }
}

impl vstd::std_specs::convert::FromSpecImpl<u64> for Bu64 {
    open spec fn obeys_from_spec() -> bool {
        true
    }

    open spec fn from_spec(value: u64) -> Bu64 {
        Bu64::spec_new(value)
    }
}

impl From<Bu64> for u64 {
    fn from(wrapped: Bu64) -> (value: Self) {
        wrapped.value()
    }
}

impl vstd::std_specs::convert::FromSpecImpl<Bu64> for u64 {
    open spec fn obeys_from_spec() -> bool {
        true
    }

    open spec fn from_spec(wrapped: Bu64) -> u64 {
        wrapped.spec_value()
    }
}

impl From<u128> for Lu128 {
    fn from(value: u128) -> (wrapped: Self) {
        Lu128::new(value)
    }
}

impl vstd::std_specs::convert::FromSpecImpl<u128> for Lu128 {
    open spec fn obeys_from_spec() -> bool {
        true
    }

    open spec fn from_spec(value: u128) -> Lu128 {
        Lu128::spec_new(value)
    }
}

impl From<Lu128> for u128 {
    fn from(wrapped: Lu128) -> (value: Self) {
        wrapped.value()
    }
}

impl vstd::std_specs::convert::FromSpecImpl<Lu128> for u128 {
    open spec fn obeys_from_spec() -> bool {
        true
    }

    open spec fn from_spec(wrapped: Lu128) -> u128 {
        wrapped.spec_value()
    }
}

impl From<u128> for Bu128 {
    fn from(value: u128) -> (wrapped: Self) {
        Bu128::new(value)
    }
}

impl vstd::std_specs::convert::FromSpecImpl<u128> for Bu128 {
    open spec fn obeys_from_spec() -> bool {
        true
    }

    open spec fn from_spec(value: u128) -> Bu128 {
        Bu128::spec_new(value)
    }
}

impl From<Bu128> for u128 {
    fn from(wrapped: Bu128) -> (value: Self) {
        wrapped.value()
    }
}

impl vstd::std_specs::convert::FromSpecImpl<Bu128> for u128 {
    open spec fn obeys_from_spec() -> bool {
        true
    }

    open spec fn from_spec(wrapped: Bu128) -> u128 {
        wrapped.spec_value()
    }
}

impl Default for Lu16 {
    /// The wrapper of zero.
    fn default() -> (wrapped: Self)
        ensures
            wrapped == Self::spec_new(0),
    {
        Lu16::new(0)
    }
}

impl Default for Bu16 {
    /// The wrapper of zero.
    fn default() -> (wrapped: Self)
        ensures
            wrapped == Self::spec_new(0),
    {
        Bu16::new(0)
    }
}

impl Default for Lu32 {
    /// The wrapper of zero.
    fn default() -> (wrapped: Self)
        ensures
            wrapped == Self::spec_new(0),
    {
        Lu32::new(0)
    }
}

impl Default for Bu32 {
    /// The wrapper of zero.
    fn default() -> (wrapped: Self)
        ensures
            wrapped == Self::spec_new(0),
    {
        Bu32::new(0)
    }
}

impl Default for Lu64 {
    /// The wrapper of zero.
    fn default() -> (wrapped: Self)
        ensures
            wrapped == Self::spec_new(0),
    {
        Lu64::new(0)
    }
}

impl Default for Bu64 {
    /// The wrapper of zero.
    fn default() -> (wrapped: Self)
        ensures
            wrapped == Self::spec_new(0),
    {
        Bu64::new(0)
    }
}

impl Default for Lu128 {
    /// The wrapper of zero.
    fn default() -> (wrapped: Self)
        ensures
            wrapped == Self::spec_new(0),
    {
        Lu128::new(0)
    }
}

impl Default for Bu128 {
    /// The wrapper of zero.
    fn default() -> (wrapped: Self)
        ensures
            wrapped == Self::spec_new(0),
    {
        Bu128::new(0)
    }
}

} // verus!
