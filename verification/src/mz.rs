//! The legacy loader header that every container starts with.

use vstd::prelude::*;
use crate::error::DecodeError;
use crate::util::endian::{le16, le32, u16_from_le, u16_le_at, u32_le_at};
use crate::util::reader::{reads_as, ByteReader};

verus! {

/// The two signature bytes `MZ`, read as a little-endian word.
pub const DOS_MAGIC: u16 = 0x5A4D;

/// The size of the legacy header in bytes.
pub const DOS_HEADER_SIZE: usize = 0x40;

/// The DOS header.
#[derive(Debug, Clone, Copy)]
pub struct DosHeader {
    /// MZ Header signature
    pub magic: u16,
    /// Bytes on last page of file
    pub cblp: u16,
    /// Pages in file
    pub cp: u16,
    /// Relocations
    pub crlc: u16,
    /// Size of header in paragraphs
    pub cparhdr: u16,
    /// Minimum extra paragraphs needed
    pub minalloc: u16,
    /// Maximum extra paragraphs needed
    pub maxalloc: u16,
    /// Initial (relative) SS value
    pub ss: u16,
    /// Initial SP value
    pub sp: u16,
    /// Checksum
    pub csum: u16,
    /// Initial IP value
    pub ip: u16,
    /// Initial (relative) CS value
    pub cs: u16,
    /// File address of relocation table
    pub lfarlc: u16,
    /// Overlay number
    pub ovno: u16,
    /// Reserved words
    pub res: [u16; 4],
    /// OEM identifier (for e_oeminfo)
    pub oemid: u16,
    /// OEM information; e_oemid specific
    pub oeminfo: u16,
    /// Reserved words
    pub res2: [u16; 10],
    /// Offset to extended header
    pub lfanew: u32,
}

impl DosHeader {
    /// The header laid out in the 64 bytes `b`: little-endian words at fixed
    /// offsets, and the 32-bit offset of the extended header in the last four.
    pub open spec fn spec_from_bytes(b: Seq<u8>) -> DosHeader {
        DosHeader {
            magic: le16(b, 0),
            cblp: le16(b, 2),
            cp: le16(b, 4),
            crlc: le16(b, 6),
            cparhdr: le16(b, 8),
            minalloc: le16(b, 0xA),
            maxalloc: le16(b, 0xC),
            ss: le16(b, 0xE),
            sp: le16(b, 0x10),
            csum: le16(b, 0x12),
            ip: le16(b, 0x14),
            cs: le16(b, 0x16),
            lfarlc: le16(b, 0x18),
            ovno: le16(b, 0x1A),
            res: [le16(b, 0x1C), le16(b, 0x1E), le16(b, 0x20), le16(b, 0x22)],
            oemid: le16(b, 0x24),
            oeminfo: le16(b, 0x26),
            res2: [
                le16(b, 0x28),
                le16(b, 0x2A),
                le16(b, 0x2C),
                le16(b, 0x2E),
                le16(b, 0x30),
                le16(b, 0x32),
                le16(b, 0x34),
                le16(b, 0x36),
                le16(b, 0x38),
                le16(b, 0x3A),
            ],
            lfanew: le32(b, 0x3C),
        }
    }

    /// What reading a header at `pos` of `data` gives: the header and the offset
    /// after it, or `TruncatedInput` where 64 bytes are not to be had.
    pub open spec fn spec_read(data: Seq<u8>, pos: int) -> Result<(DosHeader, int), DecodeError> {
        if 0 <= pos && pos + 0x40 <= data.len() {
            Ok((Self::spec_from_bytes(data.subrange(pos, pos + 0x40)), pos + 0x40))
        } else {
            Err(DecodeError::TruncatedInput)
        }
    }

    /// `BadMagic` unless the signature is `MZ`.
    pub open spec fn spec_check_magic(&self) -> Result<(), DecodeError> {
        if self.magic == DOS_MAGIC {
            Ok(())
        } else {
            Err(DecodeError::BadMagic)
        }
    }

    /// Reads the 64-byte header at the reader's position.
    pub fn read(r: &mut ByteReader) -> (res: Result<Self, DecodeError>)
        ensures
            reads_as(*old(r), *final(r), res, Self::spec_read(old(r).data@, old(r).at())),
    {
        let buf = r.take(DOS_HEADER_SIZE)?;
        let header = Self {
            magic: u16_le_at(buf, 0),
            cblp: u16_le_at(buf, 2),
            cp: u16_le_at(buf, 4),
            crlc: u16_le_at(buf, 6),
            cparhdr: u16_le_at(buf, 8),
            minalloc: u16_le_at(buf, 0xA),
            maxalloc: u16_le_at(buf, 0xC),
            ss: u16_le_at(buf, 0xE),
            sp: u16_le_at(buf, 0x10),
            csum: u16_le_at(buf, 0x12),
            ip: u16_le_at(buf, 0x14),
            cs: u16_le_at(buf, 0x16),
            lfarlc: u16_le_at(buf, 0x18),
            ovno: u16_le_at(buf, 0x1A),
            res: [
                u16_le_at(buf, 0x1C),
                u16_le_at(buf, 0x1E),
                u16_le_at(buf, 0x20),
                u16_le_at(buf, 0x22),
            ],
            oemid: u16_le_at(buf, 0x24),
            oeminfo: u16_le_at(buf, 0x26),
            res2: [
                u16_le_at(buf, 0x28),
                u16_le_at(buf, 0x2A),
                u16_le_at(buf, 0x2C),
                u16_le_at(buf, 0x2E),
                u16_le_at(buf, 0x30),
                u16_le_at(buf, 0x32),
                u16_le_at(buf, 0x34),
                u16_le_at(buf, 0x36),
                u16_le_at(buf, 0x38),
                u16_le_at(buf, 0x3A),
            ],
            lfanew: u32_le_at(buf, 0x3C),
        };
        assert(header.res =~= Self::spec_from_bytes(buf@).res);
        assert(header.res2 =~= Self::spec_from_bytes(buf@).res2);
        Ok(header)
    }

    /// The `i`-th 16-bit word of `buf`, low byte first. Where `buf` is of odd
    /// length, its last byte is the low byte of a word whose high byte is zero.
    pub open spec fn spec_word(buf: Seq<u8>, i: int) -> int {
        buf[2 * i] + 256 * (if 2 * i + 1 < buf.len() {
            buf[2 * i + 1] as int
        } else {
            0
        })
    }

    /// The sum of the first `n` words of `buf`.
    pub open spec fn spec_word_sum(buf: Seq<u8>, n: nat) -> int
        decreases n,
    {
        if n == 0 {
            0
        } else {
            Self::spec_word_sum(buf, (n - 1) as nat) + Self::spec_word(buf, n - 1)
        }
    }

    /// The sum of all words of `buf`, reduced to 16 bits.
    pub open spec fn spec_checksum(buf: Seq<u8>) -> int {
        Self::spec_word_sum(buf, ((buf.len() + 1) / 2) as nat) % 0x10000
    }

    /// Checks the signature.
    pub fn check_magic(&self) -> (res: Result<(), DecodeError>)
        ensures
            res == self.spec_check_magic(),
    {
        // 4D 5A == b"MZ"
        if self.magic != DOS_MAGIC {
            return Err(DecodeError::BadMagic);
        }
        Ok(())
    }

    /// Checks that the 16-bit words of `buf` add up to zero, carries dropped.
    ///
    /// The check is advisory: no decoder of this crate calls it.
    pub fn check_sum(buf: &[u8]) -> (res: Result<(), DecodeError>)
        ensures
            res == (if Self::spec_checksum(buf@) == 0 {
                Ok::<(), DecodeError>(())
            } else {
                Err::<(), DecodeError>(DecodeError::BadChecksum(Self::spec_checksum(buf@) as u16))
            }),
    {
        let mut sum: u16 = 0;
        let mut pos: usize = 0;
        let ghost mut words: nat = 0;
        while buf.len() - pos >= 2
            invariant
                pos <= buf@.len(),
                pos == 2 * words,
                sum == Self::spec_word_sum(buf@, words) % 0x10000,
            decreases buf@.len() - pos,
        {
            let word: u16 = u16_from_le(buf[pos], buf[pos + 1]);
            proof {
                assert(word == Self::spec_word(buf@, words as int));
                words = words + 1;
            }
            sum = sum.wrapping_add(word);
            pos += 2;
        }
        if pos < buf.len() {
            let word: u16 = u16_from_le(buf[pos], 0);
            proof {
                assert(word == Self::spec_word(buf@, words as int));
                words = words + 1;
            }
            sum = sum.wrapping_add(word);
        }
        assert(words == (buf@.len() + 1) / 2);
        if sum != 0 {
            return Err(DecodeError::BadChecksum(sum));
        }
        Ok(())
    }
}

/// A header that could be read is refused for its signature exactly when its
/// first two bytes are not `M`, `Z`.
pub proof fn lemma_dos_bad_magic_iff_signature_differs(data: Seq<u8>, pos: int)
    requires
        DosHeader::spec_read(data, pos) is Ok,
    ensures
        DosHeader::spec_read(data, pos)->Ok_0.0.spec_check_magic() == Err::<(), DecodeError>(
            DecodeError::BadMagic,
        ) <==> !(data[pos] == 0x4D && data[pos + 1] == 0x5A),
{
}

} // verus!
