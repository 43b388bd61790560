//! The segment table and the bytes of the segments.
//!
//! The table holds one eight-byte record for every code and data segment of
//! the module. Segments are numbered from 1 in the order of the table, and the
//! other tables refer to them by these numbers. The bytes of a segment stand
//! elsewhere in the file and are attached to the record in a later pass.

use vstd::prelude::*;
use vstd::slice::slice_to_vec;
use crate::error::DecodeError;
use crate::util::endian::{le16, u16_le_at};
use crate::util::reader::{reads_as, result_view, ByteReader};

verus! {

/// The size of a segment-table record in bytes.
pub const SEGMENT_HEADER_SIZE: usize = 0x8;

/// What a stored length or allocation of zero stands for.
pub const SEGMENT_64K: u64 = 0x10000;

/// Flag bit 0: the segment holds data, not code.
pub const SEG_DATA: u16 = 0x0001;

/// Flag bit 1: the bytes of the segment are stored run-length compressed.
pub const SEG_ITERATED: u16 = 0x0002;

/// The three low flag bits: the segment-type mask.
pub const SEG_TYPE_MASK: u16 = 0x0007;

/// Flag bit 3: a relocation table follows the bytes of the segment.
pub const SEG_HAS_RELOCS: u16 = 0x0008;

/// A record of the segment table.
#[derive(Debug, Clone, Copy, PartialEq, Eq)]
pub struct NeSegmentHeader {
    pub data_offset_shifted: u16,
    pub data_length: u16,
    pub flags: u16,
    pub min_alloc: u16,
}

/// The New Executable segment table entry.
///
/// `shift_count` is the alignment shift of the file, taken from the extended
/// header. `data` is empty until the bytes of the segment are attached, and
/// stays empty for a segment that has none in the file.
#[derive(Debug, Clone, PartialEq, Eq)]
pub struct NeSegment {
    pub header: NeSegmentHeader,
    pub shift_count: u16,
    pub data: Option<Vec<u8>>,
}

/// A segment as a mathematical value.
pub struct Segment {
    pub header: NeSegmentHeader,
    pub shift_count: u16,
    pub data: Option<Seq<u8>>,
}

impl View for NeSegment {
    type V = Segment;

    open spec fn view(&self) -> Segment {
        Segment {
            header: self.header,
            shift_count: self.shift_count,
            data: match self.data {
                Some(bytes) => Some(bytes@),
                None => None,
            },
        }
    }
}

/// A stored 16-bit size, where zero stands for 64 KiB.
pub open spec fn spec_size_or_64k(stored: u16) -> u64 {
    if stored == 0 {
        0x10000
    } else {
        stored as u64
    }
}

/// A size that zero stands in for is never zero: it lies between 1 and 65536,
/// and is the stored value wherever that is not zero.
pub proof fn lemma_zero_means_64k(stored: u16)
    ensures
        1 <= spec_size_or_64k(stored) <= 0x10000,
        spec_size_or_64k(0) == 0x10000,
        stored != 0 ==> spec_size_or_64k(stored) == stored,
{
}

impl NeSegmentHeader {
    /// The record laid out in the eight bytes `b`.
    pub open spec fn spec_from_bytes(b: Seq<u8>) -> NeSegmentHeader {
        NeSegmentHeader {
            data_offset_shifted: le16(b, 0),
            data_length: le16(b, 2),
            flags: le16(b, 4),
            min_alloc: le16(b, 6),
        }
    }

    /// What reading a record at `pos` gives.
    pub open spec fn spec_read(data: Seq<u8>, pos: int) -> Result<
        (NeSegmentHeader, int),
        DecodeError,
    > {
        if 0 <= pos && pos + 8 <= data.len() {
            Ok((Self::spec_from_bytes(data.subrange(pos, pos + 8)), pos + 8))
        } else {
            Err(DecodeError::TruncatedInput)
        }
    }

    /// Whether the segment holds data: flag bit 0.
    pub open spec fn spec_is_data(&self) -> bool {
        self.flags % 2 == 1
    }

    /// Whether the bytes of the segment are stored compressed: flag bit 1.
    pub open spec fn spec_is_iterated(&self) -> bool {
        self.flags / 2 % 2 == 1
    }

    /// The segment type: the three low flag bits.
    pub open spec fn spec_type_mask(&self) -> u16 {
        self.flags % 8
    }

    /// Whether a relocation table follows the bytes of the segment: flag bit 3.
    pub open spec fn spec_has_relocations(&self) -> bool {
        self.flags / 8 % 2 == 1
    }

    /// Reads a record of the segment table.
    pub fn read(r: &mut ByteReader) -> (res: Result<Self, DecodeError>)
        ensures
            reads_as(*old(r), *final(r), res, Self::spec_read(old(r).data@, old(r).at())),
    {
        let buf = r.take(SEGMENT_HEADER_SIZE)?;
        Ok(
            Self {
                data_offset_shifted: u16_le_at(buf, 0),
                data_length: u16_le_at(buf, 2),
                flags: u16_le_at(buf, 4),
                min_alloc: u16_le_at(buf, 6),
            },
        )
    }

    /// Whether the segment holds data rather than code.
    pub fn is_data(&self) -> (yes: bool)
        ensures
            yes == self.spec_is_data(),
    {
        let flags = self.flags;
        assert((flags & 0x0001 != 0) == (flags % 2 == 1)) by (bit_vector);
        flags & SEG_DATA != 0
    }

    /// Whether the bytes of the segment are stored compressed.
    pub fn is_iterated(&self) -> (yes: bool)
        ensures
            yes == self.spec_is_iterated(),
    {
        let flags = self.flags;
        assert((flags & 0x0002 != 0) == (flags / 2 % 2 == 1)) by (bit_vector);
        flags & SEG_ITERATED != 0
    }

    /// The segment type: the three low flag bits.
    pub fn type_mask(&self) -> (bits: u16)
        ensures
            bits == self.spec_type_mask(),
    {
        let flags = self.flags;
        assert(flags & 0x0007 == flags % 8) by (bit_vector);
        flags & SEG_TYPE_MASK
    }

    /// Whether a relocation table follows the bytes of the segment.
    pub fn has_relocations(&self) -> (yes: bool)
        ensures
            yes == self.spec_has_relocations(),
    {
        let flags = self.flags;
        assert((flags & 0x0008 != 0) == (flags / 8 % 2 == 1)) by (bit_vector);
        flags & SEG_HAS_RELOCS != 0
    }
}

impl Segment {
    /// Where the bytes of the segment begin in the file: the stored offset,
    /// shifted left by the alignment shift, in 64 bits.
    pub open spec fn data_offset(&self) -> u64 {
        (self.header.data_offset_shifted as u64) << self.shift_count
    }

    /// How many bytes the segment has in the file: the stored length, or 64 KiB where that is zero.
    pub open spec fn data_length(&self) -> u64 {
        spec_size_or_64k(self.header.data_length)
    }

    /// How many bytes are to be allocated for the segment at least: the stored
    /// size, or 64 KiB where that is zero.
    pub open spec fn min_alloc(&self) -> u64 {
        spec_size_or_64k(self.header.min_alloc)
    }

    /// What attaching the bytes gives, for a reader that stands at `pos`: the
    /// bytes of the segment, and where the reader is left.
    ///
    /// A segment with a stored offset of zero has no bytes in the file: it is
    /// left as it is, and so is the reader. Otherwise the bytes are the
    /// `data_length` bytes at `data_offset`, and the reader is left after them.
    /// An alignment shift of 64 or more puts the bytes beyond any image.
    pub open spec fn spec_read_data(&self, data: Seq<u8>, pos: int) -> Result<
        (Option<Seq<u8>>, int),
        DecodeError,
    > {
        if self.header.data_offset_shifted == 0 {
            Ok((self.data, pos))
        } else if self.shift_count >= 64 || self.data_offset() + self.data_length() > data.len() {
            Err(DecodeError::TruncatedInput)
        } else {
            Ok(
                (
                    Some(
                        data.subrange(
                            self.data_offset() as int,
                            self.data_offset() + self.data_length(),
                        ),
                    ),
                    self.data_offset() + self.data_length(),
                ),
            )
        }
    }
}

impl NeSegment {
    /// What reading a segment at `pos` gives: its record, and no bytes yet.
    pub open spec fn spec_read(data: Seq<u8>, pos: int, shift_count: u16) -> Result<
        (Segment, int),
        DecodeError,
    > {
        match NeSegmentHeader::spec_read(data, pos) {
            Ok((header, end)) => Ok((Segment { header, shift_count, data: None }, end)),
            Err(e) => Err(e),
        }
    }

    /// Reads a record of the segment table. The bytes of the segment are not attached.
    pub fn read(r: &mut ByteReader, shift_count: u16) -> (res: Result<Self, DecodeError>)
        ensures
            reads_as(
                *old(r),
                *final(r),
                result_view(res),
                Self::spec_read(old(r).data@, old(r).at(), shift_count),
            ),
    {
        Ok(Self { header: NeSegmentHeader::read(r)?, shift_count, data: None })
    }

    /// Attaches the bytes of the segment.
    ///
    /// On success the reader is left after the bytes, or where it was if the
    /// segment has none. On failure neither the segment nor the reader is changed.
    pub fn read_data(&mut self, r: &mut ByteReader) -> (res: Result<(), DecodeError>)
        ensures
            final(r).data == old(r).data,
            final(self).header == old(self).header,
            final(self).shift_count == old(self).shift_count,
            match old(self)@.spec_read_data(old(r).data@, old(r).at()) {
                Ok((bytes, end)) => {
                    &&& res == Ok::<(), DecodeError>(())
                    &&& final(self)@.data == bytes
                    &&& final(r).pos == end
                },
                Err(e) => {
                    &&& res == Err::<(), DecodeError>(e)
                    &&& *final(self) == *old(self)
                    &&& *final(r) == *old(r)
                },
            },
    {
        if self.header.data_offset_shifted == 0 {
            return Ok(());
        }
        if self.shift_count >= 64 {
            return Err(DecodeError::TruncatedInput);
        }
        let data_offset = self.data_offset();
        let data_length = self.data_length();
        let mut cur = *r;
        cur.seek(data_offset);
        let data = slice_to_vec(cur.take(data_length as usize)?);
        self.data = Some(data);
        *r = cur;
        Ok(())
    }

    /// Where the bytes of the segment begin in the file.
    ///
    /// The shift is a 64-bit shift, so the alignment shift has to be below 64.
    pub fn data_offset(&self) -> (offset: u64)
        requires
            self.shift_count < 64,
        ensures
            offset == self@.data_offset(),
    {
        (self.header.data_offset_shifted as u64) << self.shift_count
    }

    /// How many bytes the segment has in the file; a stored length of zero stands for 64 KiB.
    pub fn data_length(&self) -> (length: u64)
        ensures
            length == self@.data_length(),
            1 <= length <= 0x10000,
    {
        if self.header.data_length == 0 {
            SEGMENT_64K
        } else {
            self.header.data_length as u64
        }
    }

    /// How many bytes are to be allocated at least; a stored size of zero stands for 64 KiB.
    pub fn min_alloc(&self) -> (size: u64)
        ensures
            size == self@.min_alloc(),
            1 <= size <= 0x10000,
    {
        if self.header.min_alloc == 0 {
            SEGMENT_64K
        } else {
            self.header.min_alloc as u64
        }
    }
}

} // verus!
