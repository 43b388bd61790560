//! A segment-table record on its own, without the bytes of the segment.

use vstd::prelude::*;
use crate::error::DecodeError;
use crate::ne::header::NeHeader;
use crate::ne::segment_table::spec_size_or_64k;
use crate::util::endian::{le16, u16_le_at};
use crate::util::reader::{reads_as, ByteReader};

verus! {

/// The New Executable segment table entry.
#[derive(Debug, Clone, Copy, PartialEq, Eq)]
pub struct NeSegment {
    pub data_offset: u16,
    pub data_length: u16,
    pub flags: u16,
    pub min_alloc: u16,
}

impl NeSegment {
    /// The record laid out in the eight bytes `b`.
    pub open spec fn spec_from_bytes(b: Seq<u8>) -> NeSegment {
        NeSegment {
            data_offset: le16(b, 0),
            data_length: le16(b, 2),
            flags: le16(b, 4),
            min_alloc: le16(b, 6),
        }
    }

    /// What reading a record at `pos` gives.
    pub open spec fn spec_read(data: Seq<u8>, pos: int) -> Result<(NeSegment, int), DecodeError> {
        if 0 <= pos && pos + 8 <= data.len() {
            Ok((Self::spec_from_bytes(data.subrange(pos, pos + 8)), pos + 8))
        } else {
            Err(DecodeError::TruncatedInput)
        }
    }

    /// Where the bytes of the segment begin in a file with the header `header`:
    /// the stored offset, shifted left by the alignment shift, in 64 bits.
    pub open spec fn spec_data_offset(&self, header: &NeHeader) -> u64 {
        (self.data_offset as u64) << header.file_alignment_shift_count
    }

    /// How many bytes the segment has in the file: the stored length, or 64 KiB where that is zero.
    pub open spec fn spec_data_length(&self) -> u64 {
        spec_size_or_64k(self.data_length)
    }

    /// How many bytes are to be allocated at least: the stored size, or 64 KiB where that is zero.
    pub open spec fn spec_min_alloc(&self) -> u64 {
        spec_size_or_64k(self.min_alloc)
    }

    /// Reads a record of the segment table.
    pub fn read(r: &mut ByteReader) -> (res: Result<Self, DecodeError>)
        ensures
            reads_as(*old(r), *final(r), res, Self::spec_read(old(r).data@, old(r).at())),
    {
        let buf = r.take(0x8)?;
        Ok(
            Self {
                data_offset: u16_le_at(buf, 0),
                data_length: u16_le_at(buf, 2),
                flags: u16_le_at(buf, 4),
                min_alloc: u16_le_at(buf, 6),
            },
        )
    }

    /// Where the bytes of the segment begin in the file.
    ///
    /// The shift is a 64-bit shift, so the alignment shift has to be below 64.
    pub fn data_offset(&self, header: &NeHeader) -> (offset: u64)
        requires
            header.file_alignment_shift_count < 64,
        ensures
            offset == self.spec_data_offset(header),
    {
        (self.data_offset as u64) << header.file_alignment_shift_count
    }

    /// How many bytes the segment has in the file; a stored length of zero stands for 64 KiB.
    pub fn data_length(&self) -> (length: u64)
        ensures
            length == self.spec_data_length(),
            1 <= length <= 0x10000,
    {
        if self.data_length == 0 {
            0x10000
        } else {
            self.data_length as u64
        }
    }

    /// How many bytes are to be allocated at least; a stored size of zero stands for 64 KiB.
    pub fn min_alloc(&self) -> (size: u64)
        ensures
            size == self.spec_min_alloc(),
            1 <= size <= 0x10000,
    {
        if self.min_alloc == 0 {
            0x10000
        } else {
            self.min_alloc as u64
        }
    }
}

} // verus!
