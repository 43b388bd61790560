//! The extended header that describes the segmented image.

use vstd::prelude::*;
use crate::error::DecodeError;
use crate::util::endian::{le16, le32, u16_le_at, u32_le_at};
use crate::util::reader::{reads_as, ByteReader};

verus! {

/// The size of the extended header in bytes.
pub const NE_HEADER_SIZE: usize = 0x40;

/// The resource-entry count that stands for "read resource types up to the terminator".
pub const RESOURCE_COUNT_UNKNOWN: u16 = 0xFFFF;

/// The New Executable header.
///
/// Every table offset in it is relative to the position of the header itself,
/// except `non_resident_names_table_offset`, which counts from the start of the
/// file.
#[derive(Debug, Clone, Copy)]
pub struct NeHeader {
    pub magic: [u8; 2],
    pub major_linker_version: u8,
    pub minor_linker_version: u8,
    pub entry_table_offset: u16,
    pub entry_table_length: u16,
    pub file_load_crc: u32,
    pub flags: u16,
    pub auto_data_segment_index: u16,
    pub init_heap_size: u16,
    pub init_stack_size: u16,
    pub entry_point: u32,
    pub init_stack: u32,
    pub segment_count: u16,
    pub module_references: u16,
    pub non_resident_names_size: u16,
    pub segment_table_offset: u16,
    pub resource_table_offset: u16,
    pub resident_names_table_offset: u16,
    pub module_reference_table_offset: u16,
    pub import_name_table_offset: u16,
    pub non_resident_names_table_offset: u32,
    pub movable_entry_point_count: u16,
    pub file_alignment_shift_count: u16,
    pub resource_table_entries: u16,
    pub target_os: u8,
    pub os2_exe_flags: u8,
    pub return_thunk_offset: u16,
    pub segment_reference_thunk_offset: u16,
    pub min_code_swap: u16,
    pub expected_win_ver: [u8; 2],
}

impl NeHeader {
    /// The header laid out in the 64 bytes `b`: single bytes and little-endian
    /// words and double words at fixed offsets.
    pub open spec fn spec_from_bytes(b: Seq<u8>) -> NeHeader {
        NeHeader {
            magic: [b[0], b[1]],
            major_linker_version: b[2],
            minor_linker_version: b[3],
            entry_table_offset: le16(b, 4),
            entry_table_length: le16(b, 6),
            file_load_crc: le32(b, 8),
            flags: le16(b, 0xC),
            auto_data_segment_index: le16(b, 0xE),
            init_heap_size: le16(b, 0x10),
            init_stack_size: le16(b, 0x12),
            entry_point: le32(b, 0x14),
            init_stack: le32(b, 0x18),
            segment_count: le16(b, 0x1C),
            module_references: le16(b, 0x1E),
            non_resident_names_size: le16(b, 0x20),
            segment_table_offset: le16(b, 0x22),
            resource_table_offset: le16(b, 0x24),
            resident_names_table_offset: le16(b, 0x26),
            module_reference_table_offset: le16(b, 0x28),
            import_name_table_offset: le16(b, 0x2A),
            non_resident_names_table_offset: le32(b, 0x2C),
            movable_entry_point_count: le16(b, 0x30),
            file_alignment_shift_count: le16(b, 0x32),
            resource_table_entries: le16(b, 0x34),
            target_os: b[0x36],
            os2_exe_flags: b[0x37],
            return_thunk_offset: le16(b, 0x38),
            segment_reference_thunk_offset: le16(b, 0x3A),
            min_code_swap: le16(b, 0x3C),
            expected_win_ver: [b[0x3E], b[0x3F]],
        }
    }

    /// What reading a header at `pos` of `data` gives: the header and the offset
    /// after it, or `TruncatedInput` where 64 bytes are not to be had.
    pub open spec fn spec_read(data: Seq<u8>, pos: int) -> Result<(NeHeader, int), DecodeError> {
        if 0 <= pos && pos + 0x40 <= data.len() {
            Ok((Self::spec_from_bytes(data.subrange(pos, pos + 0x40)), pos + 0x40))
        } else {
            Err(DecodeError::TruncatedInput)
        }
    }

    /// `BadMagic` unless the signature is `NE`.
    pub open spec fn spec_check_magic(&self) -> Result<(), DecodeError> {
        if self.magic[0] == 0x4E && self.magic[1] == 0x45 {
            Ok(())
        } else {
            Err(DecodeError::BadMagic)
        }
    }

    /// Reads the 64-byte header at the reader's position.
    pub fn read(r: &mut ByteReader) -> (res: Result<Self, DecodeError>)
        ensures
            reads_as(*old(r), *final(r), res, Self::spec_read(old(r).data@, old(r).at())),
    {
        let buf = r.take(NE_HEADER_SIZE)?;
        let header = Self {
            magic: [buf[0], buf[1]],
            major_linker_version: buf[2],
            minor_linker_version: buf[3],
            entry_table_offset: u16_le_at(buf, 4),
            entry_table_length: u16_le_at(buf, 6),
            file_load_crc: u32_le_at(buf, 8),
            flags: u16_le_at(buf, 0xC),
            auto_data_segment_index: u16_le_at(buf, 0xE),
            init_heap_size: u16_le_at(buf, 0x10),
            init_stack_size: u16_le_at(buf, 0x12),
            entry_point: u32_le_at(buf, 0x14),
            init_stack: u32_le_at(buf, 0x18),
            segment_count: u16_le_at(buf, 0x1C),
            module_references: u16_le_at(buf, 0x1E),
            non_resident_names_size: u16_le_at(buf, 0x20),
            segment_table_offset: u16_le_at(buf, 0x22),
            resource_table_offset: u16_le_at(buf, 0x24),
            resident_names_table_offset: u16_le_at(buf, 0x26),
            module_reference_table_offset: u16_le_at(buf, 0x28),
            import_name_table_offset: u16_le_at(buf, 0x2A),
            non_resident_names_table_offset: u32_le_at(buf, 0x2C),
            movable_entry_point_count: u16_le_at(buf, 0x30),
            file_alignment_shift_count: u16_le_at(buf, 0x32),
            resource_table_entries: u16_le_at(buf, 0x34),
            target_os: buf[0x36],
            os2_exe_flags: buf[0x37],
            return_thunk_offset: u16_le_at(buf, 0x38),
            segment_reference_thunk_offset: u16_le_at(buf, 0x3A),
            min_code_swap: u16_le_at(buf, 0x3C),
            expected_win_ver: [buf[0x3E], buf[0x3F]],
        };
        assert(header.magic =~= Self::spec_from_bytes(buf@).magic);
        assert(header.expected_win_ver =~= Self::spec_from_bytes(buf@).expected_win_ver);
        Ok(header)
    }

    /// Checks the signature.
    pub fn check_magic(&self) -> (res: Result<(), DecodeError>)
        ensures
            res == self.spec_check_magic(),
    {
        if self.magic[0] != 0x4E || self.magic[1] != 0x45 {
            return Err(DecodeError::BadMagic);
        }
        Ok(())
    }
}

/// A header that could be read is refused for its signature exactly when its
/// first two bytes are not `N`, `E`.
pub proof fn lemma_ne_bad_magic_iff_signature_differs(data: Seq<u8>, pos: int)
    requires
        NeHeader::spec_read(data, pos) is Ok,
    ensures
        NeHeader::spec_read(data, pos)->Ok_0.0.spec_check_magic() == Err::<(), DecodeError>(
            DecodeError::BadMagic,
        ) <==> !(data[pos] == 0x4E && data[pos + 1] == 0x45),
{
}

} // verus!
