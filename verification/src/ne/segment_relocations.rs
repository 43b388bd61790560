//! Per-segment relocation tables.
//!
//! A segment that is flagged as carrying relocations is followed by a table
//! of fix-ups: a 16-bit count and then eight bytes for each. A fix-up names a
//! place in the segment and what is to be patched in there: a place in another
//! segment of the module, or a procedure imported by ordinal or by name.

use vstd::prelude::*;
use crate::error::DecodeError;
use crate::util::endian::{le16, u16_le_at};
use crate::util::reader::{
    lemma_prepend_empty, lemma_prepend_twice, prepend, reads_as, result_view, ByteReader,
};

verus! {

/// The size of one relocation record in bytes.
pub const RELOCATION_ENTRY_SIZE: usize = 8;

/// The segment number that, in an internal reference, stands for "moveable:
/// look the target up in the entry table".
pub const MOVEABLE_SEGMENT: u8 = 0xFF;

/// A target inside the module.
#[derive(Debug, Clone, Copy, PartialEq, Eq)]
pub struct InternalFixes {
    pub segment: u8,
    pub is_movable: bool,
    pub offset_or_ordinal: u16,
}

/// A procedure of another module, named by its ordinal.
#[derive(Debug, Clone, Copy, PartialEq, Eq)]
pub struct ImportByOrdinal {
    pub module_index: u16,
    pub ordinal: u16,
}

/// A procedure of another module, named by an offset into the imported-names table.
#[derive(Debug, Clone, Copy, PartialEq, Eq)]
pub struct ImportByName {
    pub module_index: u16,
    pub name_offset: u16,
}

/// What a relocation refers to.
#[derive(Debug, Clone, PartialEq, Eq)]
pub enum RelocationTarget {
    Internal(InternalFixes),
    ImportByOrdinal(ImportByOrdinal),
    ImportByName(ImportByName),
}

/// One relocation record.
#[derive(Debug, Clone, PartialEq, Eq)]
pub struct RelocationEntry {
    pub address_type: u8,
    pub reloc_type: u8,
    pub is_additive: bool,
    pub segment_offset: u16,
    pub target: RelocationTarget,
}

/// The relocation table of one segment.
#[derive(Debug, Clone, PartialEq, Eq)]
pub struct RelocationTable {
    pub entries: Vec<RelocationEntry>,
}

impl View for RelocationTable {
    type V = Seq<RelocationEntry>;

    open spec fn view(&self) -> Seq<RelocationEntry> {
        self.entries@
    }
}

impl RelocationEntry {
    /// The target kind that the flags byte selects: its two low bits.
    pub open spec fn spec_kind(flags: u8) -> int {
        flags as int % 4
    }

    /// Whether the flags byte marks the relocation as additive: bit 2.
    pub open spec fn spec_additive(flags: u8) -> bool {
        flags as int / 4 % 2 == 1
    }

    /// The target laid out in the last four bytes of the record `b`, for a target kind below 3.
    pub open spec fn spec_target(b: Seq<u8>) -> RelocationTarget {
        let kind = Self::spec_kind(b[1]);
        if kind == 0 {
            RelocationTarget::Internal(
                InternalFixes {
                    segment: b[4],
                    is_movable: b[4] == MOVEABLE_SEGMENT,
                    offset_or_ordinal: le16(b, 6),
                },
            )
        } else if kind == 1 {
            RelocationTarget::ImportByOrdinal(
                ImportByOrdinal { module_index: le16(b, 4), ordinal: le16(b, 6) },
            )
        } else {
            RelocationTarget::ImportByName(
                ImportByName { module_index: le16(b, 4), name_offset: le16(b, 6) },
            )
        }
    }

    /// The record laid out in the eight bytes `b`: address type, flags, the
    /// offset to patch, and the target. A target selector of 3 is undefined.
    pub open spec fn spec_from_bytes(b: Seq<u8>) -> Result<RelocationEntry, DecodeError> {
        if Self::spec_kind(b[1]) == 3 {
            Err(DecodeError::InvalidRelocationType)
        } else {
            Ok(
                RelocationEntry {
                    address_type: b[0],
                    reloc_type: Self::spec_kind(b[1]) as u8,
                    is_additive: Self::spec_additive(b[1]),
                    segment_offset: le16(b, 2),
                    target: Self::spec_target(b),
                },
            )
        }
    }

    /// Decodes one eight-byte record.
    fn from_bytes(entry_buf: &[u8]) -> (res: Result<Self, DecodeError>)
        requires
            entry_buf@.len() == 8,
        ensures
            res == Self::spec_from_bytes(entry_buf@),
    {
        let address_type = entry_buf[0];
        let reloc_flags = entry_buf[1];
        let reloc_type = reloc_flags & 0x03;  // Lower 2 bits
        let is_additive = (reloc_flags & 0x04) != 0;  // Bit 2
        assert(reloc_flags & 0x03 == reloc_flags % 4) by (bit_vector);
        assert(((reloc_flags & 0x04) != 0) == (reloc_flags / 4 % 2 == 1)) by (bit_vector);
        let segment_offset = u16_le_at(entry_buf, 2);

        let target = if reloc_type == 0x00 {
            // Internal reference
            let segment = entry_buf[4];
            RelocationTarget::Internal(
                InternalFixes {
                    segment,
                    is_movable: segment == MOVEABLE_SEGMENT,
                    offset_or_ordinal: u16_le_at(entry_buf, 6),
                },
            )
        } else if reloc_type == 0x01 {
            // Imported by ordinal
            RelocationTarget::ImportByOrdinal(
                ImportByOrdinal {
                    module_index: u16_le_at(entry_buf, 4),
                    ordinal: u16_le_at(entry_buf, 6),
                },
            )
        } else if reloc_type == 0x02 {
            // Imported by name
            RelocationTarget::ImportByName(
                ImportByName {
                    module_index: u16_le_at(entry_buf, 4),
                    name_offset: u16_le_at(entry_buf, 6),
                },
            )
        } else {
            return Err(DecodeError::InvalidRelocationType);
        };

        Ok(RelocationEntry { address_type, reloc_type, is_additive, segment_offset, target })
    }
}

/// The two low bits of the flags byte select the target: 0 an internal
/// reference, 1 an import by ordinal, 2 an import by name; 3 selects nothing and
/// the record is refused. No other bit of the record has a say in this.
pub proof fn lemma_target_dispatch(b: Seq<u8>)
    ensures
        RelocationEntry::spec_kind(b[1]) == 0 ==> RelocationEntry::spec_from_bytes(b) is Ok
            && RelocationEntry::spec_from_bytes(b)->Ok_0.target is Internal,
        RelocationEntry::spec_kind(b[1]) == 1 ==> RelocationEntry::spec_from_bytes(b) is Ok
            && RelocationEntry::spec_from_bytes(b)->Ok_0.target is ImportByOrdinal,
        RelocationEntry::spec_kind(b[1]) == 2 ==> RelocationEntry::spec_from_bytes(b) is Ok
            && RelocationEntry::spec_from_bytes(b)->Ok_0.target is ImportByName,
        RelocationEntry::spec_kind(b[1]) == 3 ==> RelocationEntry::spec_from_bytes(b) == Err::<
            RelocationEntry,
            DecodeError,
        >(DecodeError::InvalidRelocationType),
        0 <= RelocationEntry::spec_kind(b[1]) <= 3,
{
}

impl RelocationTable {
    /// The `count` records at `pos`, up to the first that is cut short or refused.
    pub open spec fn spec_entries(data: Seq<u8>, pos: int, count: int) -> Result<
        (Seq<RelocationEntry>, int),
        DecodeError,
    >
        decreases count,
    {
        if count <= 0 {
            Ok((Seq::empty(), pos))
        } else if !(0 <= pos && pos + 8 <= data.len()) {
            Err(DecodeError::TruncatedInput)
        } else {
            match RelocationEntry::spec_from_bytes(data.subrange(pos, pos + 8)) {
                Err(e) => Err(e),
                Ok(entry) => prepend(seq![entry], Self::spec_entries(data, pos + 8, count - 1)),
            }
        }
    }

    /// The table at `pos`: a little-endian count and that many records.
    pub open spec fn spec_read(data: Seq<u8>, pos: int) -> Result<
        (Seq<RelocationEntry>, int),
        DecodeError,
    > {
        if 0 <= pos && pos + 2 <= data.len() {
            Self::spec_entries(data, pos + 2, le16(data, pos) as int)
        } else {
            Err(DecodeError::TruncatedInput)
        }
    }

    /// Reads the relocation table of a segment.
    ///
    /// The first two bytes give the number of records; each record is eight bytes.
    pub fn read(r: &mut ByteReader) -> (res: Result<Self, DecodeError>)
        ensures
            reads_as(
                *old(r),
                *final(r),
                result_view(res),
                Self::spec_read(old(r).data@, old(r).at()),
            ),
    {
        let ghost data = r.data@;
        let ghost goal = Self::spec_read(data, r.at());
        let mut cur = *r;
        let count = cur.read_u16()?;

        let mut entries: Vec<RelocationEntry> = Vec::new();
        let mut done: u16 = 0;
        proof {
            lemma_prepend_empty(entries@, Self::spec_entries(data, cur.at(), count as int), 0);
        }
        while done < count
            invariant
                *r == *old(r),
                cur.data == r.data,
                data == r.data@,
                done <= count,
                goal == Self::spec_read(data, old(r).at()),
                goal == prepend(entries@, Self::spec_entries(data, cur.at(), count - done)),
            decreases count - done,
        {
            let entry_buf = cur.take(RELOCATION_ENTRY_SIZE)?;
            let entry = RelocationEntry::from_bytes(entry_buf)?;
            proof {
                lemma_prepend_twice(
                    entries@,
                    seq![entry],
                    Self::spec_entries(data, cur.at(), count - done - 1),
                );
                assert(entries@ + seq![entry] =~= entries@.push(entry));
            }
            entries.push(entry);
            done += 1;
        }
        proof {
            lemma_prepend_empty(entries@, goal, cur.at());
        }
        *r = cur;
        Ok(Self { entries })
    }
}

/// A relocation table fails only for want of bytes or for an undefined target.
pub proof fn lemma_relocations_fail_truncated_or_invalid(data: Seq<u8>, pos: int, count: int)
    ensures
        RelocationTable::spec_entries(data, pos, count) matches Err(e) ==> e
            == DecodeError::TruncatedInput || e == DecodeError::InvalidRelocationType,
    decreases count,
{
    if count > 0 && 0 <= pos && pos + 8 <= data.len() {
        lemma_relocations_fail_truncated_or_invalid(data, pos + 8, count - 1);
    }
}

/// A relocation table that could be read holds as many records as its count
/// says and takes eight bytes for each.
pub proof fn lemma_relocations_take_their_count(data: Seq<u8>, pos: int, count: int)
    requires
        0 <= count,
    ensures
        RelocationTable::spec_entries(data, pos, count) matches Ok((entries, end)) ==> entries.len()
            == count && end == pos + 8 * count,
    decreases count,
{
    if count > 0 && 0 <= pos && pos + 8 <= data.len() {
        lemma_relocations_take_their_count(data, pos + 8, count - 1);
    }
}

} // verus!
