//! The layout that the resident and the non-resident name table share.
//!
//! A name table is a run of records, each a length byte, that many bytes of
//! name and a 16-bit index into the entry table. A length byte of zero ends the
//! table. By convention the first record names the module itself.

use vstd::prelude::*;
use crate::error::DecodeError;
use crate::util::endian::le16;
use crate::util::reader::prepend;

verus! {

/// A name record as a mathematical value.
pub struct NameRecord {
    pub name: Seq<u8>,
    pub index: u16,
}

/// The record at `pos`, or nothing where the table ends there, and the offset
/// after what was read.
pub open spec fn spec_name_record(data: Seq<u8>, pos: int) -> Result<
    (Option<NameRecord>, int),
    DecodeError,
> {
    if !(0 <= pos < data.len()) {
        Err(DecodeError::TruncatedInput)
    } else if data[pos] == 0 {
        Ok((None, pos + 1))
    } else {
        let len = data[pos] as int;
        if pos + 1 + len + 2 > data.len() {
            Err(DecodeError::TruncatedInput)
        } else {
            Ok(
                (
                    Some(
                        NameRecord {
                            name: data.subrange(pos + 1, pos + 1 + len),
                            index: le16(data, pos + 1 + len),
                        },
                    ),
                    pos + 1 + len + 2,
                ),
            )
        }
    }
}

/// The records from `pos` up to the terminating zero byte, and the offset after that byte.
pub open spec fn spec_name_table(data: Seq<u8>, pos: int) -> Result<(Seq<NameRecord>, int), DecodeError>
    decreases data.len() - pos,
{
    match spec_name_record(data, pos) {
        Err(e) => Err(e),
        Ok((None, end)) => Ok((Seq::empty(), end)),
        Ok((Some(record), end)) => prepend(seq![record], spec_name_table(data, end)),
    }
}

/// A name table that could be read holds no empty name, and the byte before
/// the offset it ends at is the zero that ended it.
pub proof fn lemma_name_table_ends_at_zero(data: Seq<u8>, pos: int)
    requires
        spec_name_table(data, pos) is Ok,
    ensures
        ({
            let (records, end) = spec_name_table(data, pos)->Ok_0;
            &&& pos < end <= data.len()
            &&& data[end - 1] == 0
            &&& forall|i: int| 0 <= i < records.len() ==> 0 < (#[trigger] records[i]).name.len() < 256
        }),
    decreases data.len() - pos,
{
    if let Ok((Some(record), end)) = spec_name_record(data, pos) {
        lemma_name_table_ends_at_zero(data, end);
        let (rest, _) = spec_name_table(data, end)->Ok_0;
        let (records, _) = spec_name_table(data, pos)->Ok_0;
        assert(records == seq![record] + rest);
        assert forall|i: int| 0 <= i < records.len() implies 0 < (#[trigger] records[i]).name.len()
            < 256 by {
            if i > 0 {
                assert(records[i] == rest[i - 1]);
            }
        }
    }
}

/// A name table fails only for want of bytes.
pub proof fn lemma_name_table_fails_truncated(data: Seq<u8>, pos: int)
    ensures
        spec_name_table(data, pos) matches Err(e) ==> e == DecodeError::TruncatedInput,
    decreases data.len() - pos,
{
    if let Ok((Some(_), end)) = spec_name_record(data, pos) {
        lemma_name_table_fails_truncated(data, end);
    }
}

} // verus!
