//! The entry table: one member for every entry point of the module.
//!
//! Members have ordinal numbers that start at 1; the name tables refer to them
//! by these. The table is stored in bundles. A bundle is a count, a segment
//! indicator, and `count` records whose width the indicator decides.

use vstd::prelude::*;
use crate::error::DecodeError;
use crate::util::endian::{le16, u16_le_at};
use crate::util::reader::{
    lemma_prepend_empty, lemma_prepend_twice, prepend, reads_as, result_view, ByteReader,
};

verus! {

/// The signature that a moveable entry should carry: the bytes of `INT 3Fh`.
pub const MOVEABLE_MAGIC: [u8; 2] = [0xCD, 0x3F];

/// An entry point in a fixed segment.
#[derive(Debug, Clone, Copy, PartialEq, Eq)]
pub struct FixedSegmentEntry {
    pub segment: u8,
    pub flags: u8,
    pub offset: u16,
}

/// An entry point in a moveable segment.
#[derive(Debug, Clone, Copy, PartialEq, Eq)]
pub struct MoveableSegmentEntry {
    pub flags: u8,
    pub magic: [u8; 2],
    pub segment: u8,
    pub offset: u16,
}

/// One member of the entry table.
#[derive(Debug, Clone, PartialEq, Eq)]
pub enum SegmentEntry {
    Unused,
    Fixed(FixedSegmentEntry),
    Moveable(MoveableSegmentEntry),
}

/// The entry table, in the order of the ordinals.
#[derive(Debug, Clone, PartialEq, Eq)]
pub struct EntryTable {
    pub entries: Vec<SegmentEntry>,
}

impl View for EntryTable {
    type V = Seq<SegmentEntry>;

    open spec fn view(&self) -> Seq<SegmentEntry> {
        self.entries@
    }
}

impl FixedSegmentEntry {
    /// The three-byte record at `pos`: flags, then the offset.
    pub open spec fn spec_at(data: Seq<u8>, pos: int, segment: u8) -> FixedSegmentEntry {
        FixedSegmentEntry { segment, flags: data[pos], offset: le16(data, pos + 1) }
    }

    /// What reading a record at `pos` gives.
    pub open spec fn spec_read(data: Seq<u8>, pos: int, segment: u8) -> Result<
        (FixedSegmentEntry, int),
        DecodeError,
    > {
        if 0 <= pos && pos + 3 <= data.len() {
            Ok((Self::spec_at(data, pos, segment), pos + 3))
        } else {
            Err(DecodeError::TruncatedInput)
        }
    }

    /// Reads the three-byte record of an entry of segment `segment`.
    pub fn read(r: &mut ByteReader, segment: u8) -> (res: Result<Self, DecodeError>)
        ensures
            reads_as(*old(r), *final(r), res, Self::spec_read(old(r).data@, old(r).at(), segment)),
    {
        let buf = r.take(3)?;
        Ok(Self { segment, flags: buf[0], offset: u16_le_at(buf, 1) })
    }
}

impl MoveableSegmentEntry {
    /// The six-byte record at `pos`: flags, signature, segment, offset.
    pub open spec fn spec_at(data: Seq<u8>, pos: int) -> MoveableSegmentEntry {
        MoveableSegmentEntry {
            flags: data[pos],
            magic: [data[pos + 1], data[pos + 2]],
            segment: data[pos + 3],
            offset: le16(data, pos + 4),
        }
    }

    /// What reading a record at `pos` gives.
    pub open spec fn spec_read(data: Seq<u8>, pos: int) -> Result<
        (MoveableSegmentEntry, int),
        DecodeError,
    > {
        if 0 <= pos && pos + 6 <= data.len() {
            Ok((Self::spec_at(data, pos), pos + 6))
        } else {
            Err(DecodeError::TruncatedInput)
        }
    }

    /// Whether the record carries the signature it should.
    pub open spec fn spec_has_magic(&self) -> bool {
        self.magic[0] == 0xCD && self.magic[1] == 0x3F
    }

    /// Reads the six-byte record of a moveable entry.
    pub fn read(r: &mut ByteReader) -> (res: Result<Self, DecodeError>)
        ensures
            reads_as(*old(r), *final(r), res, Self::spec_read(old(r).data@, old(r).at())),
    {
        let buf = r.take(6)?;
        let entry = Self {
            flags: buf[0],
            magic: [buf[1], buf[2]],
            segment: buf[3],
            offset: u16_le_at(buf, 4),
        };
        assert(entry.magic =~= Self::spec_at(old(r).data@, old(r).at()).magic);
        Ok(entry)
    }

    /// Whether the record carries the signature it should. A record without it is
    /// kept all the same.
    pub fn has_magic(&self) -> (ok: bool)
        ensures
            ok == self.spec_has_magic(),
    {
        self.magic[0] == MOVEABLE_MAGIC[0] && self.magic[1] == MOVEABLE_MAGIC[1]
    }
}

/// The width of the records of a bundle with segment indicator `segment`: none
/// for 0 (unused ordinals), three bytes for a fixed segment, six for 255 (moveable).
pub open spec fn spec_width(segment: u8) -> int {
    if segment == 0 {
        0
    } else if segment < 0xFF {
        3
    } else {
        6
    }
}

/// The width of the records of a bundle with segment indicator `segment`.
pub fn record_width(segment: u8) -> (width: u16)
    ensures
        width == spec_width(segment),
{
    if segment == 0 {
        0
    } else if segment < 0xFF {
        3
    } else {
        6
    }
}

/// Record `i` of the bundle whose records start at `pos`.
pub open spec fn spec_record(data: Seq<u8>, pos: int, segment: u8, i: int) -> SegmentEntry {
    if segment == 0 {
        SegmentEntry::Unused
    } else if segment < 0xFF {
        SegmentEntry::Fixed(FixedSegmentEntry::spec_at(data, pos + 3 * i, segment))
    } else {
        SegmentEntry::Moveable(MoveableSegmentEntry::spec_at(data, pos + 6 * i))
    }
}

/// The `count` records of the bundle whose records start at `pos`.
pub open spec fn spec_bundle(data: Seq<u8>, pos: int, segment: u8, count: int) -> Seq<
    SegmentEntry,
> {
    Seq::new(count as nat, |i: int| spec_record(data, pos, segment, i))
}

/// The number of bytes that `count` records of indicator `segment` take.
pub open spec fn spec_body_size(segment: u8, count: int) -> int {
    spec_width(segment) * count
}

/// Reads the records of one bundle. The reader is moved as far as records were read.
fn read_bundle(cur: &mut ByteReader, segment: u8, count: u8, entries: &mut Vec<SegmentEntry>) -> (res:
    Result<(), DecodeError>)
    requires
        old(cur).at() <= old(cur).data@.len(),
    ensures
        final(cur).data == old(cur).data,
        match res {
            Ok(()) => {
                &&& old(cur).at() + spec_body_size(segment, count as int) <= old(cur).data@.len()
                &&& final(cur).at() == old(cur).at() + spec_body_size(segment, count as int)
                &&& final(entries)@ == old(entries)@ + spec_bundle(
                    old(cur).data@,
                    old(cur).at(),
                    segment,
                    count as int,
                )
            },
            Err(e) => {
                &&& e == DecodeError::TruncatedInput
                &&& old(cur).at() + spec_body_size(segment, count as int) > old(cur).data@.len()
            },
        },
{
    let ghost start = old(cur).at();
    let ghost data = old(cur).data@;
    let ghost before = old(entries)@;
    let mut i: u8 = 0;
    while i < count
        invariant
            i <= count,
            start == old(cur).at(),
            data == old(cur).data@,
            before == old(entries)@,
            cur.data@ == data,
            cur.data == old(cur).data,
            cur.at() == start + spec_body_size(segment, i as int),
            cur.at() <= data.len(),
            entries@ == before + spec_bundle(data, start, segment, i as int),
        decreases count - i,
    {
        let entry = if segment == 0 {
            SegmentEntry::Unused
        } else if segment < 0xFF {
            SegmentEntry::Fixed(FixedSegmentEntry::read(cur, segment)?)
        } else {
            SegmentEntry::Moveable(MoveableSegmentEntry::read(cur)?)
        };
        assert(entry == spec_record(data, start, segment, i as int));
        entries.push(entry);
        assert(entries@ =~= before + spec_bundle(data, start, segment, i + 1));
        i += 1;
    }
    Ok(())
}

impl EntryTable {
    /// The table of declared byte length `length` at `pos`, read strictly.
    ///
    /// Bundles are read while budget is left. A bundle takes its two header
    /// bytes and its records from the budget and must not take more than is
    /// left. A bundle with a count of zero has no records: it takes its two
    /// header bytes and the table goes on after them.
    pub open spec fn spec_read(data: Seq<u8>, pos: int, length: int) -> Result<
        (Seq<SegmentEntry>, int),
        DecodeError,
    >
        decreases length,
    {
        if length <= 0 {
            Ok((Seq::empty(), pos))
        } else if !(0 <= pos && pos + 2 <= data.len()) {
            Err(DecodeError::TruncatedInput)
        } else {
            let count = data[pos] as int;
            let segment = data[pos + 1];
            let size = spec_body_size(segment, count) + 2;
            if size > length {
                Err(DecodeError::InconsistentLength)
            } else if pos + size > data.len() {
                Err(DecodeError::TruncatedInput)
            } else {
                prepend(
                    spec_bundle(data, pos + 2, segment, count),
                    Self::spec_read(data, pos + size, length - size),
                )
            }
        }
    }

    /// The table of declared byte length `remaining` at `pos`, read bundle by bundle.
    ///
    /// Every bundle starts with two bytes, count and segment indicator, which
    /// come out of the budget. A count of zero ends the table wherever it
    /// stands. The records of a bundle must not take more than is left.
    pub open spec fn spec_read_sf(data: Seq<u8>, pos: int, remaining: int) -> Result<
        (Seq<SegmentEntry>, int),
        DecodeError,
    >
        decreases remaining,
    {
        if remaining <= 0 {
            Ok((Seq::empty(), pos))
        } else if !(0 <= pos && pos + 2 <= data.len()) {
            Err(DecodeError::TruncatedInput)
        } else if remaining < 2 {
            Err(DecodeError::InconsistentLength)
        } else if data[pos] == 0 {
            Ok((Seq::empty(), pos + 2))
        } else {
            let count = data[pos] as int;
            let segment = data[pos + 1];
            let size = spec_body_size(segment, count);
            if size > remaining - 2 {
                Err(DecodeError::InconsistentLength)
            } else if pos + 2 + size > data.len() {
                Err(DecodeError::TruncatedInput)
            } else {
                prepend(
                    spec_bundle(data, pos + 2, segment, count),
                    Self::spec_read_sf(data, pos + 2 + size, remaining - 2 - size),
                )
            }
        }
    }

    /// Reads the entry table of declared byte length `length`, strictly: on
    /// success exactly `length` bytes were read.
    pub fn read(r: &mut ByteReader, length: u16) -> (res: Result<Self, DecodeError>)
        ensures
            reads_as(
                *old(r),
                *final(r),
                result_view(res),
                Self::spec_read(old(r).data@, old(r).at(), length as int),
            ),
            res is Ok ==> final(r).at() == old(r).at() + length,
    {
        let ghost data = r.data@;
        let ghost goal = Self::spec_read(data, r.at(), length as int);
        let mut cur = *r;
        let mut left = length;
        let mut entries: Vec<SegmentEntry> = Vec::new();
        proof {
            lemma_prepend_empty(entries@, Self::spec_read(data, cur.at(), left as int), 0);
            lemma_read_consumes_budget(data, r.at(), length as int);
        }
        while left > 0
            invariant
                *r == *old(r),
                cur.data == r.data,
                data == r.data@,
                goal == Self::spec_read(data, old(r).at(), length as int),
                goal == prepend(entries@, Self::spec_read(data, cur.at(), left as int)),
                goal is Ok ==> goal->Ok_0.1 == old(r).at() + length,
            decreases left,
        {
            let ghost head = cur.at();
            let header = cur.take(2)?;
            let num = header[0];
            let segment = header[1];
            let bundle_size: u16 = record_width(segment) * (num as u16) + 2;
            if bundle_size > left {
                return Err(DecodeError::InconsistentLength);
            }
            left -= bundle_size;
            let ghost before = entries@;
            read_bundle(&mut cur, segment, num, &mut entries)?;
            proof {
                lemma_prepend_twice(
                    before,
                    spec_bundle(data, head + 2, segment, num as int),
                    Self::spec_read(data, cur.at(), left as int),
                );
            }
        }
        proof {
            lemma_prepend_empty(entries@, goal, cur.at());
        }
        *r = cur;
        Ok(Self { entries })
    }

    /// Reads the entry table of declared byte length `cb_ent_tab` bundle by
    /// bundle. On success no more than `cb_ent_tab` bytes were read.
    pub fn read_sf(r: &mut ByteReader, cb_ent_tab: u16) -> (res: Result<Self, DecodeError>)
        ensures
            reads_as(
                *old(r),
                *final(r),
                result_view(res),
                Self::spec_read_sf(old(r).data@, old(r).at(), cb_ent_tab as int),
            ),
            res is Ok ==> old(r).at() <= final(r).at() <= old(r).at() + cb_ent_tab,
    {
        let ghost data = r.data@;
        let ghost goal = Self::spec_read_sf(data, r.at(), cb_ent_tab as int);
        let mut cur = *r;
        let mut bytes_remaining = cb_ent_tab;
        let mut entries: Vec<SegmentEntry> = Vec::new();
        proof {
            lemma_prepend_empty(
                entries@,
                Self::spec_read_sf(data, cur.at(), bytes_remaining as int),
                0,
            );
            lemma_read_sf_stays_in_budget(data, r.at(), cb_ent_tab as int);
        }
        while bytes_remaining > 0
            invariant
                *r == *old(r),
                cur.data == r.data,
                data == r.data@,
                goal == Self::spec_read_sf(data, old(r).at(), cb_ent_tab as int),
                goal == prepend(entries@, Self::spec_read_sf(data, cur.at(), bytes_remaining as int)),
                goal is Ok ==> old(r).at() <= goal->Ok_0.1 <= old(r).at() + cb_ent_tab,
            decreases bytes_remaining,
        {
            let ghost head = cur.at();
            // Read bundle header
            let buffer = cur.take(2)?;
            if bytes_remaining < 2 {
                return Err(DecodeError::InconsistentLength);
            }
            bytes_remaining -= 2;

            let entries_count = buffer[0];
            let seg_id = buffer[1];

            if entries_count == 0 {
                // End of table marker
                bytes_remaining = 0;
            } else {
                // Calculate bundle size based on segment type
                let bundle_size: u16 = record_width(seg_id) * (entries_count as u16);
                if bundle_size > bytes_remaining {
                    return Err(DecodeError::InconsistentLength);
                }
                bytes_remaining -= bundle_size;
                let ghost before = entries@;
                // Process each entry in the bundle
                read_bundle(&mut cur, seg_id, entries_count, &mut entries)?;
                proof {
                    lemma_prepend_twice(
                        before,
                        spec_bundle(data, head + 2, seg_id, entries_count as int),
                        Self::spec_read_sf(data, cur.at(), bytes_remaining as int),
                    );
                }
            }
        }
        proof {
            lemma_prepend_empty(entries@, goal, cur.at());
        }
        *r = cur;
        Ok(Self { entries })
    }
}

/// A strict read that succeeds uses up its budget to the byte: the table ends
/// exactly `length` bytes after it began.
pub proof fn lemma_read_consumes_budget(data: Seq<u8>, pos: int, length: int)
    requires
        0 <= length,
    ensures
        EntryTable::spec_read(data, pos, length) matches Ok((_, end)) ==> end == pos + length,
    decreases length,
{
    if length > 0 && 0 <= pos && pos + 2 <= data.len() {
        let size = spec_body_size(data[pos + 1], data[pos] as int) + 2;
        if size <= length && pos + size <= data.len() {
            lemma_read_consumes_budget(data, pos + size, length - size);
        }
    }
}

/// A bundle-by-bundle read that succeeds never goes past its budget: the table
/// ends no more than `remaining` bytes after it began.
pub proof fn lemma_read_sf_stays_in_budget(data: Seq<u8>, pos: int, remaining: int)
    requires
        0 <= remaining,
    ensures
        EntryTable::spec_read_sf(data, pos, remaining) matches Ok((_, end)) ==> pos <= end <= pos
            + remaining,
    decreases remaining,
{
    if remaining >= 2 && 0 <= pos && pos + 2 <= data.len() && data[pos] != 0 {
        let size = spec_body_size(data[pos + 1], data[pos] as int);
        if size <= remaining - 2 && pos + 2 + size <= data.len() {
            lemma_read_sf_stays_in_budget(data, pos + 2 + size, remaining - 2 - size);
        }
    }
}

/// A bundle whose header and records would take more than the budget that is
/// left is refused, by however little it overruns.
pub proof fn lemma_overrun_is_inconsistent(data: Seq<u8>, pos: int, length: int)
    requires
        0 <= pos,
        pos + 2 <= data.len(),
        length >= 1,
        spec_body_size(data[pos + 1], data[pos] as int) + 2 > length,
    ensures
        EntryTable::spec_read(data, pos, length) == Err::<(Seq<SegmentEntry>, int), DecodeError>(
            DecodeError::InconsistentLength,
        ),
        EntryTable::spec_read_sf(data, pos, length) == Err::<(Seq<SegmentEntry>, int), DecodeError>(
            DecodeError::InconsistentLength,
        ),
{
}

/// A bundle with a count of zero has no records. Read strictly, it takes its
/// two header bytes from the budget and the table goes on after them; where it
/// is all the budget, the table is empty and ends after the two bytes.
pub proof fn lemma_zero_count_is_an_empty_bundle(data: Seq<u8>, pos: int, length: int)
    requires
        0 <= pos,
        pos + 2 <= data.len(),
        length >= 2,
        data[pos] == 0,
    ensures
        EntryTable::spec_read(data, pos, length) == EntryTable::spec_read(
            data,
            pos + 2,
            length - 2,
        ),
        EntryTable::spec_read(data, pos, 2) == Ok::<(Seq<SegmentEntry>, int), DecodeError>(
            (Seq::empty(), pos + 2),
        ),
{
    let rest = EntryTable::spec_read(data, pos + 2, length - 2);
    assert(spec_bundle(data, pos + 2, data[pos + 1], 0) =~= Seq::<SegmentEntry>::empty());
    lemma_prepend_empty(Seq::<SegmentEntry>::empty(), rest, 0);
    lemma_prepend_empty(
        Seq::<SegmentEntry>::empty(),
        EntryTable::spec_read(data, pos + 2, 0),
        0,
    );
}

/// An entry table fails only for want of bytes or for a bundle that overruns
/// the declared length, whichever way it is read.
pub proof fn lemma_read_sf_fails_truncated_or_inconsistent(data: Seq<u8>, pos: int, length: int)
    ensures
        EntryTable::spec_read_sf(data, pos, length) matches Err(e) ==> e
            == DecodeError::TruncatedInput || e == DecodeError::InconsistentLength,
        EntryTable::spec_read(data, pos, length) matches Err(e) ==> e == DecodeError::TruncatedInput
            || e == DecodeError::InconsistentLength,
    decreases length,
{
    if length > 0 && 0 <= pos && pos + 2 <= data.len() {
        let size = spec_body_size(data[pos + 1], data[pos] as int);
        if length >= 2 && size <= length - 2 && pos + 2 + size <= data.len() {
            lemma_read_sf_fails_truncated_or_inconsistent(data, pos + 2 + size, length - 2 - size);
        }
    }
}

} // verus!
