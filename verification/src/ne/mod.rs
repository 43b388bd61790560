//! The New Executable container: its header, its tables and its segments.

pub mod entry_table;
pub mod header;
pub mod module_reference_table;
pub mod names;
pub mod nonresident_name_table;
pub mod resident_name_table;
pub mod resource_table;
pub mod segment_entry;
pub mod segment_relocations;
pub mod segment_table;

use vstd::prelude::*;
use vstd::slice::slice_subrange;
use crate::error::DecodeError;
use crate::mz::DosHeader;
use crate::ne::entry_table::{EntryTable, SegmentEntry};
use crate::ne::header::{NeHeader, RESOURCE_COUNT_UNKNOWN};
use crate::ne::module_reference_table::{ModuleReference, ModuleReferenceTable};
use crate::ne::names::{spec_name_table, NameRecord};
use crate::ne::nonresident_name_table::NonresidentNameTable;
use crate::ne::resident_name_table::ResidentNameTable;
use crate::ne::resource_table::{NeResourceTable, ResourceTable};
use crate::ne::segment_relocations::{RelocationEntry, RelocationTable};
use crate::ne::segment_table::{NeSegment, Segment};
use crate::util::endian::{le16, u16_le_at};
use crate::util::reader::{
    lemma_prepend_empty, lemma_prepend_twice, prepend, reads_as, result_view, ByteReader,
};
use crate::x86::{disassemble, spec_disassemble, Inst};

verus! {

/// The parsed New Executable binary.
#[derive(Debug, Clone)]
pub struct NeExecutable {
    pub dos_header: Box<DosHeader>,
    pub ne_header: Box<NeHeader>,
    pub segment_entries: Vec<NeSegment>,
    pub resource_table: NeResourceTable,
    pub resident_name_table: ResidentNameTable,
    pub module_reference_table: ModuleReferenceTable,
    pub entry_table: EntryTable,
    pub nonresident_name_table: NonresidentNameTable,
    /// The relocation tables, in the order of the segments that carry one.
    pub relocation_tables_per_segment: Vec<RelocationTable>,
}

/// A parsed container as a mathematical value.
pub struct Executable {
    pub dos_header: DosHeader,
    pub ne_header: NeHeader,
    pub segment_entries: Seq<Segment>,
    pub resource_table: ResourceTable,
    pub resident_name_table: Seq<NameRecord>,
    pub module_reference_table: Seq<ModuleReference>,
    pub entry_table: Seq<SegmentEntry>,
    pub nonresident_name_table: Seq<NameRecord>,
    pub relocation_tables_per_segment: Seq<Seq<RelocationEntry>>,
}

/// Segments with their bytes attached, and the relocation tables that were met on the way.
pub struct LoadedSegments {
    pub segments: Seq<Segment>,
    pub relocations: Seq<Seq<RelocationEntry>>,
}

impl View for NeExecutable {
    type V = Executable;

    open spec fn view(&self) -> Executable {
        Executable {
            dos_header: *self.dos_header,
            ne_header: *self.ne_header,
            segment_entries: self.segment_entries@.map_values(|s: NeSegment| s@),
            resource_table: self.resource_table@,
            resident_name_table: self.resident_name_table@,
            module_reference_table: self.module_reference_table@,
            entry_table: self.entry_table@,
            nonresident_name_table: self.nonresident_name_table@,
            relocation_tables_per_segment: self.relocation_tables_per_segment@.map_values(
                |t: RelocationTable| t@,
            ),
        }
    }
}

/// The two headers of the container that begins at `pos`.
///
/// The legacy header stands at `pos` and must carry the signature `MZ`. The
/// extended header stands at the file offset that the legacy header names and
/// must carry the signature `NE`.
pub open spec fn spec_headers(data: Seq<u8>, pos: int) -> Result<(DosHeader, NeHeader), DecodeError> {
    match DosHeader::spec_read(data, pos) {
        Err(e) => Err(e),
        Ok((dos, _)) => if dos.spec_check_magic() is Err {
            Err(DecodeError::BadMagic)
        } else {
            match NeHeader::spec_read(data, dos.lfanew as int) {
                Err(e) => Err(e),
                Ok((ne, _)) => if ne.spec_check_magic() is Err {
                    Err(DecodeError::BadMagic)
                } else {
                    Ok((dos, ne))
                },
            }
        },
    }
}

/// The `count` records of the segment table at `pos`, no bytes attached.
pub open spec fn spec_segment_table(data: Seq<u8>, pos: int, count: int, shift_count: u16) -> Result<
    (Seq<Segment>, int),
    DecodeError,
>
    decreases count,
{
    if count <= 0 {
        Ok((Seq::empty(), pos))
    } else {
        match NeSegment::spec_read(data, pos, shift_count) {
            Err(e) => Err(e),
            Ok((segment, end)) => prepend(
                seq![segment],
                spec_segment_table(data, end, count - 1, shift_count),
            ),
        }
    }
}

/// The resource table of the container whose extended header `ne` stands at
/// `base`. A resource-entry count of 0xFFFF means that the number of resource
/// types is not known and a terminator ends the table.
pub open spec fn spec_resource_table(data: Seq<u8>, base: int, ne: NeHeader) -> Result<
    (ResourceTable, int),
    DecodeError,
> {
    if ne.resource_table_entries == RESOURCE_COUNT_UNKNOWN {
        NeResourceTable::spec_read_variadic(data, base + ne.resource_table_offset)
    } else {
        NeResourceTable::spec_read(
            data,
            base + ne.resource_table_offset,
            ne.resource_table_entries as int,
        )
    }
}

/// The module references of the container whose extended header `ne` stands
/// at `base`, with their names resolved against the imported-names table.
pub open spec fn spec_module_references(data: Seq<u8>, base: int, ne: NeHeader) -> Result<
    (Seq<ModuleReference>, int),
    DecodeError,
> {
    match ModuleReferenceTable::spec_read(
        data,
        base + ne.module_reference_table_offset,
        ne.module_references as int,
    ) {
        Err(e) => Err(e),
        Ok((unresolved, end)) => ModuleReferenceTable::spec_read_names(
            data,
            unresolved,
            base + ne.import_name_table_offset,
            0,
            end,
        ),
    }
}

/// What was loaded so far, put in front of what loading the segments after it gives.
pub open spec fn spec_loaded_after(
    done: LoadedSegments,
    rest: Result<(LoadedSegments, int), DecodeError>,
) -> Result<(LoadedSegments, int), DecodeError> {
    match rest {
        Err(e) => Err(e),
        Ok((loaded, end)) => Ok(
            (
                LoadedSegments {
                    segments: done.segments + loaded.segments,
                    relocations: done.relocations + loaded.relocations,
                },
                end,
            ),
        ),
    }
}

/// One loaded segment and, where it carries one, its relocation table.
pub open spec fn spec_loaded_one(
    segment: Segment,
    relocations: Option<Seq<RelocationEntry>>,
) -> LoadedSegments {
    LoadedSegments {
        segments: seq![segment],
        relocations: match relocations {
            Some(table) => seq![table],
            None => Seq::empty(),
        },
    }
}

/// What loading the segments from index `from` on gives, for a reader that
/// stands at `pos`.
///
/// The segments are taken in the order of the table. For each the bytes are
/// attached. Where the flags of the segment say so, a relocation table is read
/// from where the reader then stands: after the bytes of the segment, or, for a
/// segment without bytes, where the reader was left before.
pub open spec fn spec_load_segments(data: Seq<u8>, segments: Seq<Segment>, from: int, pos: int) -> Result<
    (LoadedSegments, int),
    DecodeError,
>
    decreases segments.len() - from,
{
    if from < 0 || from >= segments.len() {
        Ok((LoadedSegments { segments: Seq::empty(), relocations: Seq::empty() }, pos))
    } else {
        match segments[from].spec_read_data(data, pos) {
            Err(e) => Err(e),
            Ok((bytes, end)) => {
                let segment = Segment {
                    header: segments[from].header,
                    shift_count: segments[from].shift_count,
                    data: bytes,
                };
                if segment.header.spec_has_relocations() {
                    match RelocationTable::spec_read(data, end) {
                        Err(e) => Err(e),
                        Ok((relocations, after)) => spec_loaded_after(
                            spec_loaded_one(segment, Some(relocations)),
                            spec_load_segments(data, segments, from + 1, after),
                        ),
                    }
                } else {
                    spec_loaded_after(
                        spec_loaded_one(segment, None),
                        spec_load_segments(data, segments, from + 1, end),
                    )
                }
            },
        }
    }
}

impl NeExecutable {
    /// The container that begins at `pos` of `data`, and where the reader is left.
    ///
    /// The tables are read in a fixed order and the first failure ends the
    /// read: headers, segment table, resource table, resident names, module
    /// references and their names, entry table, non-resident names, and last
    /// the bytes and relocation tables of the segments. Every table offset
    /// counts from the place of the extended header, but that of the
    /// non-resident names, which counts from the start of the file.
    pub open spec fn spec_read(data: Seq<u8>, pos: int) -> Result<(Executable, int), DecodeError> {
        match Self::spec_read_front(data, pos) {
            Err(e) => Err(e),
            Ok(so_far) => Self::spec_read_tail(data, so_far),
        }
    }

    /// The first half of [`Self::spec_read`]: headers, segment table, resource
    /// table, resident names and module references. The rest is left empty.
    pub open spec fn spec_read_front(data: Seq<u8>, pos: int) -> Result<Executable, DecodeError> {
        match spec_headers(data, pos) {
            Err(e) => Err(e),
            Ok((dos, ne)) => {
                let base = dos.lfanew as int;
                match spec_segment_table(
                    data,
                    base + ne.segment_table_offset,
                    ne.segment_count as int,
                    ne.file_alignment_shift_count,
                ) {
                    Err(e) => Err(e),
                    Ok((segments, _)) => match spec_resource_table(data, base, ne) {
                        Err(e) => Err(e),
                        Ok((resource_table, _)) => match spec_name_table(
                            data,
                            base + ne.resident_names_table_offset,
                        ) {
                            Err(e) => Err(e),
                            Ok((resident, _)) => match spec_module_references(data, base, ne) {
                                Err(e) => Err(e),
                                Ok((modules, _)) => Ok(
                                    Executable {
                                        dos_header: dos,
                                        ne_header: ne,
                                        segment_entries: segments,
                                        resource_table,
                                        resident_name_table: resident,
                                        module_reference_table: modules,
                                        entry_table: Seq::empty(),
                                        nonresident_name_table: Seq::empty(),
                                        relocation_tables_per_segment: Seq::empty(),
                                    },
                                ),
                            },
                        },
                    },
                }
            },
        }
    }

    /// The second half of [`Self::spec_read`]: entry table, non-resident names
    /// and segments, added to what `so_far` holds of the container.
    pub open spec fn spec_read_tail(data: Seq<u8>, so_far: Executable) -> Result<
        (Executable, int),
        DecodeError,
    > {
        let ne = so_far.ne_header;
        let base = so_far.dos_header.lfanew as int;
        match EntryTable::spec_read_sf(
            data,
            base + ne.entry_table_offset,
            ne.entry_table_length as int,
        ) {
            Err(e) => Err(e),
            Ok((entries, _)) => match spec_name_table(
                data,
                ne.non_resident_names_table_offset as int,
            ) {
                Err(e) => Err(e),
                Ok((nonresident, after_names)) => match spec_load_segments(
                    data,
                    so_far.segment_entries,
                    0,
                    after_names,
                ) {
                    Err(e) => Err(e),
                    Ok((loaded, end)) => Ok(
                        (
                            Executable {
                                dos_header: so_far.dos_header,
                                ne_header: so_far.ne_header,
                                segment_entries: loaded.segments,
                                resource_table: so_far.resource_table,
                                resident_name_table: so_far.resident_name_table,
                                module_reference_table: so_far.module_reference_table,
                                entry_table: entries,
                                nonresident_name_table: nonresident,
                                relocation_tables_per_segment: loaded.relocations,
                            },
                            end,
                        ),
                    ),
                },
            },
        }
    }
}

/// A container is refused for its signature exactly when a header that could
/// be read does not begin with its two signature bytes: `M`, `Z` for the legacy
/// header at `pos`, or, that one being in order, `N`, `E` for the extended
/// header at the offset that the legacy header names.
pub proof fn lemma_bad_magic_iff_a_signature_differs(data: Seq<u8>, pos: int)
    ensures
        NeExecutable::spec_read(data, pos) == Err::<(Executable, int), DecodeError>(
            DecodeError::BadMagic,
        ) <==> ({
            &&& DosHeader::spec_read(data, pos) matches Ok((dos, _))
            &&& {
                ||| !(data[pos] == 0x4D && data[pos + 1] == 0x5A)
                ||| {
                    &&& NeHeader::spec_read(data, dos.lfanew as int) is Ok
                    &&& !(data[dos.lfanew as int] == 0x4E && data[dos.lfanew + 1] == 0x45)
                }
            }
        }),
{
    if let Ok((dos, _)) = DosHeader::spec_read(data, pos) {
        crate::mz::lemma_dos_bad_magic_iff_signature_differs(data, pos);
        if NeHeader::spec_read(data, dos.lfanew as int) is Ok {
            crate::ne::header::lemma_ne_bad_magic_iff_signature_differs(data, dos.lfanew as int);
        }
        if spec_headers(data, pos) is Ok {
            lemma_tables_fail_without_bad_magic(data, pos);
        }
    }
}

/// Reading a container fails in four ways only: for a signature, for want of
/// bytes, for an entry table that overruns its declared length, and for an
/// undefined relocation target. Once both signatures are in order, nothing that
/// is read after them is refused for a signature.
pub proof fn lemma_container_failures(data: Seq<u8>, pos: int)
    ensures
        NeExecutable::spec_read(data, pos) matches Err(e) ==> {
            ||| e == DecodeError::BadMagic && spec_headers(data, pos) is Err
            ||| e == DecodeError::TruncatedInput
            ||| e == DecodeError::InconsistentLength
            ||| e == DecodeError::InvalidRelocationType
        },
{
    if spec_headers(data, pos) is Ok {
        lemma_tables_fail_without_bad_magic(data, pos);
    }
}

/// What is read after the headers fails for want of bytes, for an entry table
/// that overruns its declared length, or for an undefined relocation target.
proof fn lemma_tables_fail_without_bad_magic(data: Seq<u8>, pos: int)
    requires
        spec_headers(data, pos) is Ok,
    ensures
        NeExecutable::spec_read(data, pos) matches Err(e) ==> {
            ||| e == DecodeError::TruncatedInput
            ||| e == DecodeError::InconsistentLength
            ||| e == DecodeError::InvalidRelocationType
        },
{
    let (dos, ne) = spec_headers(data, pos)->Ok_0;
    let base = dos.lfanew as int;
    lemma_segment_table_fails_truncated(
        data,
        base + ne.segment_table_offset,
        ne.segment_count as int,
        ne.file_alignment_shift_count,
    );
    crate::ne::resource_table::lemma_resource_table_fails_truncated(
        data,
        base + ne.resource_table_offset,
        ne.resource_table_entries as int,
    );
    crate::ne::names::lemma_name_table_fails_truncated(data, base + ne.resident_names_table_offset);
    crate::ne::names::lemma_name_table_fails_truncated(
        data,
        ne.non_resident_names_table_offset as int,
    );
    crate::ne::module_reference_table::lemma_module_references_fail_truncated(
        data,
        base + ne.module_reference_table_offset,
        ne.module_references as int,
    );
    if let Ok((unresolved, end)) = ModuleReferenceTable::spec_read(
        data,
        base + ne.module_reference_table_offset,
        ne.module_references as int,
    ) {
        crate::ne::module_reference_table::lemma_read_names_fails_truncated(
            data,
            unresolved,
            base + ne.import_name_table_offset,
            0,
            end,
        );
    }
    crate::ne::entry_table::lemma_read_sf_fails_truncated_or_inconsistent(
        data,
        base + ne.entry_table_offset,
        ne.entry_table_length as int,
    );
    if let Ok(so_far) = NeExecutable::spec_read_front(data, pos) {
        if let Ok((_, after_names)) = spec_name_table(
            data,
            ne.non_resident_names_table_offset as int,
        ) {
            lemma_load_segments_fails_truncated_or_invalid(
                data,
                so_far.segment_entries,
                0,
                after_names,
            );
        }
    }
}

/// A segment table fails only for want of bytes.
proof fn lemma_segment_table_fails_truncated(data: Seq<u8>, pos: int, count: int, shift_count: u16)
    ensures
        spec_segment_table(data, pos, count, shift_count) matches Err(e) ==> e
            == DecodeError::TruncatedInput,
    decreases count,
{
    if count > 0 {
        if let Ok((_, end)) = NeSegment::spec_read(data, pos, shift_count) {
            lemma_segment_table_fails_truncated(data, end, count - 1, shift_count);
        }
    }
}

/// Loading segments fails only for want of bytes or for an undefined relocation target.
proof fn lemma_load_segments_fails_truncated_or_invalid(
    data: Seq<u8>,
    segments: Seq<Segment>,
    from: int,
    pos: int,
)
    ensures
        spec_load_segments(data, segments, from, pos) matches Err(e) ==> e
            == DecodeError::TruncatedInput || e == DecodeError::InvalidRelocationType,
    decreases segments.len() - from,
{
    if 0 <= from < segments.len() {
        if let Ok((_, end)) = segments[from].spec_read_data(data, pos) {
            if segments[from].header.spec_has_relocations() {
                crate::ne::segment_relocations::lemma_relocations_fail_truncated_or_invalid(
                    data,
                    end + 2,
                    le16(data, end) as int,
                );
                if let Ok((_, after)) = RelocationTable::spec_read(data, end) {
                    lemma_load_segments_fails_truncated_or_invalid(data, segments, from + 1, after);
                }
            } else {
                lemma_load_segments_fails_truncated_or_invalid(data, segments, from + 1, end);
            }
        }
    }
}

/// The segments of a table by their views.
pub open spec fn segments_view(segments: Seq<NeSegment>) -> Seq<Segment> {
    segments.map_values(|s: NeSegment| s@)
}

/// The relocation tables by their views.
pub open spec fn relocations_view(tables: Seq<RelocationTable>) -> Seq<Seq<RelocationEntry>> {
    tables.map_values(|t: RelocationTable| t@)
}

/// Putting loaded segments in front in two steps is putting them in front at once.
proof fn lemma_loaded_after_twice(
    first: LoadedSegments,
    second: LoadedSegments,
    rest: Result<(LoadedSegments, int), DecodeError>,
)
    ensures
        spec_loaded_after(first, spec_loaded_after(second, rest)) == spec_loaded_after(
            LoadedSegments {
                segments: first.segments + second.segments,
                relocations: first.relocations + second.relocations,
            },
            rest,
        ),
{
    if let Ok((loaded, end)) = rest {
        assert(first.segments + (second.segments + loaded.segments) =~= (first.segments
            + second.segments) + loaded.segments);
        assert(first.relocations + (second.relocations + loaded.relocations) =~= (first.relocations
            + second.relocations) + loaded.relocations);
    }
}

/// A segment table that could be read holds as many segments as were asked
/// for, takes eight bytes for each, and has no bytes attached to any of them.
pub proof fn lemma_segment_table_has_no_data(data: Seq<u8>, pos: int, count: int, shift_count: u16)
    requires
        spec_segment_table(data, pos, count, shift_count) is Ok,
    ensures
        ({
            let (segments, end) = spec_segment_table(data, pos, count, shift_count)->Ok_0;
            &&& segments.len() == (if count > 0 {
                count
            } else {
                0
            })
            &&& end == pos + 8 * segments.len()
            &&& forall|i: int|
                0 <= i < segments.len() ==> (#[trigger] segments[i]).data is None && segments[i].shift_count
                    == shift_count
        }),
    decreases count,
{
    if count > 0 {
        let (segment, end) = NeSegment::spec_read(data, pos, shift_count)->Ok_0;
        lemma_segment_table_has_no_data(data, end, count - 1, shift_count);
        let (rest, _) = spec_segment_table(data, end, count - 1, shift_count)->Ok_0;
        let (segments, _) = spec_segment_table(data, pos, count, shift_count)->Ok_0;
        assert(segments == seq![segment] + rest);
        assert forall|i: int| 0 <= i < segments.len() implies (#[trigger] segments[i]).data is None
            && segments[i].shift_count == shift_count by {
            if i > 0 {
                assert(segments[i] == rest[i - 1]);
            }
        }
    }
}

/// Reads both headers and checks their signatures.
fn read_headers(cur: &mut ByteReader) -> (res: Result<(DosHeader, NeHeader), DecodeError>)
    ensures
        final(cur).data == old(cur).data,
        res == spec_headers(old(cur).data@, old(cur).at()),
{
    let dos_header = DosHeader::read(cur)?;
    // Without the signature this cannot be a segmented image.
    dos_header.check_magic()?;
    cur.seek(dos_header.lfanew as u64);
    let ne_header = NeHeader::read(cur)?;
    ne_header.check_magic()?;
    Ok((dos_header, ne_header))
}

/// Reads the `count` records of the segment table.
fn read_segment_table(cur: &mut ByteReader, count: u16, shift_count: u16) -> (res: Result<
    Vec<NeSegment>,
    DecodeError,
>)
    ensures
        final(cur).data == old(cur).data,
        match spec_segment_table(old(cur).data@, old(cur).at(), count as int, shift_count) {
            Ok((segments, end)) => {
                &&& res is Ok
                &&& segments_view(res->Ok_0@) == segments
                &&& final(cur).pos == end
            },
            Err(e) => res == Err::<Vec<NeSegment>, DecodeError>(e),
        },
{
    let ghost data = cur.data@;
    let ghost goal = spec_segment_table(data, cur.at(), count as int, shift_count);
    let mut segments: Vec<NeSegment> = Vec::new();
    let mut done: u16 = 0;
    proof {
        lemma_prepend_empty(Seq::<Segment>::empty(), goal, 0);
        assert(segments_view(segments@) =~= Seq::<Segment>::empty());
    }
    while done < count
        invariant
            cur.data == old(cur).data,
            data == cur.data@,
            done <= count,
            goal == spec_segment_table(data, old(cur).at(), count as int, shift_count),
            goal == prepend(
                segments_view(segments@),
                spec_segment_table(data, cur.at(), count - done, shift_count),
            ),
        decreases count - done,
    {
        let ghost before = segments_view(segments@);
        let segment = NeSegment::read(cur, shift_count)?;
        proof {
            lemma_prepend_twice(
                before,
                seq![segment@],
                spec_segment_table(data, cur.at(), count - done - 1, shift_count),
            );
            assert(segments_view(segments@.push(segment)) =~= before + seq![segment@]);
        }
        segments.push(segment);
        done += 1;
    }
    proof {
        lemma_prepend_empty(segments_view(segments@), goal, cur.at());
    }
    Ok(segments)
}

/// Reads the resource table, counted or ended by a terminator as the header says.
fn read_resource_table(cur: &mut ByteReader, base: u64, ne: &NeHeader) -> (res: Result<
    NeResourceTable,
    DecodeError,
>)
    requires
        base <= u32::MAX,
    ensures
        final(cur).data == old(cur).data,
        result_view(res) == (match spec_resource_table(old(cur).data@, base as int, *ne) {
            Ok((table, _)) => Ok::<ResourceTable, DecodeError>(table),
            Err(e) => Err::<ResourceTable, DecodeError>(e),
        }),
{
    cur.seek(base + ne.resource_table_offset as u64);
    if ne.resource_table_entries == RESOURCE_COUNT_UNKNOWN {
        NeResourceTable::read_variadic(cur)
    } else {
        NeResourceTable::read(cur, ne.resource_table_entries)
    }
}

/// Reads the module-reference table and resolves its names.
fn read_module_references(cur: &mut ByteReader, base: u64, ne: &NeHeader) -> (res: Result<
    ModuleReferenceTable,
    DecodeError,
>)
    requires
        base <= u32::MAX,
    ensures
        final(cur).data == old(cur).data,
        result_view(res) == (match spec_module_references(old(cur).data@, base as int, *ne) {
            Ok((modules, _)) => Ok::<Seq<ModuleReference>, DecodeError>(modules),
            Err(e) => Err::<Seq<ModuleReference>, DecodeError>(e),
        }),
{
    cur.seek(base + ne.module_reference_table_offset as u64);
    let mut table = ModuleReferenceTable::read(cur, ne.module_references)?;
    table.read_names(cur, base + ne.import_name_table_offset as u64)?;
    Ok(table)
}

/// Attaches the bytes to every segment of `table` and reads the relocation
/// tables of those that carry one.
fn load_segments(cur: &mut ByteReader, table: &Vec<NeSegment>) -> (res: Result<
    (Vec<NeSegment>, Vec<RelocationTable>),
    DecodeError,
>)
    requires
        forall|i: int| 0 <= i < table@.len() ==> (#[trigger] table@[i]).data is None,
    ensures
        final(cur).data == old(cur).data,
        match spec_load_segments(old(cur).data@, segments_view(table@), 0, old(cur).at()) {
            Ok((loaded, end)) => {
                &&& res is Ok
                &&& segments_view(res->Ok_0.0@) == loaded.segments
                &&& relocations_view(res->Ok_0.1@) == loaded.relocations
                &&& final(cur).pos == end
            },
            Err(e) => res == Err::<(Vec<NeSegment>, Vec<RelocationTable>), DecodeError>(e),
        },
{
    let ghost data = cur.data@;
    let ghost unloaded = segments_view(table@);
    let ghost goal = spec_load_segments(data, unloaded, 0, cur.at());
    let mut segments: Vec<NeSegment> = Vec::new();
    let mut relocs_per_segment: Vec<RelocationTable> = Vec::new();
    let mut i: usize = 0;
    proof {
        assert(segments_view(segments@) =~= Seq::<Segment>::empty());
        assert(relocations_view(relocs_per_segment@) =~= Seq::<Seq<RelocationEntry>>::empty());
        if let Ok((loaded, end)) = goal {
            assert(Seq::<Segment>::empty() + loaded.segments =~= loaded.segments);
            assert(Seq::<Seq<RelocationEntry>>::empty() + loaded.relocations
                =~= loaded.relocations);
        }
    }
    while i < table.len()
        invariant
            cur.data == old(cur).data,
            data == cur.data@,
            unloaded == segments_view(table@),
            i <= table@.len(),
            forall|k: int| 0 <= k < table@.len() ==> (#[trigger] table@[k]).data is None,
            goal == spec_load_segments(data, unloaded, 0, old(cur).at()),
            goal == spec_loaded_after(
                LoadedSegments {
                    segments: segments_view(segments@),
                    relocations: relocations_view(relocs_per_segment@),
                },
                spec_load_segments(data, unloaded, i as int, cur.at()),
            ),
        decreases table@.len() - i,
    {
        let ghost done = LoadedSegments {
            segments: segments_view(segments@),
            relocations: relocations_view(relocs_per_segment@),
        };
        let mut segment = NeSegment {
            header: table[i].header,
            shift_count: table[i].shift_count,
            data: None,
        };
        assert(segment@ == unloaded[i as int]);
        segment.read_data(cur)?;
        let ghost relocations: Option<Seq<RelocationEntry>>;
        if segment.header.has_relocations() {
            let table = RelocationTable::read(cur)?;
            proof {
                relocations = Some(table@);
                assert(relocations_view(relocs_per_segment@.push(table)) =~= done.relocations
                    + seq![table@]);
            }
            relocs_per_segment.push(table);
        } else {
            proof {
                relocations = None;
                assert(done.relocations + Seq::<Seq<RelocationEntry>>::empty()
                    =~= done.relocations);
            }
        }
        proof {
            lemma_loaded_after_twice(
                done,
                spec_loaded_one(segment@, relocations),
                spec_load_segments(data, unloaded, i + 1, cur.at()),
            );
            assert(segments_view(segments@.push(segment)) =~= done.segments + seq![segment@]);
        }
        segments.push(segment);
        i += 1;
    }
    proof {
        assert(segments_view(segments@) + Seq::<Segment>::empty() =~= segments_view(segments@));
        assert(relocations_view(relocs_per_segment@) + Seq::<Seq<RelocationEntry>>::empty()
            =~= relocations_view(relocs_per_segment@));
    }
    Ok((segments, relocs_per_segment))
}

/// Reads what comes first: headers, segment table, resource table, resident
/// names and module references.
fn read_front(cur: &mut ByteReader) -> (res: Result<NeExecutable, DecodeError>)
    ensures
        final(cur).data == old(cur).data,
        result_view(res) == NeExecutable::spec_read_front(old(cur).data@, old(cur).at()),
        res matches Ok(so_far) ==> forall|i: int|
            0 <= i < so_far.segment_entries@.len() ==> (
            #[trigger] so_far.segment_entries@[i]).data is None,
{
    let ghost data = cur.data@;
    let (dos_header, ne_header) = read_headers(cur)?;

    let lfanew = dos_header.lfanew as u64;

    cur.seek(lfanew + ne_header.segment_table_offset as u64);
    let segment_entries = read_segment_table(
        cur,
        ne_header.segment_count,
        ne_header.file_alignment_shift_count,
    )?;
    proof {
        lemma_segment_table_has_no_data(
            data,
            lfanew + ne_header.segment_table_offset,
            ne_header.segment_count as int,
            ne_header.file_alignment_shift_count,
        );
        assert forall|i: int| 0 <= i < segment_entries@.len() implies (
        #[trigger] segment_entries@[i]).data is None by {
            assert(segments_view(segment_entries@)[i] == segment_entries@[i]@);
        }
    }

    let resource_table = read_resource_table(cur, lfanew, &ne_header)?;

    cur.seek(lfanew + ne_header.resident_names_table_offset as u64);
    let resident_name_table = ResidentNameTable::read(cur)?;

    let module_reference_table = read_module_references(cur, lfanew, &ne_header)?;

    let exe = NeExecutable {
        dos_header: Box::new(dos_header),
        ne_header: Box::new(ne_header),
        segment_entries,
        resource_table,
        resident_name_table,
        module_reference_table,
        entry_table: EntryTable { entries: Vec::new() },
        nonresident_name_table: NonresidentNameTable { entries: Vec::new() },
        relocation_tables_per_segment: Vec::new(),
    };
    proof {
        assert(exe@.nonresident_name_table =~= Seq::<NameRecord>::empty());
        assert(exe@.relocation_tables_per_segment =~= Seq::<Seq<RelocationEntry>>::empty());
    }
    Ok(exe)
}

/// Reads what comes last: entry table, non-resident names, and the bytes and
/// relocation tables of the segments.
fn read_tail(cur: &mut ByteReader, so_far: NeExecutable) -> (res: Result<NeExecutable, DecodeError>)
    requires
        forall|i: int|
            0 <= i < so_far.segment_entries@.len() ==> (
            #[trigger] so_far.segment_entries@[i]).data is None,
    ensures
        final(cur).data == old(cur).data,
        match NeExecutable::spec_read_tail(old(cur).data@, so_far@) {
            Ok((exe, end)) => {
                &&& res is Ok
                &&& res->Ok_0@ == exe
                &&& final(cur).pos == end
            },
            Err(e) => res == Err::<NeExecutable, DecodeError>(e),
        },
{
    let NeExecutable {
        dos_header,
        ne_header,
        segment_entries: segment_table,
        resource_table,
        resident_name_table,
        module_reference_table,
        entry_table: _,
        nonresident_name_table: _,
        relocation_tables_per_segment: _,
    } = so_far;
    let lfanew = dos_header.lfanew as u64;

    cur.seek(lfanew + ne_header.entry_table_offset as u64);
    let entry_table = EntryTable::read_sf(cur, ne_header.entry_table_length)?;

    cur.seek(ne_header.non_resident_names_table_offset as u64);
    let nonresident_name_table = NonresidentNameTable::read(cur)?;

    let (segment_entries, relocs_per_segment) = load_segments(cur, &segment_table)?;

    Ok(
        NeExecutable {
            dos_header,
            ne_header,
            segment_entries,
            resource_table,
            resident_name_table,
            module_reference_table,
            entry_table,
            nonresident_name_table,
            relocation_tables_per_segment: relocs_per_segment,
        },
    )
}

impl NeExecutable {
    /// Reads a whole container from where the reader stands.
    ///
    /// On success the reader is left where the last segment or relocation table
    /// ended. On failure the reader is left as it was.
    pub fn read(file: &mut ByteReader) -> (res: Result<Self, DecodeError>)
        ensures
            reads_as(
                *old(file),
                *final(file),
                result_view(res),
                Self::spec_read(old(file).data@, old(file).at()),
            ),
    {
        let mut cur = *file;
        let so_far = read_front(&mut cur)?;
        let exe = read_tail(&mut cur, so_far)?;
        *file = cur;
        Ok(exe)
    }
}

/// `run`, written out `times` times in a row.
pub open spec fn spec_repeat(run: Seq<u8>, times: int) -> Seq<u8>
    decreases times,
{
    if times <= 0 {
        Seq::empty()
    } else {
        spec_repeat(run, times - 1) + run
    }
}

/// The bytes that an iterated segment stands for.
///
/// The stored form is read as a 16-bit iteration count, a 16-bit run length and
/// the run itself; what comes after the run is not looked at. The segment is the
/// run, written out as often as the count says. A stored form that is too short
/// for its header or its run is refused.
pub open spec fn spec_iter_segment_bytes(data: Seq<u8>) -> Result<Seq<u8>, DecodeError> {
    if data.len() < 4 || 4 + le16(data, 2) > data.len() {
        Err(DecodeError::TruncatedInput)
    } else {
        Ok(spec_repeat(data.subrange(4, 4 + le16(data, 2)), le16(data, 0) as int))
    }
}

/// Writing a run out `times` times gives `times` times its length, and byte
/// `i` of the result is byte `i` modulo the length of the run.
pub proof fn lemma_repeat_is_periodic(run: Seq<u8>, times: int)
    requires
        0 <= times,
    ensures
        spec_repeat(run, times).len() == times * run.len(),
        forall|i: int|
            0 <= i < spec_repeat(run, times).len() ==> #[trigger] spec_repeat(run, times)[i]
                == run[i % (run.len() as int)],
    decreases times,
{
    if times > 0 {
        let len = run.len() as int;
        let before = spec_repeat(run, times - 1);
        lemma_repeat_is_periodic(run, times - 1);
        assert((times - 1) * len + len == times * len) by (nonlinear_arith);
        assert forall|i: int| 0 <= i < spec_repeat(run, times).len() implies #[trigger] spec_repeat(
            run,
            times,
        )[i] == run[i % len] by {
            if i >= before.len() {
                let k = times - 1;
                assert(i % len == i - k * len) by (nonlinear_arith)
                    requires
                        0 <= k,
                        0 < len,
                        k * len <= i < k * len + len,
                ;
            }
        }
    }
}

/// Expands an iterated segment: see [`spec_iter_segment_bytes`].
///
/// How iterated segments are really stored is not documented; this is a
/// plausible reading of the format. No table decoder relies on it: it is
/// called for the listing of a segment only, by [`define_disassemble`].
pub fn iter_segment_bytes(data: &[u8]) -> (res: Result<Vec<u8>, DecodeError>)
    ensures
        result_view(res) == spec_iter_segment_bytes(data@),
{
    if data.len() < 4 {
        return Err(DecodeError::TruncatedInput);
    }
    let iterations = u16_le_at(data, 0);
    let data_size = u16_le_at(data, 2);
    if data_size as usize > data.len() - 4 {
        return Err(DecodeError::TruncatedInput);
    }
    let raw_data = slice_subrange(data, 4, 4 + data_size as usize);

    let mut out: Vec<u8> = Vec::new();
    let mut done: u16 = 0;
    while done < iterations
        invariant
            done <= iterations,
            out@ == spec_repeat(raw_data@, done as int),
        decreases iterations - done,
    {
        let ghost before = out@;
        out.extend_from_slice(raw_data);
        assert(out@ =~= before + raw_data@);
        done += 1;
    }
    Ok(out)
}

/// What listing a segment gives: nothing for a data segment, else the
/// instructions of its bytes, which for an iterated segment are expanded first.
/// The bytes are taken as 16-bit code.
pub open spec fn spec_define_disassemble(data: Seq<u8>, is_data: bool, is_iterated: bool) -> Result<
    Option<Seq<Inst>>,
    DecodeError,
> {
    if is_data {
        Ok(None)
    } else if !is_iterated {
        Ok(Some(spec_disassemble(data, 0, false)))
    } else {
        match spec_iter_segment_bytes(data) {
            Err(e) => Err(e),
            Ok(bytes) => Ok(Some(spec_disassemble(bytes, 0, false))),
        }
    }
}

/// Lists the instructions of a segment, as its flags ask for: a data segment
/// is skipped and an iterated segment is expanded before it is listed.
pub fn define_disassemble(data: &[u8], is_data: bool, is_iterated: bool) -> (res: Result<
    Option<Vec<Inst>>,
    DecodeError,
>)
    ensures
        match spec_define_disassemble(data@, is_data, is_iterated) {
            Ok(Some(insts)) => res is Ok && res->Ok_0 is Some && res->Ok_0->Some_0@ == insts,
            Ok(None) => res is Ok && res->Ok_0 is None,
            Err(e) => res == Err::<Option<Vec<Inst>>, DecodeError>(e),
        },
{
    if is_data {
        Ok(None)
    } else if !is_iterated {
        Ok(Some(disassemble(data, false)))
    } else {
        let bytes = iter_segment_bytes(data)?;
        Ok(Some(disassemble(bytes.as_slice(), false)))
    }
}

} // verus!
