use ne_decoder::error::DecodeError;
use ne_decoder::ne::entry_table::{
    EntryTable, FixedSegmentEntry, MoveableSegmentEntry, SegmentEntry,
};
use ne_decoder::ne::header::NeHeader;
use ne_decoder::ne::module_reference_table::{
    ModuleReferenceEntry, ModuleReferenceEntryHeader, ModuleReferenceTable,
};
use ne_decoder::ne::nonresident_name_table::{NonresidentNameEntry, NonresidentNameTable};
use ne_decoder::ne::resident_name_table::{ResidentNameEntry, ResidentNameTable};
use ne_decoder::ne::resource_table::{
    NeResource, NeResourceHeader, NeResourceTable, NeResourceTableHeader, NeResourceType,
    NeResourceTypeHeader,
};
use ne_decoder::ne::segment_relocations::{
    ImportByName, ImportByOrdinal, InternalFixes, RelocationEntry, RelocationTable,
    RelocationTarget,
};
use ne_decoder::ne::segment_table::{NeSegment, NeSegmentHeader};
use ne_decoder::util::reader::ByteReader;

const TWO_FIXED_AND_END: [u8; 9] = [0x02, 0x01, 0x03, 0x34, 0x12, 0x01, 0x10, 0x00, 0x00];

fn two_fixed() -> Vec<SegmentEntry> {
    vec![
        SegmentEntry::Fixed(FixedSegmentEntry { segment: 1, flags: 3, offset: 0x1234 }),
        SegmentEntry::Fixed(FixedSegmentEntry { segment: 1, flags: 1, offset: 0x0010 }),
    ]
}

#[test]
fn entry_records_are_read_field_by_field() {
    let mut r = ByteReader::new(&[0x03, 0x34, 0x12, 0xEE]);
    assert_eq!(
        FixedSegmentEntry::read(&mut r, 7),
        Ok(FixedSegmentEntry { segment: 7, flags: 3, offset: 0x1234 })
    );
    assert_eq!(r.position(), 3);
    assert_eq!(FixedSegmentEntry::read(&mut r, 7), Err(DecodeError::TruncatedInput));
    assert_eq!(r.position(), 3);

    let mut r = ByteReader::new(&[0x01, 0xCD, 0x3F, 0x02, 0x78, 0x56]);
    let entry = MoveableSegmentEntry::read(&mut r).unwrap();
    assert_eq!(
        entry,
        MoveableSegmentEntry { flags: 1, magic: [0xCD, 0x3F], segment: 2, offset: 0x5678 }
    );
    assert!(entry.has_magic());
    assert_eq!(r.position(), 6);

    let mut r = ByteReader::new(&[0x01, 0xCD, 0x40, 0x02, 0x78, 0x56]);
    assert!(!MoveableSegmentEntry::read(&mut r).unwrap().has_magic());
    let mut r = ByteReader::new(&[0x01, 0xCD, 0x3F, 0x02, 0x78]);
    assert_eq!(MoveableSegmentEntry::read(&mut r), Err(DecodeError::TruncatedInput));
}

#[test]
fn entry_table_read_uses_up_the_declared_length() {
    let mut r = ByteReader::new(&TWO_FIXED_AND_END);
    let table = EntryTable::read(&mut r, 8).unwrap();
    assert_eq!(table.entries, two_fixed());
    assert_eq!(r.position(), 8);

    // A bundle without records after it takes its two header bytes.
    let data = [0x02u8, 0x01, 0x03, 0x34, 0x12, 0x01, 0x10, 0x00, 0x00, 0x00, 0xEE];
    let mut r = ByteReader::new(&data);
    let table = EntryTable::read(&mut r, 10).unwrap();
    assert_eq!(table.entries, two_fixed());
    assert_eq!(r.position(), 10);

    let mut r = ByteReader::new(&TWO_FIXED_AND_END);
    let table = EntryTable::read(&mut r, 0).unwrap();
    assert_eq!(table.entries, vec![]);
    assert_eq!(r.position(), 0);
}

#[test]
fn entry_table_read_refuses_an_overrun_by_one_record() {
    // Two records are announced, the declared length has room for one.
    let mut r = ByteReader::new(&TWO_FIXED_AND_END);
    assert_eq!(EntryTable::read(&mut r, 5), Err(DecodeError::InconsistentLength));
    assert_eq!(r.position(), 0);
    // One byte short is refused as well.
    let mut r = ByteReader::new(&TWO_FIXED_AND_END);
    assert_eq!(EntryTable::read(&mut r, 7), Err(DecodeError::InconsistentLength));

    let mut r = ByteReader::new(&TWO_FIXED_AND_END);
    assert_eq!(EntryTable::read_sf(&mut r, 5), Err(DecodeError::InconsistentLength));
    assert_eq!(r.position(), 0);
    let mut r = ByteReader::new(&TWO_FIXED_AND_END);
    assert_eq!(EntryTable::read_sf(&mut r, 7), Err(DecodeError::InconsistentLength));
}

#[test]
fn entry_table_read_takes_a_zero_count_as_an_empty_bundle() {
    // Two header bytes, no records: the declared length is used up exactly.
    let data = [0x00u8, 0x00];
    let mut r = ByteReader::new(&data);
    let table = EntryTable::read(&mut r, 2).unwrap();
    assert_eq!(table.entries, vec![]);
    assert_eq!(r.position(), 2);

    // The segment indicator beside a zero count has no say.
    let data = [0x00u8, 0xFF, 0x00, 0x07, 0x01, 0x01, 0x03, 0x34, 0x12];
    let mut r = ByteReader::new(&data);
    let table = EntryTable::read(&mut r, 9).unwrap();
    assert_eq!(
        table.entries,
        vec![SegmentEntry::Fixed(FixedSegmentEntry { segment: 1, flags: 3, offset: 0x1234 })]
    );
    assert_eq!(r.position(), 9);

    // A budget of one byte has no room for a bundle header.
    let data = [0x00u8, 0x00, 0x00, 0x00];
    let mut r = ByteReader::new(&data);
    assert_eq!(EntryTable::read(&mut r, 1), Err(DecodeError::InconsistentLength));
    assert_eq!(r.position(), 0);
    let mut r = ByteReader::new(&data);
    assert_eq!(EntryTable::read(&mut r, 3), Err(DecodeError::InconsistentLength));
    let mut r = ByteReader::new(&data);
    assert_eq!(EntryTable::read(&mut r, 4).map(|t| t.entries.len()), Ok(0));
    assert_eq!(r.position(), 4);
    // An image that lacks the second header byte is cut short.
    let mut r = ByteReader::new(&data[..1]);
    assert_eq!(EntryTable::read(&mut r, 1), Err(DecodeError::TruncatedInput));
    let mut r = ByteReader::new(&TWO_FIXED_AND_END);
    assert_eq!(EntryTable::read(&mut r, 9), Err(DecodeError::TruncatedInput));
    assert_eq!(r.position(), 0);
}

#[test]
fn entry_table_read_sf_stops_at_the_end_marker() {
    let mut r = ByteReader::new(&TWO_FIXED_AND_END);
    let table = EntryTable::read_sf(&mut r, 8).unwrap();
    assert_eq!(table.entries, two_fixed());
    assert_eq!(r.position(), 8);

    // The end marker is two bytes here and ends the table with budget left.
    let data = [0x01u8, 0x02, 0x09, 0x01, 0x00, 0x00, 0x55, 0x01, 0x01, 0xAA, 0xBB, 0xCC];
    let mut r = ByteReader::new(&data);
    let table = EntryTable::read_sf(&mut r, 12).unwrap();
    assert_eq!(
        table.entries,
        vec![SegmentEntry::Fixed(FixedSegmentEntry { segment: 2, flags: 9, offset: 1 })]
    );
    assert_eq!(r.position(), 7);

    // A budget of one byte has no room for a bundle header.
    let mut r = ByteReader::new(&TWO_FIXED_AND_END);
    assert_eq!(EntryTable::read_sf(&mut r, 1), Err(DecodeError::InconsistentLength));
}

#[test]
fn entry_table_bundles_of_every_kind() {
    let data = [
        0x02u8, 0x00, // two unused ordinals
        0x01, 0xFF, 0x01, 0xCD, 0x3F, 0x02, 0x78, 0x56, // one moveable
        0x01, 0xFE, 0x07, 0x22, 0x11, // one fixed in segment 254
        0x00, 0x00, // no records
    ];
    let expected = vec![
        SegmentEntry::Unused,
        SegmentEntry::Unused,
        SegmentEntry::Moveable(MoveableSegmentEntry {
            flags: 1,
            magic: [0xCD, 0x3F],
            segment: 2,
            offset: 0x5678,
        }),
        SegmentEntry::Fixed(FixedSegmentEntry { segment: 0xFE, flags: 7, offset: 0x1122 }),
    ];
    let mut r = ByteReader::new(&data);
    let table = EntryTable::read(&mut r, 17).unwrap();
    assert_eq!(table.entries, expected);
    assert_eq!(r.position(), 17);
    let mut r = ByteReader::new(&data);
    let table = EntryTable::read(&mut r, 15).unwrap();
    assert_eq!(table.entries, expected);
    assert_eq!(r.position(), 15);

    let mut r = ByteReader::new(&data);
    let table = EntryTable::read_sf(&mut r, 15).unwrap();
    assert_eq!(table.entries, expected);
    assert_eq!(r.position(), 15);
    let mut r = ByteReader::new(&data);
    let table = EntryTable::read_sf(&mut r, 17).unwrap();
    assert_eq!(table.entries, expected);
    assert_eq!(r.position(), 17);
}

#[test]
fn entry_table_cut_short_is_truncated() {
    let mut r = ByteReader::new(&TWO_FIXED_AND_END[..5]);
    assert_eq!(EntryTable::read(&mut r, 8), Err(DecodeError::TruncatedInput));
    assert_eq!(r.position(), 0);
    let mut r = ByteReader::new(&TWO_FIXED_AND_END[..5]);
    assert_eq!(EntryTable::read_sf(&mut r, 8), Err(DecodeError::TruncatedInput));
    let mut r = ByteReader::new(&[]);
    assert_eq!(EntryTable::read(&mut r, 1), Err(DecodeError::TruncatedInput));
    let mut r = ByteReader::new(&[0x01]);
    assert_eq!(EntryTable::read_sf(&mut r, 4), Err(DecodeError::TruncatedInput));
}

const RESOURCES: [u8; 48] = [
    0x04, 0x00, // shift count
    0x03, 0x80, 0x01, 0x00, 0xAA, 0xBB, 0xCC, 0xDD, // type 0x8003, one resource
    0x10, 0x00, 0x20, 0x00, 0x30, 0x1C, 0x01, 0x80, 0x11, 0x22, 0x33, 0x44, // resource
    0x0E, 0x80, 0x00, 0x00, 0x00, 0x00, 0x00, 0x00, // type 0x800E, no resource
    0x00, 0x00, 0x09, 0x00, 0x00, 0x00, 0x00, 0x00, // terminator
    0x05, 0x80, 0x00, 0x00, 0x00, 0x00, 0x00, 0x00, // a type after the terminator
    0xFF, 0xFF,
];

fn first_type() -> NeResourceType {
    NeResourceType {
        header: NeResourceTypeHeader { type_id: 0x8003, num_resources: 1, res: [0xBBAA, 0xDDCC] },
        resources: vec![NeResource {
            header: NeResourceHeader {
                data_offset_shifted: 0x0010,
                data_length: 0x0020,
                flags: 0x1C30,
                resource_id: 0x8001,
                res: [0x2211, 0x4433],
            },
        }],
    }
}

fn second_type() -> NeResourceType {
    NeResourceType {
        header: NeResourceTypeHeader { type_id: 0x800E, num_resources: 0, res: [0, 0] },
        resources: vec![],
    }
}

#[test]
fn resource_records_are_read_field_by_field() {
    let mut r = ByteReader::new(&RESOURCES);
    assert_eq!(
        NeResourceTableHeader::read(&mut r),
        Ok(NeResourceTableHeader { alignment_shift_count: 4 })
    );
    assert_eq!(NeResourceTypeHeader::read(&mut r), Ok(first_type().header));
    assert_eq!(r.position(), 10);
    assert_eq!(NeResourceHeader::read(&mut r), Ok(first_type().resources[0].header));
    assert_eq!(r.position(), 22);
    r.seek(10);
    assert_eq!(NeResource::read(&mut r), Ok(first_type().resources[0].clone()));
    r.seek(2);
    assert_eq!(NeResourceType::read(&mut r), Ok(first_type()));
    assert_eq!(r.position(), 22);
    assert_eq!(NeResourceType::read_opt(&mut r), Ok(Some(second_type())));
    assert_eq!(r.position(), 30);
    assert_eq!(NeResourceType::read_opt(&mut r), Ok(None));
    assert_eq!(r.position(), 38);
}

#[test]
fn resource_table_with_a_known_count() {
    let mut r = ByteReader::new(&RESOURCES);
    let table = NeResourceTable::read(&mut r, 2).unwrap();
    assert_eq!(table.header, NeResourceTableHeader { alignment_shift_count: 4 });
    assert_eq!(table.resource_types, vec![first_type(), second_type()]);
    assert_eq!(r.position(), 30);

    let mut r = ByteReader::new(&RESOURCES);
    let table = NeResourceTable::read(&mut r, 0).unwrap();
    assert_eq!(table.resource_types, vec![]);
    assert_eq!(r.position(), 2);

    // With a count the terminator is a type like any other: this one
    // announces nine resources, which the image does not hold.
    let mut r = ByteReader::new(&RESOURCES);
    assert_eq!(NeResourceTable::read(&mut r, 3), Err(DecodeError::TruncatedInput));
    assert_eq!(r.position(), 0);
}

#[test]
fn resource_table_stops_at_the_first_zero_type() {
    let mut r = ByteReader::new(&RESOURCES);
    let table = NeResourceTable::read_variadic(&mut r).unwrap();
    assert_eq!(table.header.alignment_shift_count, 4);
    assert_eq!(table.resource_types, vec![first_type(), second_type()]);
    // The terminator was read whole, and nothing after it.
    assert_eq!(r.position(), 38);

    let only_terminator = [0x09u8, 0x00, 0, 0, 0xFF, 0xFF, 0, 0, 0, 0];
    let mut r = ByteReader::new(&only_terminator);
    let table = NeResourceTable::read_variadic(&mut r).unwrap();
    assert_eq!(table.header.alignment_shift_count, 9);
    assert_eq!(table.resource_types, vec![]);
    assert_eq!(r.position(), 10);
}

#[test]
fn resource_table_cut_short_is_truncated() {
    let mut r = ByteReader::new(&RESOURCES[..30]);
    assert_eq!(NeResourceTable::read_variadic(&mut r), Err(DecodeError::TruncatedInput));
    assert_eq!(r.position(), 0);
    let mut r = ByteReader::new(&RESOURCES[..21]);
    assert_eq!(NeResourceTable::read(&mut r, 1), Err(DecodeError::TruncatedInput));
    assert_eq!(r.position(), 0);
    let mut r = ByteReader::new(&RESOURCES[..1]);
    assert_eq!(NeResourceTable::read(&mut r, 0), Err(DecodeError::TruncatedInput));
    let mut r = ByteReader::new(&RESOURCES[..37]);
    r.seek(30);
    assert_eq!(NeResourceType::read_opt(&mut r), Err(DecodeError::TruncatedInput));
    assert_eq!(r.position(), 30);
}

const NAMES: [u8; 13] = [3, b'A', b'B', b'C', 0, 0, 2, b'f', b'n', 0x01, 0x02, 0, 0x77];

#[test]
fn resident_names_are_read_up_to_the_zero_length() {
    let mut r = ByteReader::new(&NAMES);
    let table = ResidentNameTable::read(&mut r).unwrap();
    assert_eq!(
        table.entries,
        vec![
            ResidentNameEntry { name: b"ABC".to_vec(), index: 0 },
            ResidentNameEntry { name: b"fn".to_vec(), index: 0x0201 },
        ]
    );
    assert_eq!(r.position(), 12);

    let mut r = ByteReader::new(&NAMES);
    r.seek(11);
    let table = ResidentNameTable::read(&mut r).unwrap();
    assert_eq!(table.entries, vec![]);
    assert_eq!(r.position(), 12);

    let mut r = ByteReader::new(&NAMES);
    r.seek(6);
    assert_eq!(
        ResidentNameEntry::read(&mut r),
        Ok(Some(ResidentNameEntry { name: b"fn".to_vec(), index: 0x0201 }))
    );
    assert_eq!(ResidentNameEntry::read(&mut r), Ok(None));
    assert_eq!(r.position(), 12);
}

#[test]
fn nonresident_names_are_read_up_to_the_zero_length() {
    let mut r = ByteReader::new(&NAMES);
    let table = NonresidentNameTable::read(&mut r).unwrap();
    assert_eq!(
        table.entries,
        vec![
            NonresidentNameEntry { name: b"ABC".to_vec(), index: 0 },
            NonresidentNameEntry { name: b"fn".to_vec(), index: 0x0201 },
        ]
    );
    assert_eq!(r.position(), 12);
    r.seek(0);
    assert_eq!(
        NonresidentNameEntry::read(&mut r),
        Ok(Some(NonresidentNameEntry { name: b"ABC".to_vec(), index: 0 }))
    );
    assert_eq!(r.position(), 6);
}

#[test]
fn name_tables_cut_short_are_truncated() {
    for cut in 0..11 {
        let mut r = ByteReader::new(&NAMES[..cut]);
        assert_eq!(ResidentNameTable::read(&mut r), Err(DecodeError::TruncatedInput));
        assert_eq!(r.position(), 0);
        let mut r = ByteReader::new(&NAMES[..cut]);
        assert_eq!(NonresidentNameTable::read(&mut r), Err(DecodeError::TruncatedInput));
        assert_eq!(r.position(), 0);
    }
    // The name fits but its index does not.
    let mut r = ByteReader::new(&[1, b'x', 0x05]);
    assert_eq!(ResidentNameEntry::read(&mut r), Err(DecodeError::TruncatedInput));
    assert_eq!(r.position(), 0);
    let mut r = ByteReader::new(&[255, b'x', 0x05, 0, 0]);
    assert_eq!(NonresidentNameEntry::read(&mut r), Err(DecodeError::TruncatedInput));
}

const MODULES: [u8; 14] = [
    0x01, 0x00, 0x05, 0x00, // two references
    0xEE, 0xEE, // something else
    0x00, 0x03, b'K', b'R', b'N', 0x02, b'G', b'D', // imported names, from offset 6
];

#[test]
fn module_references_are_read_then_resolved() {
    let mut r = ByteReader::new(&MODULES);
    let mut table = ModuleReferenceTable::read(&mut r, 2).unwrap();
    assert_eq!(
        table.entries,
        vec![
            ModuleReferenceEntry {
                header: ModuleReferenceEntryHeader { offset: 1 },
                name: vec![]
            },
            ModuleReferenceEntry {
                header: ModuleReferenceEntryHeader { offset: 5 },
                name: vec![]
            },
        ]
    );
    assert_eq!(r.position(), 4);

    assert_eq!(table.read_names(&mut r, 6), Ok(()));
    assert_eq!(
        table.entries,
        vec![
            ModuleReferenceEntry {
                header: ModuleReferenceEntryHeader { offset: 1 },
                name: b"KRN".to_vec()
            },
            ModuleReferenceEntry {
                header: ModuleReferenceEntryHeader { offset: 5 },
                name: b"GD".to_vec()
            },
        ]
    );
    assert_eq!(r.position(), 14);
}

#[test]
fn module_reference_pieces() {
    let mut r = ByteReader::new(&MODULES);
    assert_eq!(
        ModuleReferenceEntryHeader::read(&mut r),
        Ok(ModuleReferenceEntryHeader { offset: 1 })
    );
    let mut entry = ModuleReferenceEntry::read(&mut r).unwrap();
    assert_eq!(entry.header.offset, 5);
    assert_eq!(entry.name, Vec::<u8>::new());
    assert_eq!(entry.read_name(&mut r, 6), Ok(()));
    assert_eq!(entry.name, b"GD".to_vec());
    assert_eq!(entry.header.offset, 5);
    assert_eq!(r.position(), 14);

    // An empty name is a name too.
    let mut entry = ModuleReferenceEntry {
        header: ModuleReferenceEntryHeader { offset: 0 },
        name: b"old".to_vec(),
    };
    assert_eq!(entry.read_name(&mut r, 6), Ok(()));
    assert_eq!(entry.name, Vec::<u8>::new());
    assert_eq!(r.position(), 7);
}

#[test]
fn module_names_that_cannot_be_read_change_nothing() {
    let mut r = ByteReader::new(&MODULES);
    let mut table = ModuleReferenceTable::read(&mut r, 2).unwrap();
    let before = table.clone();
    // With the names table one byte further on, the second name overruns the image.
    assert_eq!(table.read_names(&mut r, 7), Err(DecodeError::TruncatedInput));
    assert_eq!(table, before);
    assert_eq!(r.position(), 4);
    assert_eq!(table.read_names(&mut r, u64::MAX), Err(DecodeError::TruncatedInput));
    assert_eq!(table.read_names(&mut r, 14), Err(DecodeError::TruncatedInput));
    assert_eq!(table, before);

    let mut r = ByteReader::new(&MODULES[..3]);
    assert_eq!(ModuleReferenceTable::read(&mut r, 2), Err(DecodeError::TruncatedInput));
    assert_eq!(r.position(), 0);
    let mut r = ByteReader::new(&MODULES[..3]);
    r.seek(3);
    assert_eq!(ModuleReferenceTable::read(&mut r, 0).map(|t| t.entries.len()), Ok(0));
}

fn relocation(flags: u8) -> [u8; 10] {
    [0x01, 0x00, 0x03, flags, 0x10, 0x20, 0xFF, 0x02, 0x34, 0x12]
}

#[test]
fn relocation_flags_select_the_target() {
    let table = RelocationTable::read(&mut ByteReader::new(&relocation(0x00))).unwrap();
    assert_eq!(
        table.entries,
        vec![RelocationEntry {
            address_type: 3,
            reloc_type: 0,
            is_additive: false,
            segment_offset: 0x2010,
            target: RelocationTarget::Internal(InternalFixes {
                segment: 0xFF,
                is_movable: true,
                offset_or_ordinal: 0x1234,
            }),
        }]
    );

    let table = RelocationTable::read(&mut ByteReader::new(&relocation(0x01))).unwrap();
    assert_eq!(table.entries[0].reloc_type, 1);
    assert_eq!(
        table.entries[0].target,
        RelocationTarget::ImportByOrdinal(ImportByOrdinal { module_index: 0x02FF, ordinal: 0x1234 })
    );

    let table = RelocationTable::read(&mut ByteReader::new(&relocation(0x02))).unwrap();
    assert_eq!(table.entries[0].reloc_type, 2);
    assert_eq!(
        table.entries[0].target,
        RelocationTarget::ImportByName(ImportByName { module_index: 0x02FF, name_offset: 0x1234 })
    );

    let undefined = relocation(0x03);
    let mut r = ByteReader::new(&undefined);
    assert_eq!(RelocationTable::read(&mut r), Err(DecodeError::InvalidRelocationType));
    assert_eq!(r.position(), 0);
}

#[test]
fn relocation_dispatch_looks_at_the_two_low_bits_only() {
    for flags in 0..=255u8 {
        let res = RelocationTable::read(&mut ByteReader::new(&relocation(flags)));
        match flags & 3 {
            3 => assert_eq!(res, Err(DecodeError::InvalidRelocationType)),
            kind => {
                let entry = res.unwrap().entries.remove(0);
                assert_eq!(entry.reloc_type, kind);
                assert_eq!(entry.is_additive, flags & 4 != 0);
                assert_eq!(entry.address_type, 3);
                assert_eq!(entry.segment_offset, 0x2010);
                match entry.target {
                    RelocationTarget::Internal(_) => assert_eq!(kind, 0),
                    RelocationTarget::ImportByOrdinal(_) => assert_eq!(kind, 1),
                    RelocationTarget::ImportByName(_) => assert_eq!(kind, 2),
                }
            }
        }
    }
}

#[test]
fn relocation_table_counts_its_records() {
    let data = [
        0x02u8, 0x00, // two records
        0x03, 0x00, 0x10, 0x00, 0x02, 0x99, 0x34, 0x00, //
        0x05, 0x05, 0x20, 0x00, 0x01, 0x00, 0x07, 0x00, //
        0xAA,
    ];
    let mut r = ByteReader::new(&data);
    let table = RelocationTable::read(&mut r).unwrap();
    assert_eq!(r.position(), 18);
    assert_eq!(
        table.entries,
        vec![
            RelocationEntry {
                address_type: 3,
                reloc_type: 0,
                is_additive: false,
                segment_offset: 0x0010,
                target: RelocationTarget::Internal(InternalFixes {
                    segment: 2,
                    is_movable: false,
                    offset_or_ordinal: 0x0034,
                }),
            },
            RelocationEntry {
                address_type: 5,
                reloc_type: 1,
                is_additive: true,
                segment_offset: 0x0020,
                target: RelocationTarget::ImportByOrdinal(ImportByOrdinal {
                    module_index: 1,
                    ordinal: 7,
                }),
            },
        ]
    );

    let mut r = ByteReader::new(&data[..17]);
    assert_eq!(RelocationTable::read(&mut r), Err(DecodeError::TruncatedInput));
    assert_eq!(r.position(), 0);
    let mut r = ByteReader::new(&data[..1]);
    assert_eq!(RelocationTable::read(&mut r), Err(DecodeError::TruncatedInput));
    let mut r = ByteReader::new(&[0u8, 0]);
    assert_eq!(RelocationTable::read(&mut r).map(|t| t.entries.len()), Ok(0));
    assert_eq!(r.position(), 2);
}

#[test]
fn relocation_table_fails_at_the_first_bad_record() {
    // The first record is undefined, the second is cut short: the first decides.
    let data = [0x02u8, 0x00, 0, 0x07, 0, 0, 0, 0, 0, 0, 0x01];
    assert_eq!(
        RelocationTable::read(&mut ByteReader::new(&data)),
        Err(DecodeError::InvalidRelocationType)
    );
    // The first record is fine, the second is cut short.
    let data = [0x02u8, 0x00, 0, 0x04, 0, 0, 0, 0, 0, 0, 0x01, 0x03];
    assert_eq!(
        RelocationTable::read(&mut ByteReader::new(&data)),
        Err(DecodeError::TruncatedInput)
    );
}

fn segment(offset: u16, length: u16, flags: u16, alloc: u16, shift_count: u16) -> NeSegment {
    NeSegment {
        header: NeSegmentHeader {
            data_offset_shifted: offset,
            data_length: length,
            flags,
            min_alloc: alloc,
        },
        shift_count,
        data: None,
    }
}

#[test]
fn segment_record_is_read_field_by_field() {
    let data = [0x02u8, 0x00, 0x04, 0x00, 0x51, 0x1D, 0x00, 0x10, 0xAA];
    let mut r = ByteReader::new(&data);
    assert_eq!(NeSegment::read(&mut r, 9), Ok(segment(2, 4, 0x1D51, 0x1000, 9)));
    assert_eq!(r.position(), 8);
    r.seek(0);
    assert_eq!(
        NeSegmentHeader::read(&mut r),
        Ok(NeSegmentHeader {
            data_offset_shifted: 2,
            data_length: 4,
            flags: 0x1D51,
            min_alloc: 0x1000
        })
    );
    r.seek(2);
    assert_eq!(NeSegment::read(&mut r, 9), Err(DecodeError::TruncatedInput));
    assert_eq!(r.position(), 2);
}

#[test]
fn zero_length_and_zero_allocation_mean_64k() {
    let s = segment(1, 0, 0, 0, 4);
    assert_eq!(s.data_length(), 0x10000);
    assert_eq!(s.min_alloc(), 0x10000);
    let s = segment(1, 1, 0, 0xFFFF, 4);
    assert_eq!(s.data_length(), 1);
    assert_eq!(s.min_alloc(), 0xFFFF);
    let s = segment(1, 0xFFFF, 0, 1, 4);
    assert_eq!(s.data_length(), 0xFFFF);
    assert_eq!(s.min_alloc(), 1);

    let flat = ne_decoder::ne::segment_entry::NeSegment {
        data_offset: 3,
        data_length: 0,
        flags: 0,
        min_alloc: 0,
    };
    assert_eq!(flat.data_length(), 0x10000);
    assert_eq!(flat.min_alloc(), 0x10000);
}

#[test]
fn segment_offset_is_shifted_by_the_alignment() {
    assert_eq!(segment(2, 4, 0, 4, 7).data_offset(), 0x100);
    assert_eq!(segment(0x1234, 4, 0, 4, 0).data_offset(), 0x1234);
    assert_eq!(segment(0xFFFF, 4, 0, 4, 9).data_offset(), 0x1FF_FE00);
    assert_eq!(segment(0, 4, 0, 4, 63).data_offset(), 0);
    // Bits that are shifted out of 64 bits are lost.
    assert_eq!(segment(3, 4, 0, 4, 63).data_offset(), 0x8000_0000_0000_0000);
}

#[test]
fn flat_segment_record() {
    let data = [0x02u8, 0x00, 0x04, 0x00, 0x51, 0x1D, 0x00, 0x10];
    let mut r = ByteReader::new(&data);
    let s = ne_decoder::ne::segment_entry::NeSegment::read(&mut r).unwrap();
    assert_eq!(
        s,
        ne_decoder::ne::segment_entry::NeSegment {
            data_offset: 2,
            data_length: 4,
            flags: 0x1D51,
            min_alloc: 0x1000
        }
    );
    assert_eq!(r.position(), 8);
    assert_eq!(s.data_length(), 4);
    assert_eq!(s.min_alloc(), 0x1000);

    let mut header_bytes = [0u8; 0x40];
    header_bytes[0x32] = 9;
    let header = NeHeader::read(&mut ByteReader::new(&header_bytes)).unwrap();
    assert_eq!(s.data_offset(&header), 0x400);
    assert_eq!(
        ne_decoder::ne::segment_entry::NeSegment::read(&mut r),
        Err(DecodeError::TruncatedInput)
    );
}

#[test]
fn segment_flags() {
    let s = segment(0, 0, 0x0000, 0, 0);
    assert!(!s.header.is_data());
    assert!(!s.header.is_iterated());
    assert!(!s.header.has_relocations());
    let s = segment(0, 0, 0x0001, 0, 0);
    assert!(s.header.is_data());
    let s = segment(0, 0, 0x0002, 0, 0);
    assert!(s.header.is_iterated() && !s.header.is_data());
    let s = segment(0, 0, 0x0008, 0, 0);
    assert!(s.header.has_relocations() && !s.header.is_iterated());
    let s = segment(0, 0, 0xFFF4, 0, 0);
    assert!(!s.header.has_relocations() && !s.header.is_iterated() && !s.header.is_data());
    assert_eq!(s.header.type_mask(), 4);
    assert_eq!(segment(0, 0, 0x1D51, 0, 0).header.type_mask(), 1);
    assert_eq!(segment(0, 0, 0x0008, 0, 0).header.type_mask(), 0);
}

#[test]
fn segment_data_is_attached_from_the_shifted_offset() {
    let mut image = vec![0u8; 0x20];
    image.extend_from_slice(&[0xDE, 0xAD, 0xBE, 0xEF, 0x99]);
    let mut r = ByteReader::new(&image);
    r.seek(3);

    let mut s = segment(2, 4, 0, 4, 4);
    assert_eq!(s.read_data(&mut r), Ok(()));
    assert_eq!(s.data, Some(vec![0xDE, 0xAD, 0xBE, 0xEF]));
    assert_eq!(r.position(), 0x24);

    // No offset, no bytes: nothing is read and the reader stays.
    let mut s = segment(0, 4, 0, 4, 4);
    assert_eq!(s.read_data(&mut r), Ok(()));
    assert_eq!(s.data, None);
    assert_eq!(r.position(), 0x24);

    // One byte more than the image has.
    let mut s = segment(2, 6, 0, 4, 4);
    assert_eq!(s.read_data(&mut r), Err(DecodeError::TruncatedInput));
    assert_eq!(s.data, None);
    assert_eq!(r.position(), 0x24);

    // A shift that no 64-bit offset can take.
    let mut s = segment(2, 4, 0, 4, 64);
    assert_eq!(s.read_data(&mut r), Err(DecodeError::TruncatedInput));
    let mut s = segment(0, 4, 0, 4, 64);
    assert_eq!(s.read_data(&mut r), Ok(()));
}

#[test]
fn segment_data_of_stored_length_zero_is_64k_long() {
    let mut image = vec![0u8; 0x10];
    image.extend((0..0x10000u32).map(|i| (i % 251) as u8));
    let mut r = ByteReader::new(&image);
    let mut s = segment(1, 0, 0, 0, 4);
    assert_eq!(s.read_data(&mut r), Ok(()));
    let data = s.data.unwrap();
    assert_eq!(data.len(), 0x10000);
    assert_eq!(data[0], 0);
    assert_eq!(data[0xFFFF], (0xFFFFu32 % 251) as u8);
    assert_eq!(r.position(), 0x10010);

    // One byte less in the image and the segment does not fit.
    let mut r = ByteReader::new(&image[..0x1000F]);
    let mut s = segment(1, 0, 0, 0, 4);
    assert_eq!(s.read_data(&mut r), Err(DecodeError::TruncatedInput));
}
