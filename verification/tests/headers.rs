use ne_decoder::error::DecodeError;
use ne_decoder::mz::DosHeader;
use ne_decoder::ne::header::NeHeader;
use ne_decoder::util::reader::ByteReader;

#[derive(Debug, Clone, Copy, PartialEq, Eq, PartialOrd, Ord)]
pub struct DosHeader2 {
    pub magic: u16,
    pub cblp: u16,
    pub cp: u16,
    pub crlc: u16,
    pub cparhdr: u16,
    pub minalloc: u16,
    pub maxalloc: u16,
    pub ss: u16,
    pub sp: u16,
    pub csum: u16,
    pub ip: u16,
    pub cs: u16,
    pub lfarlc: u16,
    pub ovno: u16,
    pub res: [u16; 4],
    pub oemid: u16,
    pub oeminfo: u16,
    pub res2: [u16; 10],
    pub lfanew: u32,
}

impl From<DosHeader> for DosHeader2 {
    fn from(h: DosHeader) -> Self {
        DosHeader2 {
            magic: h.magic,
            cblp: h.cblp,
            cp: h.cp,
            crlc: h.crlc,
            cparhdr: h.cparhdr,
            minalloc: h.minalloc,
            maxalloc: h.maxalloc,
            ss: h.ss,
            sp: h.sp,
            csum: h.csum,
            ip: h.ip,
            cs: h.cs,
            lfarlc: h.lfarlc,
            ovno: h.ovno,
            res: h.res,
            oemid: h.oemid,
            oeminfo: h.oeminfo,
            res2: h.res2,
            lfanew: h.lfanew,
        }
    }
}

#[derive(Debug, Clone, Copy, PartialEq, Eq, PartialOrd, Ord)]
pub struct NeHeader2 {
    pub magic: [u8; 2],
    pub major_linker_version: u8,
    pub minor_linker_version: u8,
    pub entry_table_offset: u16,
    pub entry_table_length: u16,
    pub file_load_crc: u32,
    pub flags: u16,
    pub auto_data_segment_index: u16,
    pub init_heap_size: u16,
    pub init_stack_size: u16,
    pub entry_point: u32,
    pub init_stack: u32,
    pub segment_count: u16,
    pub module_references: u16,
    pub non_resident_names_size: u16,
    pub segment_table_offset: u16,
    pub resource_table_offset: u16,
    pub resident_names_table_offset: u16,
    pub module_reference_table_offset: u16,
    pub import_name_table_offset: u16,
    pub non_resident_names_table_offset: u32,
    pub movable_entry_point_count: u16,
    pub file_alignment_shift_count: u16,
    pub resource_table_entries: u16,
    pub target_os: u8,
    pub os2_exe_flags: u8,
    pub return_thunk_offset: u16,
    pub segment_reference_thunk_offset: u16,
    pub min_code_swap: u16,
    pub expected_win_ver: [u8; 2],
}

impl From<NeHeader> for NeHeader2 {
    fn from(h: NeHeader) -> Self {
        Self {
            magic: h.magic,
            major_linker_version: h.major_linker_version,
            minor_linker_version: h.minor_linker_version,
            entry_table_offset: h.entry_table_offset,
            entry_table_length: h.entry_table_length,
            file_load_crc: h.file_load_crc,
            flags: h.flags,
            auto_data_segment_index: h.auto_data_segment_index,
            init_heap_size: h.init_heap_size,
            init_stack_size: h.init_stack_size,
            entry_point: h.entry_point,
            init_stack: h.init_stack,
            segment_count: h.segment_count,
            module_references: h.module_references,
            non_resident_names_size: h.non_resident_names_size,
            segment_table_offset: h.segment_table_offset,
            resource_table_offset: h.resource_table_offset,
            resident_names_table_offset: h.resident_names_table_offset,
            module_reference_table_offset: h.module_reference_table_offset,
            import_name_table_offset: h.import_name_table_offset,
            non_resident_names_table_offset: h.non_resident_names_table_offset,
            movable_entry_point_count: h.movable_entry_point_count,
            file_alignment_shift_count: h.file_alignment_shift_count,
            resource_table_entries: h.resource_table_entries,
            target_os: h.target_os,
            os2_exe_flags: h.os2_exe_flags,
            return_thunk_offset: h.return_thunk_offset,
            segment_reference_thunk_offset: h.segment_reference_thunk_offset,
            min_code_swap: h.min_code_swap,
            expected_win_ver: h.expected_win_ver,
        }
    }
}

const DOS_FIXTURE: [u8; 0x40] = *b"\
    MZ\xD4\x01\x06\x00\x00\x00\x20\x00\x00\x00\xFF\xFF\x00\x00\
    \x00\x00\x3D\x98\x00\x00\x00\x00\x40\x00\x00\x00\x01\x00\x00\x00\
    \x00\x00\x00\x00\x00\x10\x00\x00\x00\x00\x00\x00\x00\x00\x00\x00\
    \x00\x00\x00\x00\x00\x10\x00\x00\x00\x00\x00\x00\x00\x06\x00\x00\
";

const NE_FIXTURE: [u8; 0x40] = *b"\
    NE\x05\x0A\x6C\x01\x02\x00\x46\x45\x52\x47\x12\x03\x02\x00\
    \x00\x10\x00\x50\x10\x00\x01\x00\x00\x00\x02\x00\x09\x00\x01\x00\
    \x1C\x00\x40\x00\x90\x00\x54\x01\x60\x01\x62\x01\x6E\x07\x00\x00\
    \x00\x00\x08\x00\xFF\xFF\x02\x08\x00\x00\x00\x00\x00\x00\x00\x03\
";

#[test]
fn test_dos_header_size() {
    assert_eq!(std::mem::size_of::<DosHeader>(), 0x40);
}

#[test]
fn test_dos_header() {
    let buf: [u8; 0x40] = *b"\
        MZ\xD4\x01\x06\x00\x00\x00\x20\x00\x00\x00\xFF\xFF\x00\x00\
        \x00\x00\x3D\x98\x00\x00\x00\x00\x40\x00\x00\x00\x01\x00\x00\x00\
        \x00\x00\x00\x00\x00\x10\x00\x00\x00\x00\x00\x00\x00\x00\x00\x00\
        \x00\x00\x00\x00\x00\x10\x00\x00\x00\x00\x00\x00\x00\x06\x00\x00\
    ";
    let h = DosHeader::read(&mut ByteReader::new(&buf)).unwrap();
    assert_eq!(
        DosHeader2::from(h),
        DosHeader2 {
            magic: 0x5A4D,
            cblp: 0x01D4,
            cp: 0x0006,
            crlc: 0x0000,
            cparhdr: 0x0020,
            minalloc: 0x0000,
            maxalloc: 0xFFFF,
            ss: 0x0000,
            sp: 0x0000,
            csum: 0x983D,
            ip: 0x0000,
            cs: 0x0000,
            lfarlc: 0x0040,
            ovno: 0x0000,
            res: [0x0001, 0x0000, 0x0000, 0x0000],
            oemid: 0x1000,
            oeminfo: 0x0000,
            res2: [
                0x0000, 0x0000, 0x0000, 0x0000, 0x0000, 0x0000, 0x1000, 0x0000, 0x0000, 0x0000,
            ],
            lfanew: 0x0600,
        }
    );
}

#[test]
fn test_ne_header_size() {
    assert_eq!(std::mem::size_of::<NeHeader>(), 0x40);
}

#[test]
fn test_ne_header() {
    let buf: [u8; 0x40] = *b"\
        NE\x05\x0A\x6C\x01\x02\x00\x46\x45\x52\x47\x12\x03\x02\x00\
        \x00\x10\x00\x50\x10\x00\x01\x00\x00\x00\x02\x00\x09\x00\x01\x00\
        \x1C\x00\x40\x00\x90\x00\x54\x01\x60\x01\x62\x01\x6E\x07\x00\x00\
        \x00\x00\x08\x00\xFF\xFF\x02\x08\x00\x00\x00\x00\x00\x00\x00\x03\
    ";
    let h = NeHeader::read(&mut ByteReader::new(&buf)).unwrap();
    assert_eq!(
        NeHeader2::from(h),
        NeHeader2 {
            magic: *b"NE",
            major_linker_version: 5,
            minor_linker_version: 10,
            entry_table_offset: 0x016C,
            entry_table_length: 0x0002,
            file_load_crc: 0x47524546,
            flags: 0x0312,
            auto_data_segment_index: 0x0002,
            init_heap_size: 0x1000,
            init_stack_size: 0x5000,
            entry_point: 0x00010010,
            init_stack: 0x00020000,
            segment_count: 0x0009,
            module_references: 0x0001,
            non_resident_names_size: 0x001C,
            segment_table_offset: 0x0040,
            resource_table_offset: 0x0090,
            resident_names_table_offset: 0x0154,
            module_reference_table_offset: 0x0160,
            import_name_table_offset: 0x0162,
            non_resident_names_table_offset: 0x076E,
            movable_entry_point_count: 0x0000,
            file_alignment_shift_count: 0x0008,
            resource_table_entries: 0xFFFF,
            target_os: 0x02,
            os2_exe_flags: 0x08,
            return_thunk_offset: 0x0000,
            segment_reference_thunk_offset: 0x0000,
            min_code_swap: 0x0000,
            expected_win_ver: [0x00, 0x03],
        }
    );
}

#[test]
fn dos_header_read_moves_the_reader_past_the_header() {
    let mut image = vec![0xEEu8; 3];
    image.extend_from_slice(&DOS_FIXTURE);
    image.push(0x77);
    let mut r = ByteReader::new(&image);
    r.seek(3);
    let h = DosHeader::read(&mut r).unwrap();
    assert_eq!(h.magic, 0x5A4D);
    assert_eq!(h.lfanew, 0x0600);
    assert_eq!(r.position(), 3 + 0x40);
    assert_eq!(r.read_u8(), Ok(0x77));
}

#[test]
fn dos_magic_is_accepted_exactly_for_mz() {
    let h = DosHeader::read(&mut ByteReader::new(&DOS_FIXTURE)).unwrap();
    assert_eq!(h.check_magic(), Ok(()));

    // Every other value of either signature byte is refused.
    for first in 0..=255u8 {
        for second in [0x00u8, 0x4D, 0x5A, 0x5B, 0xFF] {
            let mut buf = DOS_FIXTURE;
            buf[0] = first;
            buf[1] = second;
            let h = DosHeader::read(&mut ByteReader::new(&buf)).unwrap();
            let expected = if first == b'M' && second == b'Z' {
                Ok(())
            } else {
                Err(DecodeError::BadMagic)
            };
            assert_eq!(h.check_magic(), expected);
        }
    }
}

#[test]
fn dos_magic_does_not_depend_on_other_fields() {
    let mut buf = [0xA5u8; 0x40];
    buf[0] = b'M';
    buf[1] = b'Z';
    let h = DosHeader::read(&mut ByteReader::new(&buf)).unwrap();
    assert_eq!(h.check_magic(), Ok(()));
    assert_eq!(h.lfanew, 0xA5A5A5A5);
}

#[test]
fn ne_magic_is_accepted_exactly_for_ne() {
    let h = NeHeader::read(&mut ByteReader::new(&NE_FIXTURE)).unwrap();
    assert_eq!(h.check_magic(), Ok(()));

    let mut buf = NE_FIXTURE;
    buf[1] = b'F';
    let h = NeHeader::read(&mut ByteReader::new(&buf)).unwrap();
    assert_eq!(h.check_magic(), Err(DecodeError::BadMagic));

    let mut buf = NE_FIXTURE;
    buf[0] = b'P';
    let h = NeHeader::read(&mut ByteReader::new(&buf)).unwrap();
    assert_eq!(h.check_magic(), Err(DecodeError::BadMagic));

    // The bytes of `MZ` are no extended-header signature.
    let h = NeHeader::read(&mut ByteReader::new(&DOS_FIXTURE)).unwrap();
    assert_eq!(h.check_magic(), Err(DecodeError::BadMagic));
}

#[test]
fn short_headers_are_truncated_and_leave_the_reader_alone() {
    let mut r = ByteReader::new(&DOS_FIXTURE[..0x3F]);
    assert!(matches!(DosHeader::read(&mut r), Err(DecodeError::TruncatedInput)));
    assert_eq!(r.position(), 0);

    let mut r = ByteReader::new(&NE_FIXTURE);
    r.seek(1);
    assert!(matches!(NeHeader::read(&mut r), Err(DecodeError::TruncatedInput)));
    assert_eq!(r.position(), 1);

    let mut r = ByteReader::new(&NE_FIXTURE);
    r.seek(u64::MAX);
    assert!(matches!(NeHeader::read(&mut r), Err(DecodeError::TruncatedInput)));
    assert_eq!(r.position(), u64::MAX);
}

#[test]
fn check_sum_adds_little_endian_words() {
    assert_eq!(DosHeader::check_sum(&[]), Ok(()));
    assert_eq!(DosHeader::check_sum(&[0, 0, 0, 0]), Ok(()));
    // 0x1234 + 0xEDCC == 0x10000, which wraps to zero.
    assert_eq!(DosHeader::check_sum(&[0x34, 0x12, 0xCC, 0xED]), Ok(()));
    // 0x1234 + 0xEDCD == 0x10001.
    assert_eq!(
        DosHeader::check_sum(&[0x34, 0x12, 0xCD, 0xED]),
        Err(DecodeError::BadChecksum(0x0001))
    );
    assert_eq!(DosHeader::check_sum(&[0x01, 0x02]), Err(DecodeError::BadChecksum(0x0201)));
}

#[test]
fn check_sum_pads_an_odd_tail_with_zero() {
    // 0xFFFF + 0x0001: the last byte is the low byte of a word.
    assert_eq!(DosHeader::check_sum(&[0xFF, 0xFF, 0x01]), Ok(()));
    assert_eq!(DosHeader::check_sum(&[0x07]), Err(DecodeError::BadChecksum(0x0007)));
    assert_eq!(
        DosHeader::check_sum(&[0x00, 0x01, 0x80]),
        Err(DecodeError::BadChecksum(0x0180))
    );
}

#[test]
fn check_sum_of_the_fixture_is_its_word_sum() {
    let mut sum = 0u16;
    for pair in DOS_FIXTURE.chunks(2) {
        sum = sum.wrapping_add(u16::from_le_bytes([pair[0], pair[1]]));
    }
    assert_ne!(sum, 0);
    assert_eq!(DosHeader::check_sum(&DOS_FIXTURE), Err(DecodeError::BadChecksum(sum)));
}
