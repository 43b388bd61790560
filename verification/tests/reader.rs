use ne_decoder::error::DecodeError;
use ne_decoder::util::endian::{
    u128_from_le_bytes, u128_to_le_bytes, u16_from_le, u16_from_le_bytes, u16_le_at,
    u16_to_le_bytes, u32_from_le, u32_from_le_bytes, u32_le_at, u32_to_le_bytes,
    u64_from_le_bytes, u64_to_le_bytes, Bu128, Bu16, Bu32, Bu64, Lu128, Lu16, Lu32, Lu64,
};
use ne_decoder::util::reader::ByteReader;

#[test]
fn little_endian_values_are_assembled_low_byte_first() {
    assert_eq!(u16_from_le(0x34, 0x12), 0x1234);
    assert_eq!(u16_from_le(0xFF, 0xFF), 0xFFFF);
    assert_eq!(u16_from_le(0x00, 0x80), 0x8000);
    assert_eq!(u32_from_le(0x78, 0x56, 0x34, 0x12), 0x12345678);
    assert_eq!(u32_from_le(0xFF, 0xFF, 0xFF, 0xFF), 0xFFFF_FFFF);
    assert_eq!(u16_le_at(&[9, 0x34, 0x12, 9], 1), 0x1234);
    assert_eq!(u32_le_at(&[9, 0x78, 0x56, 0x34, 0x12], 1), 0x12345678);
}

#[test]
fn byte_codec_agrees_with_the_standard_library() {
    for v in [0u16, 1, 0x00FF, 0x0100, 0x1234, 0x8000, 0xFFFF] {
        assert_eq!(u16_to_le_bytes(v), v.to_le_bytes());
        assert_eq!(u16_from_le_bytes(&v.to_le_bytes()), v);
    }
    for v in [0u32, 1, 0x1234_5678, 0x8000_0000, 0xFFFF_FFFF, 0x00FF_00FF] {
        assert_eq!(u32_to_le_bytes(v), v.to_le_bytes());
        assert_eq!(u32_from_le_bytes(&v.to_le_bytes()), v);
    }
    for v in [0u64, 1, 0x0123_4567_89AB_CDEF, u64::MAX, 1 << 32, (1 << 32) - 1] {
        assert_eq!(u64_to_le_bytes(v), v.to_le_bytes());
        assert_eq!(u64_from_le_bytes(&v.to_le_bytes()), v);
    }
    for v in [0u128, 1, 0x0123_4567_89AB_CDEF_0011_2233_4455_6677, u128::MAX, 1 << 64] {
        assert_eq!(u128_to_le_bytes(v), v.to_le_bytes());
        assert_eq!(u128_from_le_bytes(&v.to_le_bytes()), v);
    }
}

#[test]
fn wrappers_hold_the_bytes_in_their_declared_order() {
    assert_eq!(Lu16::new(0x1234).bytes, [0x34, 0x12]);
    assert_eq!(Bu16::new(0x1234).bytes, [0x12, 0x34]);
    assert_eq!(Lu32::new(0x1234_5678).bytes, [0x78, 0x56, 0x34, 0x12]);
    assert_eq!(Bu32::new(0x1234_5678).bytes, [0x12, 0x34, 0x56, 0x78]);
    assert_eq!(Lu64::new(0x0102_0304_0506_0708).bytes, [8, 7, 6, 5, 4, 3, 2, 1]);
    assert_eq!(Bu64::new(0x0102_0304_0506_0708).bytes, [1, 2, 3, 4, 5, 6, 7, 8]);
    let v: u128 = 0x0102_0304_0506_0708_090A_0B0C_0D0E_0F10;
    assert_eq!(Lu128::new(v).bytes, v.to_le_bytes());
    assert_eq!(Bu128::new(v).bytes, v.to_be_bytes());
}

#[test]
fn wrappers_give_back_the_value_they_were_made_of() {
    for v in [0u16, 1, 0x1234, 0xFF00, 0xFFFF] {
        assert_eq!(Lu16::new(v).value(), v);
        assert_eq!(Bu16::new(v).value(), v);
    }
    for v in [0u32, 0x1234_5678, 0xFFFF_FFFF, 0x8000_0001] {
        assert_eq!(Lu32::new(v).value(), v);
        assert_eq!(Bu32::new(v).value(), v);
    }
    for v in [0u64, 0x0123_4567_89AB_CDEF, u64::MAX] {
        assert_eq!(Lu64::new(v).value(), v);
        assert_eq!(Bu64::new(v).value(), v);
    }
    for v in [0u128, 0x0123_4567_89AB_CDEF_0011_2233_4455_6677, u128::MAX] {
        assert_eq!(Lu128::new(v).value(), v);
        assert_eq!(Bu128::new(v).value(), v);
    }
    assert_eq!(Bu32 { bytes: [0xDE, 0xAD, 0xBE, 0xEF] }.value(), 0xDEAD_BEEF);
    assert_eq!(Lu32 { bytes: [0xDE, 0xAD, 0xBE, 0xEF] }.value(), 0xEFBE_ADDE);
}

#[test]
fn reader_reads_in_order_and_fails_at_the_end() {
    let data = [0x01u8, 0x34, 0x12, 0x78, 0x56, 0x34, 0x12, 0xAA];
    let mut r = ByteReader::new(&data);
    assert_eq!(r.len(), 8);
    assert_eq!(r.remaining(), 8);
    assert_eq!(r.read_u8(), Ok(0x01));
    assert_eq!(r.read_u16(), Ok(0x1234));
    assert_eq!(r.read_u32(), Ok(0x12345678));
    assert_eq!(r.position(), 7);
    assert_eq!(r.remaining(), 1);
    assert_eq!(r.read_u16(), Err(DecodeError::TruncatedInput));
    assert_eq!(r.position(), 7);
    assert_eq!(r.read_u32(), Err(DecodeError::TruncatedInput));
    assert_eq!(r.read_u8(), Ok(0xAA));
    assert_eq!(r.read_u8(), Err(DecodeError::TruncatedInput));
    assert_eq!(r.position(), 8);
    assert_eq!(r.remaining(), 0);
}

#[test]
fn reader_take_hands_out_the_window() {
    let data = [10u8, 11, 12, 13, 14];
    let mut r = ByteReader::new(&data);
    r.seek(1);
    assert_eq!(r.take(3), Ok(&data[1..4]));
    assert_eq!(r.position(), 4);
    assert_eq!(r.take(2), Err(DecodeError::TruncatedInput));
    assert_eq!(r.position(), 4);
    assert_eq!(r.take(1), Ok(&data[4..5]));
    assert_eq!(r.take(0), Ok(&data[5..5]));
}

#[test]
fn reader_may_seek_anywhere() {
    let data = [1u8, 2, 3];
    let mut r = ByteReader::new(&data);
    r.seek(100);
    assert_eq!(r.position(), 100);
    assert_eq!(r.remaining(), 0);
    assert_eq!(r.read_u8(), Err(DecodeError::TruncatedInput));
    assert_eq!(r.take(0), Err(DecodeError::TruncatedInput));
    r.seek(2);
    assert_eq!(r.read_u8(), Ok(3));
    r.seek(0);
    assert_eq!(r.read_u8(), Ok(1));
}

#[test]
fn wrappers_convert_from_and_to_integers() {
    assert_eq!(Lu16::from(0x1234u16).bytes, [0x34, 0x12]);
    assert_eq!(Bu16::from(0x1234u16).bytes, [0x12, 0x34]);
    assert_eq!(u16::from(Lu16 { bytes: [0x34, 0x12] }), 0x1234);
    assert_eq!(u16::from(Bu16 { bytes: [0x34, 0x12] }), 0x3412);
    assert_eq!(u32::from(Lu32::from(0xDEAD_BEEFu32)), 0xDEAD_BEEF);
    assert_eq!(u32::from(Bu32::from(0xDEAD_BEEFu32)), 0xDEAD_BEEF);
    assert_eq!(u64::from(Lu64::from(u64::MAX - 1)), u64::MAX - 1);
    assert_eq!(u64::from(Bu64::from(7u64)), 7);
    assert_eq!(u128::from(Lu128::from(1u128 << 100)), 1 << 100);
    assert_eq!(u128::from(Bu128::from(u128::MAX)), u128::MAX);
    let wrapped: Bu32 = 0x0102_0304u32.into();
    assert_eq!(wrapped.bytes, [1, 2, 3, 4]);
}

#[test]
fn wrappers_default_to_zero() {
    assert_eq!(Lu16::default().value(), 0);
    assert_eq!(Bu16::default().bytes, [0, 0]);
    assert_eq!(Lu32::default().value(), 0);
    assert_eq!(Bu32::default().value(), 0);
    assert_eq!(Lu64::default().bytes, [0; 8]);
    assert_eq!(Bu64::default().value(), 0);
    assert_eq!(Lu128::default().value(), 0);
    assert_eq!(Bu128::default().bytes, [0; 16]);
}
