use viurs::common::{from_bytes_u16, from_bytes_u32, is_transparent, replace_with_bg};
use viurs::crc::CRCHandler;

#[test]
fn crc_of_one_by_one_rgb_header() {
    let handler = CRCHandler::new();
    let bytes: [u8; 17] = [0x49, 0x48, 0x44, 0x52, 0, 0, 0, 1, 0, 0, 0, 1, 8, 2, 0, 0, 0];
    assert_eq!(handler.crc(&bytes), 0x9077_53DE);
}

#[test]
fn crc_of_check_string() {
    let handler = CRCHandler::new();
    assert_eq!(handler.crc(b"123456789"), 0xCBF4_3926);
}

#[test]
fn crc_of_nothing_is_zero() {
    let handler = CRCHandler::new();
    assert_eq!(handler.crc(&[]), 0);
}

#[test]
fn crc_of_end_chunk_type() {
    let handler = CRCHandler::new();
    assert_eq!(handler.crc(b"IEND"), 0xAE42_6082);
}

#[test]
fn update_crc_takes_only_len_bytes() {
    let handler = CRCHandler::new();
    let register = handler.update_crc(0xFFFF_FFFF, b"123456789abc", 9);
    assert_eq!(register ^ 0xFFFF_FFFF, 0xCBF4_3926);
    assert_eq!(handler.update_crc(0x1234_5678, b"abc", 0), 0x1234_5678);
}

#[test]
fn update_crc_can_be_continued() {
    let handler = CRCHandler::new();
    let first = handler.update_crc(0xFFFF_FFFF, b"1234", 4);
    let second = handler.update_crc(first, b"56789", 5);
    assert_eq!(second ^ 0xFFFF_FFFF, 0xCBF4_3926);
}

#[test]
fn verify_accepts_the_computed_crc() {
    let handler = CRCHandler::new();
    let samples: [&[u8]; 4] = [b"", b"a", b"IDAT\x00\x01\x02", b"The quick brown fox"];
    for sample in samples {
        let crc = handler.crc(sample);
        assert_eq!(handler.verify(crc, sample), Ok(()));
    }
}

#[test]
fn verify_reports_the_computed_crc() {
    let handler = CRCHandler::new();
    assert_eq!(handler.verify(0, b"123456789"), Err(0xCBF4_3926));
    assert_eq!(handler.verify(0xCBF4_3927, b"123456789"), Err(0xCBF4_3926));
}

#[test]
fn big_endian_u32() {
    assert_eq!(from_bytes_u32(&[0, 0, 0, 13]), 13);
    assert_eq!(from_bytes_u32(&[0x12, 0x34, 0x56, 0x78]), 0x1234_5678);
    assert_eq!(from_bytes_u32(&[0xFF, 0xFF, 0xFF, 0xFF, 7]), 0xFFFF_FFFF);
}

#[test]
fn big_endian_u16() {
    assert_eq!(from_bytes_u16(&[0x07, 0xE4]), 2020);
    assert_eq!(from_bytes_u16(&[0xFF, 0xFF]), 0xFFFF);
    assert_eq!(from_bytes_u16(&[1, 0, 9]), 256);
}

#[test]
fn only_black_is_transparent() {
    assert!(is_transparent(0, 0, 0));
    assert!(!is_transparent(0, 0, 1));
    assert!(!is_transparent(1, 0, 0));
    assert!(!is_transparent(0, 1, 0));
}

#[test]
fn background_shows_through_transparent_pixels() {
    assert_eq!(replace_with_bg(&(0, 0, 0), &(9, 8, 7)), (9, 8, 7));
    assert_eq!(replace_with_bg(&(0, 0, 1), &(9, 8, 7)), (0, 0, 1));
    assert_eq!(replace_with_bg(&(1, 2, 3), &(0, 0, 0)), (1, 2, 3));
}
