use viurs::common::{AlphaValue, ColorType, Metadata};
use viurs::error::{HeaderField, PngError};
use viurs::png::chunks::ancillary::{
    opaque, parse_bkgd_chunk, parse_trns, scale_sample, TIMEChunk, TextChunk,
};
use viurs::png::chunks::chunk_types::{is_critical, BKGD, IDAT, IEND, IHDR, PLTE, TEXT, TIME, TRNS, ZTXT};
use viurs::png::chunks::ihdr::{IHDRChunk, InterlaceMethod};
use viurs::png::chunks::plte::PLTEChunk;
use viurs::common::from_bytes_u32;

fn header(width: u32, height: u32, bit_depth: u8, color_type: u8) -> Vec<u8> {
    let mut bytes = Vec::new();
    bytes.extend_from_slice(&width.to_be_bytes());
    bytes.extend_from_slice(&height.to_be_bytes());
    bytes.extend_from_slice(&[bit_depth, color_type, 0, 0, 0]);
    bytes
}

fn metadata(width: u32, height: u32, bit_depth: u8, color_type: u8) -> Metadata {
    let mut metadata = Metadata::new();
    metadata.add_ihdr(IHDRChunk::parse(&header(width, height, bit_depth, color_type)).unwrap());
    metadata
}

#[test]
fn new_metadata_is_empty() {
    let metadata = Metadata::new();
    assert_eq!(metadata.width(), 0);
    assert_eq!(metadata.height(), 0);
    assert_eq!(metadata.bit_depth(), 0);
    assert_eq!(*metadata.color_type(), ColorType::RGB);
    assert!(metadata.palette().is_none());
    assert!(metadata.alpha().is_none());
    assert_eq!(*metadata.bkgd(), (0, 0, 0));
}

#[test]
fn header_fields_are_read() {
    let ihdr = IHDRChunk::parse(&header(640, 480, 16, 6)).unwrap();
    assert_eq!(ihdr.width(), 640);
    assert_eq!(ihdr.height(), 480);
    assert_eq!(ihdr.bit_depth(), 16);
    assert_eq!(ihdr.color_type(), ColorType::RGBA);
    assert_eq!(ihdr.interlace_method(), InterlaceMethod::NoInterlace);
    assert_eq!(ihdr.pixel_size(), 8);
}

#[test]
fn default_header_is_zero() {
    let ihdr = IHDRChunk::default();
    assert_eq!(ihdr.width(), 0);
    assert_eq!(ihdr.height(), 0);
    assert_eq!(ihdr.bit_depth(), 0);
    assert_eq!(ihdr.color_type(), ColorType::Gray);
    assert_eq!(ihdr.interlace_method(), InterlaceMethod::NoInterlace);
    assert_eq!(ihdr.pixel_size(), 1);
}

#[test]
fn every_permitted_combination_is_accepted() {
    let permitted: [(u8, ColorType, &[u8]); 5] = [
        (0, ColorType::Gray, &[1, 2, 4, 8, 16]),
        (2, ColorType::RGB, &[8, 16]),
        (3, ColorType::Palette, &[1, 2, 4, 8]),
        (4, ColorType::GrayA, &[8, 16]),
        (6, ColorType::RGBA, &[8, 16]),
    ];
    for (code, color_type, depths) in permitted {
        for depth in 0..=255u8 {
            let result = IHDRChunk::parse(&header(3, 2, depth, code));
            if depths.contains(&depth) {
                let ihdr = result.unwrap();
                assert_eq!(ihdr.color_type(), color_type);
                assert_eq!(ihdr.bit_depth(), depth);
                assert!(color_type.permits(depth));
            } else {
                assert!(matches!(
                    result,
                    Err(PngError::MalformedHeader(HeaderField::BitDepth))
                ));
                assert!(!color_type.permits(depth));
            }
        }
    }
}

#[test]
fn unknown_color_type_is_rejected() {
    for code in [1u8, 5, 7, 8, 255] {
        assert!(matches!(
            IHDRChunk::parse(&header(1, 1, 8, code)),
            Err(PngError::MalformedHeader(HeaderField::ColorType))
        ));
    }
}

#[test]
fn color_type_is_checked_before_bit_depth() {
    assert!(matches!(
        IHDRChunk::parse(&header(1, 1, 3, 5)),
        Err(PngError::MalformedHeader(HeaderField::ColorType))
    ));
}

#[test]
fn header_methods_are_checked_in_order() {
    let mut bytes = header(1, 1, 8, 2);
    bytes[10] = 1;
    bytes[11] = 1;
    bytes[12] = 2;
    assert!(matches!(
        IHDRChunk::parse(&bytes),
        Err(PngError::MalformedHeader(HeaderField::Compression))
    ));
    bytes[10] = 0;
    assert!(matches!(
        IHDRChunk::parse(&bytes),
        Err(PngError::MalformedHeader(HeaderField::Filter))
    ));
    bytes[11] = 0;
    assert!(matches!(
        IHDRChunk::parse(&bytes),
        Err(PngError::MalformedHeader(HeaderField::Interlace))
    ));
    bytes[12] = 1;
    assert!(matches!(IHDRChunk::parse(&bytes), Err(PngError::Unsupported)));
    bytes[12] = 0;
    assert!(IHDRChunk::parse(&bytes).is_ok());
}

#[test]
fn header_must_have_thirteen_bytes() {
    let bytes = header(1, 1, 8, 2);
    assert!(matches!(
        IHDRChunk::parse(&bytes[..12]),
        Err(PngError::MalformedHeader(HeaderField::Length))
    ));
    let mut longer = bytes.clone();
    longer.push(0);
    assert!(matches!(
        IHDRChunk::parse(&longer),
        Err(PngError::MalformedHeader(HeaderField::Length))
    ));
    assert!(matches!(
        IHDRChunk::parse(&[]),
        Err(PngError::MalformedHeader(HeaderField::Length))
    ));
}

#[test]
fn pixel_size_rounds_up_and_is_at_least_one() {
    let cases: [(u8, u8, u8); 15] = [
        (0, 1, 1),
        (0, 2, 1),
        (0, 4, 1),
        (0, 8, 1),
        (0, 16, 2),
        (2, 8, 3),
        (2, 16, 6),
        (3, 1, 1),
        (3, 2, 1),
        (3, 4, 1),
        (3, 8, 1),
        (4, 8, 2),
        (4, 16, 4),
        (6, 8, 4),
        (6, 16, 8),
    ];
    for (code, depth, size) in cases {
        let ihdr = IHDRChunk::parse(&header(1, 1, depth, code)).unwrap();
        assert_eq!(ihdr.pixel_size(), size);
        assert_eq!(metadata(1, 1, depth, code).pixel_size(), size);
    }
    assert_eq!(Metadata::new().pixel_size(), 1);
}

#[test]
fn channels_of_each_color_type() {
    assert_eq!(ColorType::Gray.channels(), 1);
    assert_eq!(ColorType::Palette.channels(), 1);
    assert_eq!(ColorType::GrayA.channels(), 2);
    assert_eq!(ColorType::RGB.channels(), 3);
    assert_eq!(ColorType::RGBA.channels(), 4);
}

#[test]
fn add_ihdr_keeps_palette_alpha_and_background() {
    let mut metadata = Metadata::new();
    metadata.set_palette(vec![(1, 2, 3)]);
    metadata.set_alpha(AlphaValue::Gray(7));
    metadata.set_bkgd((4, 5, 6));
    metadata.add_ihdr(IHDRChunk::parse(&header(10, 20, 8, 3)).unwrap());
    assert_eq!(metadata.width(), 10);
    assert_eq!(metadata.height(), 20);
    assert_eq!(metadata.bit_depth(), 8);
    assert_eq!(*metadata.color_type(), ColorType::Palette);
    assert_eq!(*metadata.palette(), Some(vec![(1, 2, 3)]));
    assert_eq!(*metadata.alpha(), Some(AlphaValue::Gray(7)));
    assert_eq!(*metadata.bkgd(), (4, 5, 6));
}

#[test]
fn palette_entries_come_in_order() {
    let bytes: [u8; 9] = [1, 2, 3, 4, 5, 6, 7, 8, 9];
    let plte = PLTEChunk::parse(&bytes, 9);
    assert_eq!(plte.length, 3);
    assert_eq!(plte.colors, vec![(1, 2, 3), (4, 5, 6), (7, 8, 9)]);
}

#[test]
fn palette_reads_only_size_bytes() {
    let bytes: [u8; 9] = [1, 2, 3, 4, 5, 6, 7, 8, 9];
    let plte = PLTEChunk::parse(&bytes, 6);
    assert_eq!(plte.length, 2);
    assert_eq!(plte.colors, vec![(1, 2, 3), (4, 5, 6)]);
    let empty = PLTEChunk::parse(&bytes, 0);
    assert_eq!(empty.length, 0);
    assert!(empty.colors.is_empty());
}

#[test]
fn palette_of_256_entries() {
    let bytes: Vec<u8> = (0..768u32).map(|i| (i % 251) as u8).collect();
    let plte = PLTEChunk::parse(&bytes, 768);
    assert_eq!(plte.length, 256);
    assert_eq!(plte.colors.len(), 256);
    assert_eq!(plte.colors[255], (bytes[765], bytes[766], bytes[767]));
}

#[test]
fn samples_are_scaled_to_eight_bits() {
    assert_eq!(scale_sample(0xABCD, 16), 0xAB);
    assert_eq!(scale_sample(0x00FF, 16), 0);
    assert_eq!(scale_sample(200, 8), 200);
    assert_eq!(scale_sample(0x01C8, 8), 200);
    assert_eq!(scale_sample(15, 4), 30);
    assert_eq!(scale_sample(3, 2), 12);
    assert_eq!(scale_sample(1, 1), 8);
    assert_eq!(scale_sample(255, 1), (255u32 * 8 % 256) as u8);
    assert_eq!(scale_sample(255, 4), (255u32 * 8 / 4 % 256) as u8);
}

#[test]
fn short_palette_transparency_is_padded() {
    let mut metadata = metadata(2, 2, 8, 3);
    metadata.set_palette(vec![(1, 1, 1), (2, 2, 2), (3, 3, 3), (4, 4, 4)]);
    let alpha = parse_trns(&[128, 0], &metadata).unwrap();
    assert_eq!(alpha, AlphaValue::Palette(vec![128, 0, 255, 255]));
}

#[test]
fn palette_transparency_of_full_length_and_longer() {
    let mut metadata = metadata(2, 2, 8, 3);
    metadata.set_palette(vec![(1, 1, 1), (2, 2, 2)]);
    assert_eq!(
        parse_trns(&[5, 6], &metadata).unwrap(),
        AlphaValue::Palette(vec![5, 6])
    );
    assert_eq!(
        parse_trns(&[5, 6, 7], &metadata).unwrap(),
        AlphaValue::Palette(vec![5, 6, 7])
    );
    assert_eq!(
        parse_trns(&[], &metadata).unwrap(),
        AlphaValue::Palette(vec![255, 255])
    );
}

#[test]
fn palette_transparency_needs_a_palette() {
    let metadata = metadata(2, 2, 8, 3);
    assert!(matches!(
        parse_trns(&[128, 0], &metadata),
        Err(PngError::MissingPalette)
    ));
}

#[test]
fn gray_transparency_is_scaled() {
    assert_eq!(
        parse_trns(&[0x12, 0x34], &metadata(1, 1, 16, 0)).unwrap(),
        AlphaValue::Gray(0x12)
    );
    assert_eq!(
        parse_trns(&[0, 77], &metadata(1, 1, 8, 0)).unwrap(),
        AlphaValue::Gray(77)
    );
    assert_eq!(
        parse_trns(&[0, 5], &metadata(1, 1, 4, 0)).unwrap(),
        AlphaValue::Gray(10)
    );
    assert_eq!(
        parse_trns(&[0, 1, 99], &metadata(1, 1, 1, 0)).unwrap(),
        AlphaValue::Gray(8)
    );
}

#[test]
fn rgb_transparency_reads_three_values() {
    assert_eq!(
        parse_trns(&[0, 1, 0, 2, 0, 3], &metadata(1, 1, 8, 2)).unwrap(),
        AlphaValue::RGB(1, 2, 3)
    );
    assert_eq!(
        parse_trns(&[0x11, 1, 0x22, 2, 0x33, 3], &metadata(1, 1, 16, 2)).unwrap(),
        AlphaValue::RGB(0x11, 0x22, 0x33)
    );
}

#[test]
fn transparency_is_not_allowed_with_alpha_channel() {
    assert!(matches!(
        parse_trns(&[0, 1], &metadata(1, 1, 8, 4)),
        Err(PngError::TransparencyNotAllowed)
    ));
    assert!(matches!(
        parse_trns(&[0, 1, 0, 2, 0, 3], &metadata(1, 1, 8, 6)),
        Err(PngError::TransparencyNotAllowed)
    ));
}

#[test]
fn short_transparency_is_malformed() {
    assert!(matches!(
        parse_trns(&[0], &metadata(1, 1, 8, 0)),
        Err(PngError::MalformedChunk)
    ));
    assert!(matches!(
        parse_trns(&[0, 1, 0, 2, 0], &metadata(1, 1, 8, 2)),
        Err(PngError::MalformedChunk)
    ));
}

#[test]
fn transparency_needs_a_bit_depth() {
    // Metadata without a header: RGB with bit depth 0.
    assert!(matches!(
        parse_trns(&[0, 1, 0, 2, 0, 3], &Metadata::new()),
        Err(PngError::MalformedHeader(HeaderField::BitDepth))
    ));
}

#[test]
fn black_is_moved_off_the_sentinel() {
    assert_eq!(opaque((0, 0, 0)), (0, 0, 1));
    assert_eq!(opaque((0, 0, 1)), (0, 0, 1));
    assert_eq!(opaque((0, 1, 0)), (0, 1, 0));
    assert_eq!(opaque((255, 255, 255)), (255, 255, 255));
}

#[test]
fn gray_background_is_replicated() {
    assert_eq!(
        parse_bkgd_chunk(&[0, 77], &metadata(1, 1, 8, 0)).unwrap(),
        (77, 77, 77)
    );
    assert_eq!(
        parse_bkgd_chunk(&[0xAB, 0xCD], &metadata(1, 1, 16, 4)).unwrap(),
        (0xAB, 0xAB, 0xAB)
    );
}

#[test]
fn rgb_background_reads_blue_from_the_last_pair() {
    assert_eq!(
        parse_bkgd_chunk(&[0, 10, 0, 20, 0, 30], &metadata(1, 1, 8, 2)).unwrap(),
        (10, 20, 30)
    );
    assert_eq!(
        parse_bkgd_chunk(&[1, 10, 2, 20, 3, 30], &metadata(1, 1, 16, 6)).unwrap(),
        (1, 2, 3)
    );
}

#[test]
fn black_background_is_rewritten() {
    assert_eq!(
        parse_bkgd_chunk(&[0, 0], &metadata(1, 1, 8, 0)).unwrap(),
        (0, 0, 1)
    );
    assert_eq!(
        parse_bkgd_chunk(&[0, 0, 0, 0, 0, 0], &metadata(1, 1, 8, 2)).unwrap(),
        (0, 0, 1)
    );
    let mut metadata = metadata(1, 1, 8, 3);
    metadata.set_palette(vec![(0, 0, 0), (9, 9, 9)]);
    assert_eq!(parse_bkgd_chunk(&[0], &metadata).unwrap(), (0, 0, 1));
    assert_eq!(parse_bkgd_chunk(&[1], &metadata).unwrap(), (9, 9, 9));
}

#[test]
fn palette_background_checks_its_index() {
    let mut metadata = metadata(1, 1, 8, 3);
    assert!(matches!(
        parse_bkgd_chunk(&[0], &metadata),
        Err(PngError::MissingPalette)
    ));
    metadata.set_palette(vec![(1, 1, 1), (2, 2, 2)]);
    assert!(matches!(
        parse_bkgd_chunk(&[2], &metadata),
        Err(PngError::PaletteIndex)
    ));
    assert!(matches!(
        parse_bkgd_chunk(&[], &metadata),
        Err(PngError::MalformedChunk)
    ));
}

#[test]
fn short_background_is_malformed() {
    assert!(matches!(
        parse_bkgd_chunk(&[0], &metadata(1, 1, 8, 0)),
        Err(PngError::MalformedChunk)
    ));
    assert!(matches!(
        parse_bkgd_chunk(&[0, 1, 0, 2], &metadata(1, 1, 8, 2)),
        Err(PngError::MalformedChunk)
    ));
    assert!(matches!(
        parse_bkgd_chunk(&[0, 1, 0, 2, 0, 3], &Metadata::new()),
        Err(PngError::MalformedHeader(HeaderField::BitDepth))
    ));
}

#[test]
fn time_fields_are_read() {
    let time = TIMEChunk::parse(&[0x07, 0xE4, 12, 31, 23, 59, 60]);
    assert_eq!(
        time,
        TIMEChunk { year: 2020, month: 12, day: 31, hour: 23, minute: 59, second: 60 }
    );
}

#[test]
fn text_is_split_at_the_first_zero() {
    let (keyword, text) = TextChunk::split(b"Title\0Hello\0World");
    assert_eq!(keyword, b"Title");
    assert_eq!(text, b"Hello\0World");
}

#[test]
fn text_split_edge_cases() {
    let (keyword, text) = TextChunk::split(b"\0abc");
    assert_eq!(keyword, b"");
    assert_eq!(text, b"abc");
    let (keyword, text) = TextChunk::split(b"abc\0");
    assert_eq!(keyword, b"abc");
    assert_eq!(text, b"");
    let (keyword, text) = TextChunk::split(b"abc");
    assert_eq!(keyword, b"abc");
    assert_eq!(text, b"");
    let (keyword, text) = TextChunk::split(b"");
    assert_eq!(keyword, b"");
    assert_eq!(text, b"");
}

#[test]
fn text_is_read_as_utf8() {
    let chunk = TextChunk::parse(TextChunk::split(b"Author\0J\xC3\xBCrgen")).unwrap();
    assert_eq!(
        chunk,
        TextChunk { key: String::from("Author"), text: String::from("J\u{fc}rgen") }
    );
}

#[test]
fn text_that_is_not_utf8_is_an_error() {
    assert!(matches!(
        TextChunk::parse((b"Author", b"J\xFCrgen")),
        Err(PngError::TextDecode)
    ));
    assert!(matches!(
        TextChunk::parse((b"\xFF", b"text")),
        Err(PngError::TextDecode)
    ));
}

#[test]
fn compressed_text_is_inflated() {
    let mut bytes: Vec<u8> = b"Title\0".to_vec();
    bytes.extend_from_slice(&[
        120, 156, 243, 72, 205, 201, 201, 87, 8, 207, 47, 202, 73, 81, 4, 0, 28, 73, 4, 62,
    ]);
    let chunk = TextChunk::parse_compressed(&bytes).unwrap();
    assert_eq!(chunk.key, "Title");
    assert_eq!(chunk.text, "Hello World!");
}

#[test]
fn compressed_text_that_does_not_inflate() {
    assert!(matches!(
        TextChunk::parse_compressed(b"Title\0not a zlib stream"),
        Err(PngError::InflateFailure(_))
    ));
    assert!(matches!(
        TextChunk::parse_compressed(b"Title"),
        Err(PngError::InflateFailure(_))
    ));
}

#[test]
fn chunk_type_codes_spell_their_names() {
    let names: [(&[u8; 4], u32); 9] = [
        (b"IHDR", IHDR),
        (b"PLTE", PLTE),
        (b"IDAT", IDAT),
        (b"IEND", IEND),
        (b"tRNS", TRNS),
        (b"tIME", TIME),
        (b"tEXt", TEXT),
        (b"zTXt", ZTXT),
        (b"bKGD", BKGD),
    ];
    for (name, code) in names {
        assert_eq!(from_bytes_u32(name), code);
        assert_eq!(is_critical(code), name[0].is_ascii_uppercase());
    }
}
