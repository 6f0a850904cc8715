//! End-to-end and component tests for the glyph generation pipeline.

use embedded_font_generator::dump::DumpFormat;
use embedded_font_generator::imagedecode::{
    calc_char_size, fill_bytes, parse_rgba, threshold, ColorSpaceTag, MonochromaticColorIter,
    RawImage, Rgba, RgbaColorIter, Samples, SupportedColorSpace,
};
use embedded_font_generator::{
    generate_from_image, generate_monochromatic, BitFlow, FontMode, GenerationError,
};

/// Prevent regression of wrong size calculations
#[test]
fn calc_char_size_test() {
    assert_eq!(calc_char_size(FontMode::Row, 10, 16), 10 * 16);
    assert_eq!(calc_char_size(FontMode::Row, 10, 20), 10 * 20);
    assert_eq!(calc_char_size(FontMode::ByteColumn, 10, 16), 10 * 16);
    assert_eq!(calc_char_size(FontMode::ByteColumn, 10, 20), 10 * 24);
}

#[test]
fn threshold_with_alpha() {
    // With an alpha channel only the alpha value decides.
    assert!(threshold(Rgba { r: 0, g: 0, b: 0, a: 255 }, true));
    assert!(!threshold(Rgba { r: 0, g: 0, b: 0, a: 0 }, true));
    assert!(!threshold(Rgba { r: 0, g: 0, b: 0, a: 127 }, true));
    assert!(threshold(Rgba { r: 0, g: 0, b: 0, a: 128 }, true));
    // Opaque white still counts as on: alpha alone decides.
    assert!(threshold(Rgba { r: 255, g: 255, b: 255, a: 255 }, true));
}

#[test]
fn threshold_without_alpha() {
    // Alpha-less sources are ink on white paper: dark enough in any channel
    // is ink.
    assert!(threshold(Rgba { r: 10, g: 10, b: 10, a: 255 }, false));
    assert!(!threshold(Rgba { r: 250, g: 250, b: 250, a: 255 }, false));
    assert!(threshold(Rgba { r: 250, g: 250, b: 127, a: 255 }, false));
    assert!(!threshold(Rgba { r: 128, g: 128, b: 128, a: 255 }, false));
}

#[test]
fn pack_bits_most_to_least() {
    let bits = vec![true, false, true, false, true, false, true, false];
    assert_eq!(
        embedded_font_generator::pack::pack_bits(&bits, BitFlow::Mtl),
        vec![0b1010_1010u8]
    );
}

#[test]
fn pack_bits_least_to_most() {
    let bits = vec![true, false, true, false, true, false, true, false];
    assert_eq!(
        embedded_font_generator::pack::pack_bits(&bits, BitFlow::Ltm),
        vec![0b0101_0101u8]
    );
}

#[test]
fn pack_bits_trailing_partial_discarded() {
    // 12 booleans emit exactly 1 byte: the partial group of 4 is dropped.
    let bits = vec![
        true, true, false, false, true, true, false, false, true, true, true, true,
    ];
    let out = embedded_font_generator::pack::pack_bits(&bits, BitFlow::Mtl);
    assert_eq!(out, vec![0b1100_1100u8]);
}

#[test]
fn pack_bits_empty() {
    let out = embedded_font_generator::pack::pack_bits(&vec![], BitFlow::Mtl);
    assert_eq!(out, Vec::<u8>::new());
}

fn black_column_image(alpha: u8) -> RawImage {
    let mut samples = Vec::new();
    for _ in 0..8 {
        samples.extend_from_slice(&[0, 0, 0, alpha]);
    }
    RawImage {
        width: 1,
        height: 8,
        color_space: ColorSpaceTag::Rgba,
        samples: Samples::U8(samples),
    }
}

#[test]
fn generate_opaque_black_column() {
    let out = generate_from_image(black_column_image(255), FontMode::Row, BitFlow::Mtl).unwrap();
    assert_eq!(out, vec![0b1111_1111u8]);
}

#[test]
fn generate_transparent_column() {
    let out = generate_from_image(black_column_image(0), FontMode::Row, BitFlow::Mtl).unwrap();
    assert_eq!(out, vec![0b0000_0000u8]);
}

#[test]
fn generate_rejects_unsupported_colorspace() {
    // A decoded image reporting an unsupported color space is rejected
    // before any pixel processing: no bytes come out.
    for tag in [ColorSpaceTag::Unknown, ColorSpaceTag::Ycbcr, ColorSpaceTag::Cmyk] {
        let img = RawImage {
            width: 1,
            height: 8,
            color_space: tag,
            samples: Samples::U8(vec![0; 32]),
        };
        let r = generate_from_image(img, FontMode::Row, BitFlow::Mtl);
        assert!(matches!(
            r,
            Err(GenerationError::UnsupportedColorspace(t)) if t == tag
        ));
    }
}

#[test]
fn row_order_physical_equals_logical() {
    // In row order the pixels come back exactly in buffer order.
    let img = RawImage {
        width: 2,
        height: 2,
        color_space: ColorSpaceTag::Luma,
        samples: Samples::U8(vec![10, 20, 30, 40]),
    };
    let mut it = RgbaColorIter::from_image(img, FontMode::Row).unwrap();
    for expected in [10u8, 20, 30, 40] {
        let px = it.next().unwrap();
        assert_eq!(
            px,
            Rgba { r: expected, g: expected, b: expected, a: 255 }
        );
    }
    assert!(it.next().is_none());
}

#[test]
fn byte_column_padding_is_transparent_black() {
    // 2x4 image: byte-column mode pads the height to 8. Each column packs
    // 4 real opaque black pixels then 4 virtual transparent ones.
    let img = RawImage {
        width: 2,
        height: 4,
        color_space: ColorSpaceTag::Rgba,
        samples: Samples::U8(vec![0, 0, 0, 255].repeat(8)),
    };
    let out = generate_from_image(img, FontMode::ByteColumn, BitFlow::Mtl).unwrap();
    assert_eq!(out, vec![0b1111_0000u8, 0b1111_0000u8]);
}

#[test]
fn byte_column_virtual_pixels_read_no_samples() {
    // The virtual rows yield pixels even though the buffer holds nothing
    // for them.
    let img = RawImage {
        width: 1,
        height: 1,
        color_space: ColorSpaceTag::Rgba,
        samples: Samples::U8(vec![0, 0, 0, 255]),
    };
    let mut it = RgbaColorIter::from_image(img, FontMode::ByteColumn).unwrap();
    assert_eq!(it.next(), Some(Rgba { r: 0, g: 0, b: 0, a: 255 }));
    for _ in 0..7 {
        assert_eq!(it.next(), Some(Rgba { r: 0, g: 0, b: 0, a: 0 }));
    }
    assert!(it.next().is_none());
}

#[test]
fn sixteen_bit_samples_reduce_by_division() {
    let img = RawImage {
        width: 1,
        height: 1,
        color_space: ColorSpaceTag::Luma,
        samples: Samples::U16(vec![0x1234]),
    };
    let mut it = RgbaColorIter::from_image(img, FontMode::Row).unwrap();
    assert_eq!(
        it.next(),
        Some(Rgba { r: 0x12, g: 0x12, b: 0x12, a: 255 })
    );
    assert!(it.next().is_none());
}

#[test]
fn truncated_buffer_ends_sequence_early() {
    // A 2x2 RGBA image with samples for only one pixel: the bit sequence
    // ends early, and fewer than 8 bits emit no byte at all.
    let img = RawImage {
        width: 2,
        height: 2,
        color_space: ColorSpaceTag::Rgba,
        samples: Samples::U8(vec![0, 0, 0, 255]),
    };
    let out = generate_from_image(img, FontMode::Row, BitFlow::Mtl).unwrap();
    assert_eq!(out, Vec::<u8>::new());
}

#[test]
fn monochromatic_iter_bits() {
    let img = black_column_image(255);
    let mut it = MonochromaticColorIter::from_image(img, FontMode::Row).unwrap();
    for _ in 0..8 {
        assert_eq!(it.next(), Some(true));
    }
    assert!(it.next().is_none());
}

#[test]
fn parse_rgba_channel_mapping() {
    let b = [1u8, 2, 3, 4];
    assert_eq!(
        parse_rgba(b, SupportedColorSpace::Rgb),
        Rgba { r: 1, g: 2, b: 3, a: 255 }
    );
    assert_eq!(
        parse_rgba(b, SupportedColorSpace::Rgba),
        Rgba { r: 1, g: 2, b: 3, a: 4 }
    );
    assert_eq!(
        parse_rgba(b, SupportedColorSpace::Luma),
        Rgba { r: 1, g: 1, b: 1, a: 255 }
    );
    assert_eq!(
        parse_rgba(b, SupportedColorSpace::LumaA),
        Rgba { r: 1, g: 1, b: 1, a: 2 }
    );
    assert_eq!(
        parse_rgba(b, SupportedColorSpace::Bgr),
        Rgba { r: 3, g: 2, b: 1, a: 255 }
    );
    assert_eq!(
        parse_rgba(b, SupportedColorSpace::Bgra),
        Rgba { r: 3, g: 2, b: 1, a: 4 }
    );
}

#[test]
fn fill_bytes_reads_components() {
    let s = Samples::U8(vec![1, 2, 3]);
    assert_eq!(fill_bytes(&s, 0, 3), Some([1, 2, 3, 0]));
    assert_eq!(fill_bytes(&s, 1, 2), Some([2, 3, 0, 0]));
    assert_eq!(fill_bytes(&s, 1, 3), None);
    assert_eq!(fill_bytes(&s, 3, 1), None);
    let s16 = Samples::U16(vec![5 * 256, 256]);
    assert_eq!(fill_bytes(&s16, 0, 2), Some([5, 1, 0, 0]));
}

#[test]
fn supported_colorspace_mapping() {
    assert_eq!(
        SupportedColorSpace::new(ColorSpaceTag::Rgb),
        Some(SupportedColorSpace::Rgb)
    );
    assert_eq!(
        SupportedColorSpace::new(ColorSpaceTag::Bgra),
        Some(SupportedColorSpace::Bgra)
    );
    assert_eq!(SupportedColorSpace::new(ColorSpaceTag::Hsv), None);
    assert_eq!(SupportedColorSpace::new(ColorSpaceTag::Unknown), None);
    assert_eq!(SupportedColorSpace::Rgba.num_components(), 4);
    assert_eq!(SupportedColorSpace::Luma.num_components(), 1);
    assert!(SupportedColorSpace::LumaA.supports_alpha());
    assert!(!SupportedColorSpace::Bgr.supports_alpha());
}

#[test]
fn font_mode_parsing() {
    assert!(matches!(
        "row".parse::<FontMode>(),
        Ok(FontMode::Row)
    ));
    assert!(matches!(
        "byte-column".parse::<FontMode>(),
        Ok(FontMode::ByteColumn)
    ));
    assert!(matches!(
        "column-byte".parse::<FontMode>(),
        Ok(FontMode::ByteColumn)
    ));
    assert!("rows".parse::<FontMode>().is_err());
}

#[test]
fn bit_flow_parsing() {
    for s in ["mtl", "MTL", "Mtl", "m2l", "Most", "big", "Big"] {
        assert!(matches!(s.parse::<BitFlow>(), Ok(BitFlow::Mtl)));
    }
    for s in ["ltm", "LTM", "Ltm", "l2m", "Least", "small", "Small"] {
        assert!(matches!(s.parse::<BitFlow>(), Ok(BitFlow::Ltm)));
    }
    assert!("median".parse::<BitFlow>().is_err());
}

#[test]
fn dump_format_parsing() {
    assert!(matches!("binary".parse::<DumpFormat>(), Ok(DumpFormat::Binary)));
    assert!(matches!("hex".parse::<DumpFormat>(), Ok(DumpFormat::Hex)));
    assert!("octal".parse::<DumpFormat>().is_err());
}

/// A 1x8 fully opaque black RGBA PNG.
const OPAQUE_PNG: [u8; 73] = [
    137, 80, 78, 71, 13, 10, 26, 10, 0, 0, 0, 13, 73, 72, 68, 82, 0, 0, 0, 1, 0, 0, 0, 8, 8, 6,
    0, 0, 0, 56, 26, 149, 65, 0, 0, 0, 16, 73, 68, 65, 84, 120, 156, 99, 96, 96, 96, 248, 207,
    64, 152, 0, 0, 147, 148, 7, 249, 32, 13, 50, 227, 0, 0, 0, 0, 73, 69, 78, 68, 174, 66, 96,
    130,
];

/// The same 1x8 image with every pixel fully transparent.
const TRANSPARENT_PNG: [u8; 69] = [
    137, 80, 78, 71, 13, 10, 26, 10, 0, 0, 0, 13, 73, 72, 68, 82, 0, 0, 0, 1, 0, 0, 0, 8, 8, 6,
    0, 0, 0, 56, 26, 149, 65, 0, 0, 0, 12, 73, 68, 65, 84, 120, 156, 99, 96, 32, 14, 0, 0, 0,
    40, 0, 1, 53, 84, 114, 132, 0, 0, 0, 0, 73, 69, 78, 68, 174, 66, 96, 130,
];

#[test]
fn generate_monochromatic_from_png() {
    let out = generate_monochromatic(&OPAQUE_PNG, FontMode::Row, BitFlow::Mtl).unwrap();
    assert_eq!(out, vec![0b1111_1111u8]);
    let out = generate_monochromatic(&TRANSPARENT_PNG, FontMode::Row, BitFlow::Mtl).unwrap();
    assert_eq!(out, vec![0b0000_0000u8]);
}

#[test]
fn generate_monochromatic_rejects_bad_data() {
    let r = generate_monochromatic(&[1, 2, 3, 4], FontMode::Row, BitFlow::Mtl);
    assert!(matches!(r, Err(GenerationError::PngDecodingError(_))));
}

#[test]
fn monochromatic_iter_from_png() {
    let mut it = MonochromaticColorIter::new(&OPAQUE_PNG, FontMode::Row).unwrap();
    let mut bits = Vec::new();
    while let Some(b) = it.next() {
        bits.push(b);
    }
    assert_eq!(bits, vec![true; 8]);
}
