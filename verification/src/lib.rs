//! Conversion of raster images into 1-bit-per-pixel glyph bitmaps for
//! embedded display firmware.
//!
//! The pipeline normalizes decoded pixel data to a canonical RGBA form,
//! walks the pixels in a caller-chosen scan order, reduces each pixel to a
//! single on/off bit, and packs the bits into bytes under a caller-chosen
//! bit-significance order.

pub mod dump;
pub mod error;
pub mod imagedecode;
pub mod pack;

pub use error::GenerationError;

use vstd::prelude::*;

use crate::imagedecode::{
    spec_bits, spec_bits_from, spec_supported, MonochromaticColorIter, RawImage,
};
use crate::pack::spec_pack;

verus! {

/// The mode in which the font should be generated: the order in which the
/// pixels of the source image are walked.
#[derive(Debug, Clone, Copy, Default)]
pub enum FontMode {
    /// The image is read line by line and each pixel is inserted into the
    /// resulting font. There is no alignment.
    #[default]
    Row,
    /// Works in columns of 8: scans 8 stacked rows of one column before
    /// advancing to the next column, padding the height to a multiple of 8.
    ByteColumn,
}

/// A font mode was tried to be parsed that doesn't exist.
#[derive(Debug)]
pub struct FontModeParseError(pub String);

/// In what direction the bits inside a byte flow in a monochromatic font.
#[derive(Clone, Copy, Debug, Default)]
pub enum BitFlow {
    /// Most significant bit to least significant bit.
    #[default]
    Mtl,
    /// Least significant bit to most significant bit.
    Ltm,
}

/// A bit flow was tried to be parsed that doesn't exist.
#[derive(Clone, Debug)]
pub struct BitFlowParseError(pub String);

/// Generate a single monochromatic font from encoded PNG data.
///
/// The data is decoded, the decoded pixels are walked in the chosen scan
/// order, each pixel is reduced to one on/off bit, and the bits are packed
/// into bytes under the chosen bit flow; a trailing partial byte is
/// discarded.
///
/// # Errors
/// An error is returned when the given image data can not be decoded as png
/// or reports an unsupported color space.
pub fn generate_monochromatic(data: &[u8], font_mode: FontMode, bit_flow: BitFlow) -> (r: Result<
    Vec<u8>,
    GenerationError,
>)
    ensures
        match r {
            Ok(bytes) => imagedecode::png_image_of(data@) matches Some(img) && spec_supported(
                img.color_space,
            ) matches Some(cs) && bytes@ == spec_pack(
                spec_bits(
                    img.samples.byte_seq(),
                    img.width as nat,
                    img.height as nat,
                    cs,
                    font_mode,
                ),
                bit_flow,
            ),
            Err(e) => match e {
                GenerationError::PngDecodingError(_) => imagedecode::png_image_of(data@) is None,
                GenerationError::UnsupportedColorspace(t) => imagedecode::png_image_of(data@)
                    matches Some(img) && img.color_space == t && spec_supported(t) is None,
                _ => false,
            },
        },
{
    let img = match imagedecode::decode_png(data) {
        Ok(img) => img,
        Err(e) => {
            return Err(GenerationError::PngDecodingError(e));
        },
    };
    proof {
        imagedecode::lemma_decoded_dims_fit(font_mode, img.width as nat, img.height as nat);
    }
    generate_from_image(img, font_mode, bit_flow)
}

/// Generate the monochromatic font bytes of one already-decoded image.
///
/// The image's pixels are walked in the chosen scan order, each pixel is
/// reduced to one on/off bit, and the bits are packed into bytes under the
/// chosen bit flow; a trailing partial byte is discarded. An image whose
/// color space tag is not one of the six supported tags is rejected before
/// any pixel processing.
#[verifier::rlimit(60)]
pub fn generate_from_image(img: RawImage, font_mode: FontMode, bit_flow: BitFlow) -> (r: Result<
    Vec<u8>,
    GenerationError,
>)
    requires
        imagedecode::spec_padded_height(font_mode, img.height as nat) <= usize::MAX,
        imagedecode::spec_char_size(font_mode, img.width as nat, img.height as nat) <= usize::MAX,
    ensures
        match spec_supported(img.color_space) {
            Some(cs) => r matches Ok(bytes) && bytes@ == spec_pack(
                spec_bits(
                    img.samples.byte_seq(),
                    img.width as nat,
                    img.height as nat,
                    cs,
                    font_mode,
                ),
                bit_flow,
            ),
            None => r matches Err(GenerationError::UnsupportedColorspace(t)) && t
                == img.color_space,
        },
{
    let ghost gbytes = img.samples.byte_seq();
    let ghost gw = img.width as nat;
    let ghost gh = img.height as nat;
    let mut it = match MonochromaticColorIter::from_image(img, font_mode) {
        Ok(it) => it,
        Err(e) => {
            return Err(e);
        },
    };
    let ghost cs = it.0.color_space;
    let ghost total = spec_bits(gbytes, gw, gh, cs, font_mode);
    let mut out: Vec<u8> = Vec::new();
    let mut acc: u8 = 0;
    let ghost mut consumed: Seq<bool> = Seq::empty();
    loop
        invariant_except_break
            it.0.wf(),
            it.0.inner.byte_seq() == gbytes,
            it.0.width as nat == gw,
            it.0.height as nat == gh,
            it.0.color_space == cs,
            it.0.font_mode == font_mode,
            consumed.len() == it.0.idx,
            total == consumed + spec_bits_from(gbytes, gw, gh, cs, font_mode, it.0.idx as nat),
            acc == crate::pack::spec_accum(
                consumed.subrange(
                    consumed.len() - (consumed.len() % 8),
                    consumed.len() as int,
                ),
                bit_flow,
            ),
            out@ == spec_pack(
                consumed.take(consumed.len() - (consumed.len() % 8)),
                bit_flow,
            ),
        ensures
            out@ == spec_pack(total, bit_flow),
        decreases it.0.char_size - it.0.idx,
    {
        let ghost old_it = it;
        let ghost old_consumed = consumed;
        let ghost len0 = consumed.len() as int;
        let ghost start = len0 - (len0 % 8);
        match it.next() {
            None => {
                proof {
                    assert(spec_bits_from(gbytes, gw, gh, cs, font_mode, old_it.0.idx as nat)
                        =~= Seq::<bool>::empty());
                    assert(total =~= consumed);
                    pack::lemma_pack_drop_partial(consumed, bit_flow);
                    assert(out@ == spec_pack(total, bit_flow));
                }
                break ;
            },
            Some(bit) => {
                proof {
                    assert(spec_bits_from(gbytes, gw, gh, cs, font_mode, old_it.0.idx as nat)
                        =~= seq![bit] + spec_bits_from(
                        gbytes,
                        gw,
                        gh,
                        cs,
                        font_mode,
                        old_it.0.idx as nat + 1,
                    ));
                    consumed = consumed.push(bit);
                    assert(total =~= consumed + spec_bits_from(
                        gbytes,
                        gw,
                        gh,
                        cs,
                        font_mode,
                        it.0.idx as nat,
                    ));
                    assert(consumed.subrange(start, len0 + 1).drop_last() =~= old_consumed
                        .subrange(start, len0));
                    assert(consumed.subrange(start, len0 + 1).last() == bit);
                }
                acc = crate::pack::push_bit(acc, bit, bit_flow);
                if it.0.idx % 8 == 0 {
                    proof {
                        pack::lemma_pack_step(consumed, start, bit_flow);
                        assert(consumed.take(start) =~= old_consumed.take(start));
                        assert(consumed.take(start + 8) =~= consumed.take(
                            consumed.len() - (consumed.len() % 8),
                        ));
                    }
                    out.push(acc);
                    acc = 0;
                    proof {
                        assert(consumed.subrange(
                            consumed.len() - (consumed.len() % 8),
                            consumed.len() as int,
                        ) =~= Seq::<bool>::empty());
                    }
                } else {
                    proof {
                        assert(consumed.take(consumed.len() - (consumed.len() % 8))
                            =~= old_consumed.take(start));
                        assert(consumed.subrange(
                            consumed.len() - (consumed.len() % 8),
                            consumed.len() as int,
                        ) =~= consumed.subrange(start, len0 + 1));
                    }
                }
            },
        }
    }
    Ok(out)
}

/// True exactly when the two string slices hold the same characters.
pub(crate) fn str_eq(a: &str, b: &str) -> (r: bool)
    ensures
        r == (a@ == b@),
{
    let oa: String = a.to_owned();
    let ob: String = b.to_owned();
    oa == ob
}

impl FontMode {
    /// Parse a font mode from its command-line spelling.
    pub fn parse(s: &str) -> (r: Result<FontMode, FontModeParseError>)
        ensures
            (s@ == "row"@ ==> (r matches Ok(FontMode::Row))),
            (s@ == "byte-column"@ || s@ == "column-byte"@) ==> (r matches Ok(
                FontMode::ByteColumn,
            )),
            (s@ != "row"@ && s@ != "byte-column"@ && s@ != "column-byte"@) ==> (r matches Err(e)
                && e.0@ == s@),
    {
        proof {
            reveal_strlit("row");
            reveal_strlit("byte-column");
            reveal_strlit("column-byte");
            assert("row"@.len() == 3);
            assert("byte-column"@.len() == 11);
            assert("column-byte"@.len() == 11);
        }
        if str_eq(s, "row") {
            Ok(FontMode::Row)
        } else if str_eq(s, "byte-column") || str_eq(s, "column-byte") {
            Ok(FontMode::ByteColumn)
        } else {
            Err(FontModeParseError(s.to_owned()))
        }
    }
}

impl core::str::FromStr for FontMode {
    type Err = FontModeParseError;

    fn from_str(s: &str) -> Result<Self, Self::Err> {
        FontMode::parse(s)
    }
}

impl BitFlow {
    /// Parse a bit flow from one of its command-line spellings.
    pub fn parse(s: &str) -> (r: Result<BitFlow, BitFlowParseError>)
        ensures
            (s@ == "mtl"@ || s@ == "MTL"@ || s@ == "Mtl"@ || s@ == "m2l"@ || s@ == "Most"@ || s@
                == "big"@ || s@ == "Big"@) ==> (r matches Ok(BitFlow::Mtl)),
            (s@ == "ltm"@ || s@ == "LTM"@ || s@ == "Ltm"@ || s@ == "l2m"@ || s@ == "Least"@ || s@
                == "small"@ || s@ == "Small"@) ==> (r matches Ok(BitFlow::Ltm)),
    {
        proof {
            reveal_strlit("mtl");
            reveal_strlit("MTL");
            reveal_strlit("Mtl");
            reveal_strlit("m2l");
            reveal_strlit("Most");
            reveal_strlit("big");
            reveal_strlit("Big");
            reveal_strlit("ltm");
            reveal_strlit("LTM");
            reveal_strlit("Ltm");
            reveal_strlit("l2m");
            reveal_strlit("Least");
            reveal_strlit("small");
            reveal_strlit("Small");
            assert("mtl"@.len() == 3 && "mtl"@[0] == 'm');
            assert("MTL"@.len() == 3 && "MTL"@[0] == 'M');
            assert("Mtl"@.len() == 3 && "Mtl"@[0] == 'M');
            assert("m2l"@.len() == 3 && "m2l"@[0] == 'm');
            assert("Most"@.len() == 4);
            assert("big"@.len() == 3 && "big"@[0] == 'b');
            assert("Big"@.len() == 3 && "Big"@[0] == 'B');
            assert("ltm"@.len() == 3 && "ltm"@[0] == 'l');
            assert("LTM"@.len() == 3 && "LTM"@[0] == 'L');
            assert("Ltm"@.len() == 3 && "Ltm"@[0] == 'L');
            assert("l2m"@.len() == 3 && "l2m"@[0] == 'l');
            assert("Least"@.len() == 5);
            assert("small"@.len() == 5 && "small"@[0] == 's');
            assert("Small"@.len() == 5 && "Small"@[0] == 'S');
        }
        if str_eq(s, "mtl") || str_eq(s, "MTL") || str_eq(s, "Mtl") || str_eq(s, "m2l") || str_eq(
            s,
            "Most",
        ) || str_eq(s, "big") || str_eq(s, "Big") {
            Ok(BitFlow::Mtl)
        } else if str_eq(s, "ltm") || str_eq(s, "LTM") || str_eq(s, "Ltm") || str_eq(s, "l2m")
            || str_eq(s, "Least") || str_eq(s, "small") || str_eq(s, "Small") {
            Ok(BitFlow::Ltm)
        } else {
            Err(BitFlowParseError(s.to_owned()))
        }
    }
}

impl core::str::FromStr for BitFlow {
    type Err = BitFlowParseError;

    fn from_str(s: &str) -> Result<Self, Self::Err> {
        BitFlow::parse(s)
    }
}

} // verus!

