//! Decoding of source images into canonical RGBA pixels, and the
//! logical-to-physical scan-order mapping.

use vstd::prelude::*;

use crate::FontMode;
use zune_png::zune_core::bytestream::ZCursor;
use zune_png::zune_core::colorspace::ColorSpace;
use zune_png::zune_core::result::DecodingResult;
use zune_png::error::PngDecodeErrors;
use zune_png::PngDecoder;

verus! {

/// The color space value the PNG decoder reports, carried through opaquely.
#[verifier::external_type_specification]
#[verifier::external_body]
pub struct ExColorSpace(ColorSpace);

/// What the PNG decoder yields for a given byte stream, as one value:
/// decoding is a pure function of the bytes alone. `None` stands for a
/// failed decode.
pub uninterp spec fn png_image_of(data: Seq<u8>) -> Option<RawImage>;

/// Relies on zune_png's `PngDecoder`: decoding a PNG byte stream reads
/// nothing but the bytes, so it is deterministic; and a successfully decoded
/// image has width and height between 1 and 16384, the decoder's default
/// limits, both enforced when the header is parsed.
#[verifier::external_body]
pub(crate) fn decode_png(data: &[u8]) -> (r: Result<RawImage, PngDecodeErrors>)
    ensures
        r matches Ok(img) ==> Some(img) == png_image_of(data@) && 1 <= img.width <= 16384 && 1
            <= img.height <= 16384,
        r is Err ==> png_image_of(data@) is None,
{
    let mut decoder = PngDecoder::new(ZCursor::new(data));
    decoder.decode_headers()?;
    let cs = decoder.colorspace().unwrap_or(ColorSpace::Unknown);
    let (width, height) = decoder
        .dimensions()
        .ok_or(PngDecodeErrors::GenericStatic("no image dimensions"))?;
    let samples = match decoder.decode()? {
        DecodingResult::U8(v) => Samples::U8(v),
        DecodingResult::U16(v) => Samples::U16(v),
        _ => return Err(PngDecodeErrors::GenericStatic("unsupported sample precision")),
    };
    Ok(RawImage { width, height, color_space: color_space_tag(cs), samples })
}

/// Relies on the identity of the decoder's color space variants: each one is
/// handed on as the library's tag of the same name, and any variant this
/// library does not know is handed on as `Unknown`.
#[verifier::external_body]
fn color_space_tag(cs: ColorSpace) -> ColorSpaceTag {
    match cs {
        ColorSpace::RGB => ColorSpaceTag::Rgb, ColorSpace::RGBA => ColorSpaceTag::Rgba,
        ColorSpace::YCbCr => ColorSpaceTag::Ycbcr, ColorSpace::Luma => ColorSpaceTag::Luma,
        ColorSpace::LumaA => ColorSpaceTag::LumaA, ColorSpace::YCCK => ColorSpaceTag::Ycck,
        ColorSpace::CMYK => ColorSpaceTag::Cmyk, ColorSpace::BGR => ColorSpaceTag::Bgr,
        ColorSpace::BGRA => ColorSpaceTag::Bgra, ColorSpace::ARGB => ColorSpaceTag::Argb,
        ColorSpace::HSL => ColorSpaceTag::Hsl, ColorSpace::HSV => ColorSpaceTag::Hsv,
        _ => ColorSpaceTag::Unknown,
    }
}

/// The padded height of the glyph: `Row` keeps the image height, while
/// `ByteColumn` rounds it up to the next multiple of 8.
pub open spec fn spec_padded_height(font_mode: FontMode, height: nat) -> nat {
    match font_mode {
        FontMode::Row => height,
        FontMode::ByteColumn => if height % 8 == 0 {
            height
        } else {
            (height + (8 - height % 8)) as nat
        },
    }
}

/// The total logical pixel count of one glyph, virtual padding included.
pub open spec fn spec_char_size(font_mode: FontMode, width: nat, height: nat) -> nat {
    width * spec_padded_height(font_mode, height)
}

/// Calculate the size the complete char has in theory; this might be larger
/// than `width * height` because of alignment.
pub fn calc_char_size(font_mode: FontMode, width: usize, height: usize) -> (r: usize)
    requires
        spec_padded_height(font_mode, height as nat) <= usize::MAX,
        spec_char_size(font_mode, width as nat, height as nat) <= usize::MAX,
    ensures
        r == spec_char_size(font_mode, width as nat, height as nat),
{
    match font_mode {
        FontMode::Row => width * height,
        FontMode::ByteColumn => {
            if height % 8 == 0 {
                width * height
            } else {
                let padded: usize = height + (8 - height % 8);
                width * padded
            }
        },
    }
}

/// Geometry within the decoder's limits keeps every derived count within
/// the machine word: the padded height and the char size fit in `usize`.
pub proof fn lemma_decoded_dims_fit(font_mode: FontMode, width: nat, height: nat)
    requires
        1 <= width <= 16384,
        1 <= height <= 16384,
    ensures
        spec_padded_height(font_mode, height) <= usize::MAX,
        spec_char_size(font_mode, width, height) <= usize::MAX,
{
    let padded = spec_padded_height(font_mode, height);
    assert(padded <= 16392);
    assert(width * padded <= 16384 * 16392) by (nonlinear_arith)
        requires
            1 <= width <= 16384,
            0 <= padded <= 16392,
    ;
    assert(usize::MAX >= 0xffff_ffff);
}

/// The char size never undercounts the real pixels: it is at least
/// `width * height` in every mode.
pub proof fn lemma_char_size_at_least_area(font_mode: FontMode, width: nat, height: nat)
    ensures
        spec_char_size(font_mode, width, height) >= width * height,
{
    assert(spec_padded_height(font_mode, height) >= height);
    vstd::arithmetic::mul::lemma_mul_inequality(
        height as int,
        spec_padded_height(font_mode, height) as int,
        width as int,
    );
    vstd::arithmetic::mul::lemma_mul_is_commutative(
        width as int,
        spec_padded_height(font_mode, height) as int,
    );
    vstd::arithmetic::mul::lemma_mul_is_commutative(width as int, height as int);
}

/// When the height is already a multiple of 8, both scan orders agree on the
/// char size: it is exactly `width * height`.
pub proof fn lemma_char_size_aligned(width: nat, height: nat)
    requires
        height % 8 == 0,
    ensures
        spec_char_size(FontMode::ByteColumn, width, height) == spec_char_size(
            FontMode::Row,
            width,
            height,
        ),
        spec_char_size(FontMode::Row, width, height) == width * height,
{
}

/// When the height is not a multiple of 8, byte-column mode pads it up to the
/// next multiple of 8: the char size is `width * (height + (8 - height % 8))`.
pub proof fn lemma_char_size_padded(width: nat, height: nat)
    requires
        height % 8 != 0,
    ensures
        spec_char_size(FontMode::ByteColumn, width, height) == width * (height + (8 - height
            % 8)),
{
}

/// A single RGBA pixel: the canonical 4-channel 8-bit color value.
#[derive(Clone, Copy, Debug, PartialEq, Eq, Structural)]
pub struct Rgba {
    /// Red value
    pub r: u8,
    /// Green value
    pub g: u8,
    /// Blue value
    pub b: u8,
    /// Alpha value
    pub a: u8,
}

/// The fully transparent black pixel, used for virtual padding pixels.
pub open spec fn spec_rgba_zero() -> Rgba {
    Rgba { r: 0, g: 0, b: 0, a: 0 }
}

/// The color space tag reported by the image decoder, as plain data.
#[derive(Debug, Clone, Copy, PartialEq, Eq, Structural)]
pub enum ColorSpaceTag {
    /// Red, green, blue.
    Rgb,
    /// Red, green, blue, alpha.
    Rgba,
    /// YUV colorspace.
    Ycbcr,
    /// Grayscale.
    Luma,
    /// Grayscale with alpha.
    LumaA,
    /// YCCK colorspace.
    Ycck,
    /// Cyan, magenta, yellow, black.
    Cmyk,
    /// Blue, green, red.
    Bgr,
    /// Blue, green, red, alpha.
    Bgra,
    /// Alpha, red, green, blue.
    Argb,
    /// Hue, saturation, lightness.
    Hsl,
    /// Hue, saturation, value.
    Hsv,
    /// The colorspace is unknown.
    Unknown,
}

/// Enumeration of all supported color spaces.
#[derive(Debug, Clone, Copy, PartialEq, Eq, Structural)]
pub enum SupportedColorSpace {
    /// RGB color space; alpha will be set to `u8::MAX`.
    Rgb,
    /// RGBA color space; used as-is.
    Rgba,
    /// Grayscale: all color components get the grayscale value, alpha is
    /// `u8::MAX`.
    Luma,
    /// Grayscale with transparency: as `Luma` but uses the given alpha.
    LumaA,
    /// As RGB but blue and red are swapped; alpha is set to `u8::MAX`.
    Bgr,
    /// As RGBA but blue and red are swapped.
    Bgra,
}

/// Which of the decoder's color space tags the pipeline supports, and as
/// which supported color space.
pub open spec fn spec_supported(tag: ColorSpaceTag) -> Option<SupportedColorSpace> {
    match tag {
        ColorSpaceTag::Rgb => Some(SupportedColorSpace::Rgb),
        ColorSpaceTag::Rgba => Some(SupportedColorSpace::Rgba),
        ColorSpaceTag::Luma => Some(SupportedColorSpace::Luma),
        ColorSpaceTag::LumaA => Some(SupportedColorSpace::LumaA),
        ColorSpaceTag::Bgr => Some(SupportedColorSpace::Bgr),
        ColorSpaceTag::Bgra => Some(SupportedColorSpace::Bgra),
        _ => None,
    }
}

/// The number of color components (samples per pixel) of a color space.
pub open spec fn spec_num_components(cs: SupportedColorSpace) -> nat {
    match cs {
        SupportedColorSpace::Rgb => 3,
        SupportedColorSpace::Rgba => 4,
        SupportedColorSpace::Luma => 1,
        SupportedColorSpace::LumaA => 2,
        SupportedColorSpace::Bgr => 3,
        SupportedColorSpace::Bgra => 4,
    }
}

/// Whether a color space carries an alpha channel.
pub open spec fn spec_supports_alpha(cs: SupportedColorSpace) -> bool {
    match cs {
        SupportedColorSpace::Rgb => false,
        SupportedColorSpace::Rgba => true,
        SupportedColorSpace::Luma => false,
        SupportedColorSpace::LumaA => true,
        SupportedColorSpace::Bgr => false,
        SupportedColorSpace::Bgra => true,
    }
}

impl SupportedColorSpace {
    /// Create a new supported color space from a decoder color space tag.
    pub fn new(tag: ColorSpaceTag) -> (r: Option<SupportedColorSpace>)
        ensures
            r == spec_supported(tag),
    {
        match tag {
            ColorSpaceTag::Rgb => Some(SupportedColorSpace::Rgb),
            ColorSpaceTag::Rgba => Some(SupportedColorSpace::Rgba),
            ColorSpaceTag::Luma => Some(SupportedColorSpace::Luma),
            ColorSpaceTag::LumaA => Some(SupportedColorSpace::LumaA),
            ColorSpaceTag::Bgr => Some(SupportedColorSpace::Bgr),
            ColorSpaceTag::Bgra => Some(SupportedColorSpace::Bgra),
            _ => None,
        }
    }

    /// Get the number of components (values per pixel) of a color space.
    pub fn num_components(self) -> (r: usize)
        ensures
            r == spec_num_components(self),
    {
        match self {
            SupportedColorSpace::Rgb => 3,
            SupportedColorSpace::Rgba => 4,
            SupportedColorSpace::Luma => 1,
            SupportedColorSpace::LumaA => 2,
            SupportedColorSpace::Bgr => 3,
            SupportedColorSpace::Bgra => 4,
        }
    }

    /// Whether this color space has alpha.
    pub fn supports_alpha(self) -> (r: bool)
        ensures
            r == spec_supports_alpha(self),
    {
        match self {
            SupportedColorSpace::Rgb => false,
            SupportedColorSpace::Rgba => true,
            SupportedColorSpace::Luma => false,
            SupportedColorSpace::LumaA => true,
            SupportedColorSpace::Bgr => false,
            SupportedColorSpace::Bgra => true,
        }
    }
}

/// The canonical color of one pixel, given its (up to) 4 raw component bytes
/// and the active color space: the channel mapping of the color normalizer.
pub open spec fn spec_parse_rgba(b0: u8, b1: u8, b2: u8, b3: u8, cs: SupportedColorSpace) -> Rgba {
    match cs {
        SupportedColorSpace::Rgb => Rgba { r: b0, g: b1, b: b2, a: 255 },
        SupportedColorSpace::Rgba => Rgba { r: b0, g: b1, b: b2, a: b3 },
        SupportedColorSpace::Luma => Rgba { r: b0, g: b0, b: b0, a: 255 },
        SupportedColorSpace::LumaA => Rgba { r: b0, g: b0, b: b0, a: b1 },
        SupportedColorSpace::Bgr => Rgba { r: b2, g: b1, b: b0, a: 255 },
        SupportedColorSpace::Bgra => Rgba { r: b2, g: b1, b: b0, a: b3 },
    }
}

/// Parse a single rgba value from 4 bytes and a color space.
pub fn parse_rgba(bytes: [u8; 4], color_space: SupportedColorSpace) -> (r: Rgba)
    ensures
        r == spec_parse_rgba(bytes[0], bytes[1], bytes[2], bytes[3], color_space),
{
    match color_space {
        SupportedColorSpace::Rgb => Rgba { r: bytes[0], g: bytes[1], b: bytes[2], a: 255 },
        SupportedColorSpace::Rgba => Rgba { r: bytes[0], g: bytes[1], b: bytes[2], a: bytes[3] },
        SupportedColorSpace::Luma => Rgba { r: bytes[0], g: bytes[0], b: bytes[0], a: 255 },
        SupportedColorSpace::LumaA => Rgba { r: bytes[0], g: bytes[0], b: bytes[0], a: bytes[1] },
        SupportedColorSpace::Bgr => Rgba { r: bytes[2], g: bytes[1], b: bytes[0], a: 255 },
        SupportedColorSpace::Bgra => Rgba { r: bytes[2], g: bytes[1], b: bytes[0], a: bytes[3] },
    }
}

/// Storage of decoded raw samples at the supported sample precisions.
///
/// Precision is reduced to 8 bits before channel mapping: a 16-bit sample
/// becomes its value divided by 256.
#[derive(Debug, Clone)]
pub enum Samples {
    /// 8 bit color depth.
    U8(Vec<u8>),
    /// 16 bit color depth.
    U16(Vec<u16>),
}

impl Samples {
    /// The raw samples, each already reduced to 8 bits.
    pub open spec fn byte_seq(&self) -> Seq<u8> {
        match self {
            Samples::U8(v) => v@,
            Samples::U16(v) => v@.map_values(|x: u16| (x / 256) as u8),
        }
    }

    /// A sample buffer lives in memory, so its length is bounded by the
    /// machine word.
    pub proof fn lemma_byte_seq_len_bounded(&self)
        ensures
            self.byte_seq().len() <= usize::MAX,
    {
        broadcast use vstd::std_specs::vec::axiom_spec_len;

        match self {
            Samples::U8(v) => {
                assert(vstd::std_specs::vec::spec_vec_len(v) == v@.len());
            },
            Samples::U16(v) => {
                assert(vstd::std_specs::vec::spec_vec_len(v) == v@.len());
                assert(self.byte_seq().len() == v@.len());
            },
        }
    }

    /// The number of raw samples in the buffer.
    pub fn len(&self) -> (r: usize)
        ensures
            r == self.byte_seq().len(),
    {
        match self {
            Samples::U8(v) => v.len(),
            Samples::U16(v) => v.len(),
        }
    }

    /// The `i`-th sample, reduced to 8 bits.
    pub fn component_byte(&self, i: usize) -> (r: u8)
        requires
            i < self.byte_seq().len(),
        ensures
            r == self.byte_seq()[i as int],
    {
        match self {
            Samples::U8(v) => v[i],
            Samples::U16(v) => (v[i] / 256) as u8,
        }
    }
}

/// One decoded image as the decoder collaborator reports it: its geometry,
/// its color space tag, and its flat sample buffer.
#[derive(Debug, Clone)]
pub struct RawImage {
    /// The image's width in pixels.
    pub width: usize,
    /// The image's height in pixels.
    pub height: usize,
    /// The color space the decoder reported.
    pub color_space: ColorSpaceTag,
    /// The flat buffer of color component samples.
    pub samples: Samples,
}

/// Whether enough samples are available at `offset` to read one pixel of
/// `nc` components out of a buffer of `len` samples.
pub open spec fn spec_fill_ok(len: nat, offset: nat, nc: nat) -> bool {
    nc == 0 || offset + (if nc < 4 {
        nc
    } else {
        4
    }) <= len
}

/// The `j`-th of the four component bytes handed to the channel mapping:
/// read from the buffer where the component exists, zero otherwise.
pub open spec fn spec_filled_byte(bytes: Seq<u8>, offset: nat, nc: nat, j: nat) -> u8 {
    if j < nc && j < 4 && offset + j < bytes.len() {
        bytes[(offset + j) as int]
    } else {
        0
    }
}

/// Read up to four component bytes for one pixel from the sample buffer,
/// starting at `offset`; positions past the component count stay zero.
/// Returns `None` when the buffer ends before `num_components` (at most 4)
/// samples could be pulled.
pub fn fill_bytes(src: &Samples, offset: usize, num_components: usize) -> (r: Option<[u8; 4]>)
    ensures
        r is Some <==> spec_fill_ok(src.byte_seq().len(), offset as nat, num_components as nat),
        r matches Some(b) ==> forall|j: int|
            0 <= j < 4 ==> b[j] == spec_filled_byte(
                src.byte_seq(),
                offset as nat,
                num_components as nat,
                j as nat,
            ),
{
    let c: usize = if num_components < 4 {
        num_components
    } else {
        4
    };
    if c > 0 {
        let len = src.len();
        if c > len || offset > len - c {
            return None;
        }
    }
    let b0: u8 = if 0 < c {
        src.component_byte(offset)
    } else {
        0
    };
    let b1: u8 = if 1 < c {
        src.component_byte(offset + 1)
    } else {
        0
    };
    let b2: u8 = if 2 < c {
        src.component_byte(offset + 2)
    } else {
        0
    };
    let b3: u8 = if 3 < c {
        src.component_byte(offset + 3)
    } else {
        0
    };
    Some([b0, b1, b2, b3])
}

/// The logical-to-physical index mapping of the pixel scanner.
///
/// `Row` order walks the image directly. `ByteColumn` order partitions the
/// logical indices into blocks of `width * 8`, and within one block reads 8
/// stacked pixels of one column before advancing to the next column.
pub open spec fn spec_phys_index(font_mode: FontMode, width: nat, n: nat) -> nat {
    match font_mode {
        FontMode::Row => n,
        FontMode::ByteColumn => if width == 0 {
            n
        } else {
            let block_px = width * 8;
            let block_start = (n / block_px) * block_px;
            let column = ((n - block_start) / 8) as nat;
            let row = ((n - block_start) % 8) as nat;
            (block_start + column + row * width) as nat
        },
    }
}

/// In byte-column order every computed quantity stays in range: the physical
/// index of an in-range logical index is below `width * padded_height`.
proof fn lemma_byte_column_decomposition(width: int, padded: int, n: int)
    requires
        width >= 1,
        padded >= 8,
        padded % 8 == 0,
        0 <= n < width * padded,
    ensures
        ({
            let block_px = width * 8;
            let block_start = (n / block_px) * block_px;
            &&& block_px >= 8
            &&& 0 <= block_start <= n
            &&& n - block_start < block_px
            &&& (n - block_start) / 8 < width
            &&& 0 <= (n - block_start) % 8 <= 7
            &&& block_start + (n - block_start) / 8 + ((n - block_start) % 8) * width < width
                * padded
            &&& width * 8 <= width * padded
        }),
{
    let block_px = width * 8;
    assert(width * 8 >= 8 && width * 8 <= width * padded) by (nonlinear_arith)
        requires
            width >= 1,
            padded >= 8,
    ;
    assert(block_px >= 8);
    let q = n / block_px;
    let rem = n % block_px;
    vstd::arithmetic::div_mod::lemma_fundamental_div_mod(n, block_px);
    vstd::arithmetic::div_mod::lemma_mod_bound(n, block_px);
    assert(n == block_px * q + rem);
    let block_start = q * block_px;
    vstd::arithmetic::mul::lemma_mul_is_commutative(q, block_px);
    assert(block_start == n - rem);
    assert(0 <= block_start <= n);
    assert(n - block_start == rem);
    vstd::arithmetic::div_mod::lemma_multiply_divide_lt(rem, 8, width);
    vstd::arithmetic::div_mod::lemma_fundamental_div_mod(rem, 8);
    vstd::arithmetic::div_mod::lemma_mod_bound(rem, 8);
    let column = rem / 8;
    let row = rem % 8;
    let k = padded / 8;
    vstd::arithmetic::div_mod::lemma_fundamental_div_mod(padded, 8);
    assert(padded == 8 * k);
    assert(k >= 1);
    assert(width * padded == block_px * k) by (nonlinear_arith)
        requires
            padded == 8 * k,
            block_px == width * 8,
    ;
    assert(q < k) by (nonlinear_arith)
        requires
            block_px * q + rem == n,
            rem >= 0,
            n < block_px * k,
            block_px > 0,
    ;
    assert(block_start <= block_px * k - block_px) by (nonlinear_arith)
        requires
            block_start == q * block_px,
            q <= k - 1,
            block_px > 0,
    ;
    assert(row * width <= 7 * width) by (nonlinear_arith)
        requires
            0 <= row <= 7,
            width >= 1,
    ;
    assert(block_start + column + row * width < width * padded);
}

/// The canonical color of the pixel at logical index `n`, or `None` when the
/// sample buffer ends before that pixel's components.
///
/// A logical index whose physical index falls into the virtual padding region
/// (at or past `width * height`) yields the fully transparent black pixel and
/// never touches the buffer.
pub open spec fn spec_pixel_at(
    bytes: Seq<u8>,
    width: nat,
    height: nat,
    cs: SupportedColorSpace,
    font_mode: FontMode,
    n: nat,
) -> Option<Rgba> {
    let p = spec_phys_index(font_mode, width, n);
    if p >= width * height {
        Some(spec_rgba_zero())
    } else {
        let c = spec_num_components(cs);
        if spec_fill_ok(bytes.len(), p * c, c) {
            Some(
                spec_parse_rgba(
                    spec_filled_byte(bytes, p * c, c, 0),
                    spec_filled_byte(bytes, p * c, c, 1),
                    spec_filled_byte(bytes, p * c, c, 2),
                    spec_filled_byte(bytes, p * c, c, 3),
                    cs,
                ),
            )
        } else {
            None
        }
    }
}

/// The on/off bit of the pixel at logical index `n`, or `None` when the
/// sample buffer ends before that pixel.
pub open spec fn spec_bit_at(
    bytes: Seq<u8>,
    width: nat,
    height: nat,
    cs: SupportedColorSpace,
    font_mode: FontMode,
    n: nat,
) -> Option<bool> {
    match spec_pixel_at(bytes, width, height, cs, font_mode, n) {
        Some(px) => Some(spec_threshold(px, spec_supports_alpha(cs))),
        None => None,
    }
}

/// The bit sequence produced from logical index `n` on: it ends at the char
/// size, or early at the first pixel whose samples are missing.
pub open spec fn spec_bits_from(
    bytes: Seq<u8>,
    width: nat,
    height: nat,
    cs: SupportedColorSpace,
    font_mode: FontMode,
    n: nat,
) -> Seq<bool>
    decreases spec_char_size(font_mode, width, height) - n,
{
    if n >= spec_char_size(font_mode, width, height) {
        Seq::empty()
    } else {
        match spec_bit_at(bytes, width, height, cs, font_mode, n) {
            Some(b) => seq![b] + spec_bits_from(bytes, width, height, cs, font_mode, n + 1),
            None => Seq::empty(),
        }
    }
}

/// The whole bit sequence of one glyph, in logical scan order.
pub open spec fn spec_bits(
    bytes: Seq<u8>,
    width: nat,
    height: nat,
    cs: SupportedColorSpace,
    font_mode: FontMode,
) -> Seq<bool> {
    spec_bits_from(bytes, width, height, cs, font_mode, 0)
}

/// Every pixel of a complete image exists: with a sample buffer of exactly
/// `width * height * components` samples, no in-range logical index from `n`
/// on ends the sequence early, so exactly `char_size - n` bits remain.
proof fn lemma_bits_from_full_len(
    bytes: Seq<u8>,
    width: nat,
    height: nat,
    cs: SupportedColorSpace,
    font_mode: FontMode,
    n: nat,
)
    requires
        bytes.len() == width * height * spec_num_components(cs),
        n <= spec_char_size(font_mode, width, height),
    ensures
        spec_bits_from(bytes, width, height, cs, font_mode, n).len() == spec_char_size(
            font_mode,
            width,
            height,
        ) - n,
    decreases spec_char_size(font_mode, width, height) - n,
{
    let size = spec_char_size(font_mode, width, height);
    if n < size {
        let p = spec_phys_index(font_mode, width, n);
        let c = spec_num_components(cs);
        if p < width * height {
            assert((p + 1) * c <= (width * height) * c) by (nonlinear_arith)
                requires
                    p + 1 <= width * height,
                    c >= 0,
            ;
            assert(p * c + c == (p + 1) * c) by (nonlinear_arith);
            assert((width * height) * c == width * height * c) by (nonlinear_arith);
            assert(spec_fill_ok(bytes.len(), p * c, c));
        }
        assert(spec_bit_at(bytes, width, height, cs, font_mode, n) is Some);
        lemma_bits_from_full_len(bytes, width, height, cs, font_mode, n + 1);
    }
}

/// A complete image fills the whole glyph: when the sample buffer holds
/// exactly `width * height * components` samples, the bit sequence has
/// exactly char-size bits, so packing emits exactly `char_size / 8` bytes.
pub proof fn lemma_full_buffer_bit_count(
    bytes: Seq<u8>,
    width: nat,
    height: nat,
    cs: SupportedColorSpace,
    font_mode: FontMode,
)
    requires
        bytes.len() == width * height * spec_num_components(cs),
    ensures
        spec_bits(bytes, width, height, cs, font_mode).len() == spec_char_size(
            font_mode,
            width,
            height,
        ),
{
    lemma_bits_from_full_len(bytes, width, height, cs, font_mode, 0);
}

/// For row order the mapping is the identity: the physical index equals the
/// logical index, for every in-range logical index.
pub proof fn lemma_row_physical_identity(width: nat, height: nat, n: nat)
    requires
        n < spec_char_size(FontMode::Row, width, height),
    ensures
        spec_phys_index(FontMode::Row, width, n) == n,
{
}

/// For byte-column order, any in-range logical index whose physical index
/// falls at or past `width * height` yields the fully transparent black
/// virtual pixel, whatever the sample buffer holds.
pub proof fn lemma_byte_column_padding_virtual(
    bytes: Seq<u8>,
    width: nat,
    height: nat,
    cs: SupportedColorSpace,
    n: nat,
)
    requires
        n < spec_char_size(FontMode::ByteColumn, width, height),
        spec_phys_index(FontMode::ByteColumn, width, n) >= width * height,
    ensures
        spec_pixel_at(bytes, width, height, cs, FontMode::ByteColumn, n) == Some(spec_rgba_zero()),
{
}

/// An iterator over the RGBA pixels of one decoded image, in logical scan
/// order. Construct it, then call [`RgbaColorIter::next`] until it yields
/// `None`.
#[derive(Debug, Clone)]
pub struct RgbaColorIter {
    /// The inner storage of decoded values.
    pub inner: Samples,
    /// The used color space.
    pub color_space: SupportedColorSpace,
    /// The mode in which the font should be generated.
    pub font_mode: FontMode,
    /// The image's width.
    pub width: usize,
    /// The image's height.
    pub height: usize,
    /// The size of the character, calculated from width and height
    /// respecting alignment.
    pub char_size: usize,
    /// The current iteration index.
    pub idx: usize,
}

impl RgbaColorIter {
    /// The iterator's well-formedness: the cached char size agrees with the
    /// geometry, and the position never passes it.
    pub open spec fn wf(&self) -> bool {
        &&& self.char_size == spec_char_size(
            self.font_mode,
            self.width as nat,
            self.height as nat,
        )
        &&& self.idx <= self.char_size
    }

    /// Everything but the iteration index is frozen after construction.
    pub open spec fn same_image(&self, other: &RgbaColorIter) -> bool {
        &&& self.inner == other.inner
        &&& self.color_space == other.color_space
        &&& self.font_mode == other.font_mode
        &&& self.width == other.width
        &&& self.height == other.height
        &&& self.char_size == other.char_size
    }

    /// Create a new iterator over the rgba pixels of one decoded image.
    ///
    /// Rejects the image when its color space tag is not one of the six
    /// supported tags; this check happens once, before any pixel processing.
    pub fn from_image(img: RawImage, font_mode: FontMode) -> (r: Result<
        RgbaColorIter,
        crate::GenerationError,
    >)
        requires
            spec_padded_height(font_mode, img.height as nat) <= usize::MAX,
            spec_char_size(font_mode, img.width as nat, img.height as nat) <= usize::MAX,
        ensures
            match r {
                Ok(it) => {
                    &&& spec_supported(img.color_space) == Some(it.color_space)
                    &&& it.wf()
                    &&& it.idx == 0
                    &&& it.inner == img.samples
                    &&& it.font_mode == font_mode
                    &&& it.width == img.width
                    &&& it.height == img.height
                },
                Err(e) => {
                    &&& spec_supported(img.color_space) is None
                    &&& e matches crate::GenerationError::UnsupportedColorspace(t) && t
                        == img.color_space
                },
            },
    {
        let color_space = match SupportedColorSpace::new(img.color_space) {
            Some(cs) => cs,
            None => {
                return Err(crate::GenerationError::UnsupportedColorspace(img.color_space));
            },
        };
        let char_size = calc_char_size(font_mode, img.width, img.height);
        Ok(
            RgbaColorIter {
                inner: img.samples,
                color_space,
                font_mode,
                width: img.width,
                height: img.height,
                char_size,
                idx: 0,
            },
        )
    }

    /// Create a new iterator over rgba pixels from png data.
    pub fn new(data: &[u8], font_mode: FontMode) -> (r: Result<
        RgbaColorIter,
        crate::GenerationError,
    >)
        ensures
            match r {
                Ok(it) => {
                    &&& png_image_of(data@) matches Some(img) && it.inner == img.samples
                        && it.width == img.width && it.height == img.height && spec_supported(
                        img.color_space,
                    ) == Some(it.color_space)
                    &&& it.wf()
                    &&& it.idx == 0
                    &&& it.font_mode == font_mode
                },
                Err(e) => match e {
                    crate::GenerationError::PngDecodingError(_) => png_image_of(data@) is None,
                    crate::GenerationError::UnsupportedColorspace(t) => png_image_of(data@)
                        matches Some(img) && img.color_space == t && spec_supported(t) is None,
                    _ => false,
                },
            },
    {
        let img = match decode_png(data) {
            Ok(img) => img,
            Err(e) => {
                return Err(crate::GenerationError::PngDecodingError(e));
            },
        };
        proof {
            lemma_decoded_dims_fit(font_mode, img.width as nat, img.height as nat);
        }
        RgbaColorIter::from_image(img, font_mode)
    }

    /// Produce the next pixel of the scan, or `None` when the sequence has
    /// ended: at the char size, or early when the sample buffer ends.
    pub fn next(&mut self) -> (r: Option<Rgba>)
        requires
            old(self).wf(),
        ensures
            final(self).wf(),
            final(self).same_image(old(self)),
            old(self).idx >= old(self).char_size ==> r is None && final(self).idx == old(
                self,
            ).idx,
            old(self).idx < old(self).char_size ==> final(self).idx == old(self).idx + 1 && r
                == spec_pixel_at(
                old(self).inner.byte_seq(),
                old(self).width as nat,
                old(self).height as nat,
                old(self).color_space,
                old(self).font_mode,
                old(self).idx as nat,
            ),
    {
        if self.idx >= self.char_size {
            return None;
        }
        let n: usize = match self.font_mode {
            FontMode::Row => self.idx,
            FontMode::ByteColumn => {
                proof {
                    assert(self.width >= 1 && spec_padded_height(
                        FontMode::ByteColumn,
                        self.height as nat,
                    ) >= 8) by {
                        if self.width == 0 || spec_padded_height(
                            FontMode::ByteColumn,
                            self.height as nat,
                        ) == 0 {
                            assert(spec_char_size(
                                FontMode::ByteColumn,
                                self.width as nat,
                                self.height as nat,
                            ) == 0) by (nonlinear_arith)
                                requires
                                    spec_char_size(
                                        FontMode::ByteColumn,
                                        self.width as nat,
                                        self.height as nat,
                                    ) == (self.width as nat) * spec_padded_height(
                                        FontMode::ByteColumn,
                                        self.height as nat,
                                    ),
                                    self.width == 0 || spec_padded_height(
                                        FontMode::ByteColumn,
                                        self.height as nat,
                                    ) == 0,
                            ;
                        }
                    }
                    lemma_byte_column_decomposition(
                        self.width as int,
                        spec_padded_height(FontMode::ByteColumn, self.height as nat) as int,
                        self.idx as int,
                    );
                }
                let block_px: usize = self.width * 8;
                let block_idx: usize = self.idx / block_px;
                let block_start: usize = block_idx * block_px;
                let column: usize = (self.idx - block_start) / 8;
                let row: usize = (self.idx - block_start) % 8;
                block_start + column + row * self.width
            },
        };
        self.idx = self.idx + 1;
        proof {
            assert((self.width as nat) * (self.height as nat) <= spec_char_size(
                self.font_mode,
                self.width as nat,
                self.height as nat,
            )) by (nonlinear_arith)
                requires
                    spec_char_size(self.font_mode, self.width as nat, self.height as nat) == (
                    self.width as nat) * spec_padded_height(self.font_mode, self.height as nat),
                    spec_padded_height(self.font_mode, self.height as nat) >= self.height as nat,
            ;
        }
        if n >= self.width * self.height {
            return Some(Rgba { r: 0, g: 0, b: 0, a: 0 });
        }
        let c = self.color_space.num_components();
        match n.checked_mul(c) {
            Some(offset) => {
                match fill_bytes(&self.inner, offset, c) {
                    Some(bytes) => Some(parse_rgba(bytes, self.color_space)),
                    None => None,
                }
            },
            None => {
                proof {
                    self.inner.lemma_byte_seq_len_bounded();
                    assert((n as nat) * (c as nat) + c > self.inner.byte_seq().len());
                }
                None
            },
        }
    }
}

/// An iterator yielding the monochromatic on/off bits of one decoded image,
/// in logical scan order.
#[derive(Debug, Clone)]
pub struct MonochromaticColorIter(pub RgbaColorIter);

impl MonochromaticColorIter {
    /// Create a new iterator yielding monochromatic pixel values from one
    /// decoded image.
    pub fn from_image(img: RawImage, font_mode: FontMode) -> (r: Result<
        MonochromaticColorIter,
        crate::GenerationError,
    >)
        requires
            spec_padded_height(font_mode, img.height as nat) <= usize::MAX,
            spec_char_size(font_mode, img.width as nat, img.height as nat) <= usize::MAX,
        ensures
            match r {
                Ok(it) => {
                    &&& spec_supported(img.color_space) == Some(it.0.color_space)
                    &&& it.0.wf()
                    &&& it.0.idx == 0
                    &&& it.0.inner == img.samples
                    &&& it.0.font_mode == font_mode
                    &&& it.0.width == img.width
                    &&& it.0.height == img.height
                },
                Err(e) => {
                    &&& spec_supported(img.color_space) is None
                    &&& e matches crate::GenerationError::UnsupportedColorspace(t) && t
                        == img.color_space
                },
            },
    {
        match RgbaColorIter::from_image(img, font_mode) {
            Ok(inner) => Ok(MonochromaticColorIter(inner)),
            Err(e) => Err(e),
        }
    }

    /// Create a new iterator yielding monochromatic pixel values from the
    /// given png data.
    ///
    /// The font mode describes the order in which the pixels are walked.
    pub fn new(data: &[u8], font_mode: FontMode) -> (r: Result<
        MonochromaticColorIter,
        crate::GenerationError,
    >)
        ensures
            match r {
                Ok(it) => {
                    &&& png_image_of(data@) matches Some(img) && it.0.inner == img.samples
                        && it.0.width == img.width && it.0.height == img.height && spec_supported(
                        img.color_space,
                    ) == Some(it.0.color_space)
                    &&& it.0.wf()
                    &&& it.0.idx == 0
                    &&& it.0.font_mode == font_mode
                },
                Err(e) => match e {
                    crate::GenerationError::PngDecodingError(_) => png_image_of(data@) is None,
                    crate::GenerationError::UnsupportedColorspace(t) => png_image_of(data@)
                        matches Some(img) && img.color_space == t && spec_supported(t) is None,
                    _ => false,
                },
            },
    {
        match RgbaColorIter::new(data, font_mode) {
            Ok(inner) => Ok(MonochromaticColorIter(inner)),
            Err(e) => Err(e),
        }
    }

    /// Produce the next on/off bit of the scan, or `None` when the sequence
    /// has ended.
    pub fn next(&mut self) -> (r: Option<bool>)
        requires
            old(self).0.wf(),
        ensures
            final(self).0.wf(),
            final(self).0.same_image(&old(self).0),
            old(self).0.idx >= old(self).0.char_size ==> r is None && final(self).0.idx == old(
                self,
            ).0.idx,
            old(self).0.idx < old(self).0.char_size ==> final(self).0.idx == old(self).0.idx + 1
                && r
                == spec_bit_at(
                old(self).0.inner.byte_seq(),
                old(self).0.width as nat,
                old(self).0.height as nat,
                old(self).0.color_space,
                old(self).0.font_mode,
                old(self).0.idx as nat,
            ),
    {
        let rgba = match self.0.next() {
            Some(rgba) => rgba,
            None => {
                return None;
            },
        };
        Some(threshold(rgba, self.0.color_space.supports_alpha()))
    }
}

/// The threshold rule: whether one canonical color counts as an "on" bit.
///
/// With an alpha channel, a pixel is on exactly when it is mostly opaque.
/// Without one, the image is treated as ink on white paper: a pixel is on
/// exactly when any channel is darker than the midpoint.
pub open spec fn spec_threshold(rgba: Rgba, has_alpha: bool) -> bool {
    if has_alpha {
        rgba.a > 127
    } else {
        rgba.a > 127 && (rgba.r < 128 || rgba.g < 128 || rgba.b < 128)
    }
}

/// Reduce one canonical color plus a "color space has alpha" flag to one
/// on/off boolean, the packed bit.
pub fn threshold(rgba: Rgba, has_alpha: bool) -> (on: bool)
    ensures
        on == spec_threshold(rgba, has_alpha),
{
    if has_alpha {
        rgba.a > 127
    } else {
        rgba.a > 127 && (rgba.r < 128 || rgba.g < 128 || rgba.b < 128)
    }
}

} // verus!
