//! Error type definition for this crate.

use vstd::prelude::*;

use crate::imagedecode::ColorSpaceTag;

verus! {

/// The error type of the PNG decoder, carried through opaquely.
#[verifier::external_type_specification]
#[verifier::external_body]
pub struct ExPngDecodeErrors(zune_png::error::PngDecodeErrors);

/// The error type of the standard library's I/O, carried through opaquely.
#[verifier::external_type_specification]
#[verifier::external_body]
pub struct ExIoError(std::io::Error);

/// An error that can occur during font generation.
#[derive(Debug)]
pub enum GenerationError {
    /// The given image has an unsupported colorspace; carries the offending
    /// tag.
    UnsupportedColorspace(ColorSpaceTag),
    /// An error occurred while decoding a given png.
    PngDecodingError(zune_png::error::PngDecodeErrors),
    /// An error that occurs when writing to the output sink.
    OutputWriterError(std::io::Error),
    /// Another generic io error.
    IoError(std::io::Error),
}

impl From<zune_png::error::PngDecodeErrors> for GenerationError {
    fn from(e: zune_png::error::PngDecodeErrors) -> (r: GenerationError) {
        GenerationError::PngDecodingError(e)
    }
}

impl vstd::std_specs::convert::FromSpecImpl<zune_png::error::PngDecodeErrors> for GenerationError {
    open spec fn obeys_from_spec() -> bool {
        true
    }

    open spec fn from_spec(e: zune_png::error::PngDecodeErrors) -> GenerationError {
        GenerationError::PngDecodingError(e)
    }
}

impl From<std::io::Error> for GenerationError {
    fn from(e: std::io::Error) -> (r: GenerationError) {
        GenerationError::IoError(e)
    }
}

impl vstd::std_specs::convert::FromSpecImpl<std::io::Error> for GenerationError {
    open spec fn obeys_from_spec() -> bool {
        true
    }

    open spec fn from_spec(e: std::io::Error) -> GenerationError {
        GenerationError::IoError(e)
    }
}

} // verus!
