//! Confirmatory checks and descriptions of the image parsers.

use crate::format::Format;
use crate::format::jpeg_format;
use crate::format::jpeg_magic;
use crate::format::png_format;
use crate::format::png_magic;
use crate::format::spec_holds_at;
use crate::format::tiff_be_magic;
use crate::format::tiff_format;
use crate::format::tiff_le_magic;
use crate::parser::ParserFeature;
use crate::parser::ParserMetadata;
use crate::parser::ParserMetadataView;
use vstd::prelude::*;

verus! {

/// The features of an image parser.
pub open spec fn image_features() -> Seq<ParserFeature> {
    seq![ParserFeature::ImageExtraction, ParserFeature::MetadataExtraction]
}

/// The description of an image parser of the given name.
pub open spec fn image_parser_metadata(name: Seq<char>) -> ParserMetadataView {
    ParserMetadataView {
        name,
        version: crate::VERSION@,
        features: image_features(),
        requires_sandbox: false,
    }
}

fn describe(name: &str) -> (r: ParserMetadata)
    ensures
        r.deep_view() == image_parser_metadata(name@),
{
    let mut features: Vec<ParserFeature> = Vec::new();
    features.push(ParserFeature::ImageExtraction);
    features.push(ParserFeature::MetadataExtraction);
    assert(features@ =~= image_features());
    ParserMetadata::of(name, features)
}

/// The parser for JPEG images.
#[derive(Debug, Clone, Copy)]
pub struct JpegParser;

impl JpegParser {
    pub fn new() -> (r: JpegParser) {
        JpegParser
    }

    pub fn format(&self) -> (r: Format)
        ensures
            r.deep_view() == jpeg_format(),
    {
        Format::jpeg()
    }

    /// Whether `data` begins with the JPEG signature `FF D8 FF`.
    pub fn can_parse(&self, data: &[u8]) -> (r: bool)
        ensures
            r == spec_holds_at(data@, 0, jpeg_magic()),
    {
        if data.len() < 3 {
            return false;
        }
        let r = data[0] == 0xFF && data[1] == 0xD8 && data[2] == 0xFF;
        assert(r == (data@.subrange(0, 3) =~= jpeg_magic()));
        r
    }

    pub fn metadata(&self) -> (r: ParserMetadata)
        ensures
            r.deep_view() == image_parser_metadata("JPEG Parser"@),
    {
        describe("JPEG Parser")
    }
}

/// The parser for PNG images.
#[derive(Debug, Clone, Copy)]
pub struct PngParser;

impl PngParser {
    pub fn new() -> (r: PngParser) {
        PngParser
    }

    pub fn format(&self) -> (r: Format)
        ensures
            r.deep_view() == png_format(),
    {
        Format::png()
    }

    /// Whether `data` begins with the eight bytes of the PNG signature.
    pub fn can_parse(&self, data: &[u8]) -> (r: bool)
        ensures
            r == spec_holds_at(data@, 0, png_magic()),
    {
        if data.len() < 8 {
            return false;
        }
        let r = data[0] == 0x89 && data[1] == 0x50 && data[2] == 0x4E && data[3] == 0x47
            && data[4] == 0x0D && data[5] == 0x0A && data[6] == 0x1A && data[7] == 0x0A;
        assert(r == (data@.subrange(0, 8) =~= png_magic()));
        r
    }

    pub fn metadata(&self) -> (r: ParserMetadata)
        ensures
            r.deep_view() == image_parser_metadata("PNG Parser"@),
    {
        describe("PNG Parser")
    }
}

/// The parser for TIFF images.
#[derive(Debug, Clone, Copy)]
pub struct TiffParser;

impl TiffParser {
    pub fn new() -> (r: TiffParser) {
        TiffParser
    }

    pub fn format(&self) -> (r: Format)
        ensures
            r.deep_view() == tiff_format(),
    {
        Format::tiff()
    }

    /// Whether `data` begins with the TIFF signature of either byte order.
    pub fn can_parse(&self, data: &[u8]) -> (r: bool)
        ensures
            r == (spec_holds_at(data@, 0, tiff_le_magic()) || spec_holds_at(
                data@,
                0,
                tiff_be_magic(),
            )),
    {
        if data.len() < 4 {
            return false;
        }
        let little = data[0] == 0x49 && data[1] == 0x49 && data[2] == 0x2A && data[3] == 0x00;
        let big = data[0] == 0x4D && data[1] == 0x4D && data[2] == 0x00 && data[3] == 0x2A;
        assert(little == (data@.subrange(0, 4) =~= tiff_le_magic()));
        assert(big == (data@.subrange(0, 4) =~= tiff_be_magic()));
        little || big
    }

    pub fn metadata(&self) -> (r: ParserMetadata)
        ensures
            r.deep_view() == image_parser_metadata("TIFF Parser"@),
    {
        describe("TIFF Parser")
    }
}

} // verus!
