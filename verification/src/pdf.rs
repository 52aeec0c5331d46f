//! Confirmatory check and description of the parser for PDF files.

use crate::format::Format;
use crate::format::pdf_format;
use crate::parser::ParserFeature;
use crate::parser::ParserMetadata;
use crate::parser::ParserMetadataView;
use vstd::prelude::*;

verus! {

/// The parser for PDF files.
#[derive(Debug, Clone, Copy)]
pub struct PdfParser;

impl PdfParser {
    pub fn new() -> (r: PdfParser) {
        PdfParser
    }

    pub fn format(&self) -> (r: Format)
        ensures
            r.deep_view() == pdf_format(),
    {
        Format::pdf()
    }

    /// Whether the content begins with `%PDF-`.
    pub open spec fn spec_can_parse(data: Seq<u8>) -> bool {
        data.len() >= 5 && data[0] == 0x25 && data[1] == 0x50 && data[2] == 0x44 && data[3]
            == 0x46 && data[4] == 0x2D
    }

    pub fn can_parse(&self, data: &[u8]) -> (r: bool)
        ensures
            r == Self::spec_can_parse(data@),
    {
        if data.len() < 5 {
            return false;
        }
        data[0] == 0x25 && data[1] == 0x50 && data[2] == 0x44 && data[3] == 0x46 && data[4]
            == 0x2D
    }

    pub fn metadata(&self) -> (r: ParserMetadata)
        ensures
            r.deep_view() == (ParserMetadataView {
                name: "PDF Parser"@,
                version: crate::VERSION@,
                features: seq![ParserFeature::MetadataExtraction],
                requires_sandbox: false,
            }),
    {
        let mut features: Vec<ParserFeature> = Vec::new();
        features.push(ParserFeature::MetadataExtraction);
        ParserMetadata::of("PDF Parser", features)
    }
}

} // verus!
