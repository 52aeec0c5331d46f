//! Confirmatory checks and descriptions of the parsers for legacy binary Office files.

use crate::format::cfb_magic;
use crate::format::Format;
use crate::format::format_of;
use crate::format::FormatFamily;
use crate::format::FormatView;
use crate::format::spec_holds_at;
use crate::parser::ParserFeature;
use crate::parser::ParserMetadata;
use crate::parser::ParserMetadataView;
use crate::text::ascii_chars;
use crate::text::ascii_string;
use crate::text::is_ascii_bytes;
use vstd::prelude::*;

verus! {

/// Whether `data` begins with the signature of an OLE2 compound file.
pub fn is_ole2(data: &[u8]) -> (r: bool)
    ensures
        r == spec_holds_at(data@, 0, cfb_magic()),
{
    if data.len() < 8 {
        return false;
    }
    let r = data[0] == 0xD0 && data[1] == 0xCF && data[2] == 0x11 && data[3] == 0xE0 && data[4]
        == 0xA1 && data[5] == 0xB1 && data[6] == 0x1A && data[7] == 0xE1;
    assert(r == (data@.subrange(0, 8) =~= cfb_magic()));
    r
}

/// The features of a legacy parser.
pub open spec fn legacy_features() -> Seq<ParserFeature> {
    seq![ParserFeature::TextExtraction, ParserFeature::MetadataExtraction]
}

/// The description of a legacy parser of the given name.
pub open spec fn legacy_parser_metadata(name: Seq<char>) -> ParserMetadataView {
    ParserMetadataView {
        name,
        version: crate::VERSION@,
        features: legacy_features(),
        requires_sandbox: false,
    }
}

/// The description of a parser that extracts text and metadata.
pub fn describe_text_parser(name: &str) -> (r: ParserMetadata)
    ensures
        r.deep_view() == legacy_parser_metadata(name@),
{
    let mut features: Vec<ParserFeature> = Vec::new();
    features.push(ParserFeature::TextExtraction);
    features.push(ParserFeature::MetadataExtraction);
    assert(features@ =~= legacy_features());
    ParserMetadata::of(name, features)
}

pub open spec fn doc_format() -> FormatView {
    format_of("application/msword", "doc", FormatFamily::Office, "Microsoft Word 97-2003 (DOC)", true)
}

pub open spec fn xls_format() -> FormatView {
    format_of(
        "application/vnd.ms-excel",
        "xls",
        FormatFamily::Office,
        "Microsoft Excel 97-2003 (XLS)",
        true,
    )
}

pub open spec fn ppt_format() -> FormatView {
    format_of(
        "application/vnd.ms-powerpoint",
        "ppt",
        FormatFamily::Office,
        "Microsoft PowerPoint 97-2003 (PPT)",
        true,
    )
}

/// The parser for legacy Word documents.
#[derive(Debug, Clone, Copy)]
pub struct DocParser;

impl DocParser {
    pub fn new() -> (r: DocParser) {
        DocParser
    }

    pub fn is_ole2_file(data: &[u8]) -> (r: bool)
        ensures
            r == spec_holds_at(data@, 0, cfb_magic()),
    {
        is_ole2(data)
    }

    pub fn can_parse(&self, data: &[u8]) -> (r: bool)
        ensures
            r == spec_holds_at(data@, 0, cfb_magic()),
    {
        is_ole2(data)
    }

    pub fn format(&self) -> (r: Format)
        ensures
            r.deep_view() == doc_format(),
    {
        Format::make(
            "application/msword",
            "doc",
            FormatFamily::Office,
            "Microsoft Word 97-2003 (DOC)",
            true,
        )
    }
}

/// The parser for legacy Excel workbooks.
#[derive(Debug, Clone, Copy)]
pub struct XlsParser;

impl XlsParser {
    pub fn new() -> (r: XlsParser) {
        XlsParser
    }

    pub fn is_ole2_file(data: &[u8]) -> (r: bool)
        ensures
            r == spec_holds_at(data@, 0, cfb_magic()),
    {
        is_ole2(data)
    }

    pub fn can_parse(&self, data: &[u8]) -> (r: bool)
        ensures
            r == spec_holds_at(data@, 0, cfb_magic()),
    {
        is_ole2(data)
    }

    pub fn format(&self) -> (r: Format)
        ensures
            r.deep_view() == xls_format(),
    {
        Format::make(
            "application/vnd.ms-excel",
            "xls",
            FormatFamily::Office,
            "Microsoft Excel 97-2003 (XLS)",
            true,
        )
    }
}

/// The parser for legacy PowerPoint presentations.
#[derive(Debug, Clone, Copy)]
pub struct PptParser;

impl PptParser {
    pub fn new() -> (r: PptParser) {
        PptParser
    }

    pub fn is_ole2_file(data: &[u8]) -> (r: bool)
        ensures
            r == spec_holds_at(data@, 0, cfb_magic()),
    {
        is_ole2(data)
    }

    pub fn can_parse(&self, data: &[u8]) -> (r: bool)
        ensures
            r == spec_holds_at(data@, 0, cfb_magic()),
    {
        is_ole2(data)
    }

    pub fn format(&self) -> (r: Format)
        ensures
            r.deep_view() == ppt_format(),
    {
        Format::make(
            "application/vnd.ms-powerpoint",
            "ppt",
            FormatFamily::Office,
            "Microsoft PowerPoint 97-2003 (PPT)",
            true,
        )
    }
}

/// Whether a byte is kept as text: printable ASCII, a line feed, a carriage return or a tab.
pub open spec fn is_kept(b: u8) -> bool {
    (32 <= b < 127) || b == 0x0A || b == 0x0D || b == 0x09
}

/// The text gathered from the bytes from index `from` on, with `text` gathered and the run
/// `run` of kept bytes open: a run of at least four kept bytes joins the text, with a space
/// behind it where a byte that is not kept ends it; a shorter run is dropped.
pub open spec fn scan_from(data: Seq<u8>, from: int, text: Seq<u8>, run: Seq<u8>) -> Seq<u8>
    decreases data.len() - from,
{
    if from < 0 || from >= data.len() {
        if run.len() >= 4 {
            text + run
        } else {
            text
        }
    } else if is_kept(data[from]) {
        scan_from(data, from + 1, text, run.push(data[from]))
    } else if run.len() >= 4 {
        scan_from(data, from + 1, text + run + seq![0x20u8], Seq::empty())
    } else {
        scan_from(data, from + 1, text, Seq::empty())
    }
}

/// Whether a byte is ASCII white space.
pub open spec fn is_blank(b: u8) -> bool {
    b == 0x20 || (0x09 <= b <= 0x0D)
}

/// The words of a text from index `from` on, one space between them, behind `out`; `gap`
/// says that white space stands between the last word of `out` and what follows.
pub open spec fn squeeze_from(s: Seq<u8>, from: int, out: Seq<u8>, gap: bool) -> Seq<u8>
    decreases s.len() - from,
{
    if from < 0 || from >= s.len() {
        out
    } else if is_blank(s[from]) {
        squeeze_from(s, from + 1, out, out.len() > 0)
    } else if gap {
        squeeze_from(s, from + 1, out.push(0x20u8).push(s[from]), false)
    } else {
        squeeze_from(s, from + 1, out.push(s[from]), false)
    }
}

/// The text that can be read out of binary content: its runs of four or more printable
/// bytes, as words with one space between them.
pub open spec fn printable_text(data: Seq<u8>) -> Seq<u8> {
    squeeze_from(scan_from(data, 0, Seq::empty(), Seq::empty()), 0, Seq::empty(), false)
}

fn scan(data: &[u8]) -> (r: Vec<u8>)
    ensures
        r@ == scan_from(data@, 0, Seq::empty(), Seq::empty()),
        is_ascii_bytes(r@),
{
    let mut text: Vec<u8> = Vec::new();
    let mut run: Vec<u8> = Vec::new();
    let mut i: usize = 0;
    while i < data.len()
        invariant
            i <= data.len(),
            is_ascii_bytes(text@),
            is_ascii_bytes(run@),
            scan_from(data@, i as int, text@, run@) == scan_from(
                data@,
                0,
                Seq::empty(),
                Seq::empty(),
            ),
        decreases data.len() - i,
    {
        let b = data[i];
        if (32 <= b && b < 127) || b == 0x0A || b == 0x0D || b == 0x09 {
            run.push(b);
        } else {
            if run.len() >= 4 {
                let ghost before = text@;
                let ghost kept = run@;
                text.append(&mut run);
                text.push(0x20);
                assert(text@ =~= before + kept + seq![0x20u8]);
            }
            run = Vec::new();
        }
        i += 1;
    }
    if run.len() >= 4 {
        text.append(&mut run);
    }
    text
}

/// Reads what text there is out of binary content.
pub fn extract_printable_text(data: &[u8]) -> (r: String)
    ensures
        r@ == ascii_chars(printable_text(data@)),
{
    let text = scan(data);
    let mut out: Vec<u8> = Vec::new();
    let mut gap = false;
    let mut i: usize = 0;
    while i < text.len()
        invariant
            i <= text.len(),
            is_ascii_bytes(text@),
            is_ascii_bytes(out@),
            squeeze_from(text@, i as int, out@, gap) == squeeze_from(
                text@,
                0,
                Seq::empty(),
                false,
            ),
        decreases text.len() - i,
    {
        let b = text[i];
        if b == 0x20 || (0x09 <= b && b <= 0x0D) {
            gap = out.len() > 0;
        } else {
            if gap {
                out.push(0x20);
            }
            out.push(b);
            gap = false;
        }
        i += 1;
    }
    ascii_string(out.as_slice())
}

} // verus!
