//! Plain text and the text formats that are read like it.

use vstd::prelude::*;
use vstd::utf8::decode_utf8;
use vstd::utf8::encode_utf8;
use vstd::utf8::valid_utf8;
use crate::document::ContentBlock;
use crate::document::ContentBlockView;
use crate::document::Dimensions;
use crate::document::Document;
use crate::document::DocumentView;
use crate::document::group_document_views;
use crate::document::ImageResource;
use crate::document::ImageResourceView;
use crate::document::letter_size;
use crate::document::Page;
use crate::document::page_of;
use crate::document::PageView;
use crate::document::plain_text_style;
use crate::document::Rect;
use crate::document::run_of;
use crate::document::text_block_of;
use crate::document::TextBlock;
use crate::document::TextRun;
use crate::document::TextStyle;
use crate::document::zero_rect;
use crate::error::Error;
use crate::error::ErrorView;
use crate::format::eq_lower;
use crate::format::extension_of;
use crate::format::file_extension;
use crate::format::Format;
use crate::format::format_of;
use crate::format::FormatFamily;
use crate::format::FormatView;
use crate::format::lower_bytes;
use crate::html::utf8_fault;
use crate::html::utf8_fault_text;
use crate::legacy::describe_text_parser;
use crate::legacy::legacy_parser_metadata;
use crate::metadata::custom_insert;
use crate::metadata::empty_metadata;
use crate::metadata::Metadata;
use crate::metadata::MetadataValue;
use crate::metadata::MetadataValueView;
use crate::metadata::MetadataView;
use crate::parser::ParseContext;
use crate::parser::Parser;
use crate::parser::ParserMetadata;
use crate::parser::ParserMetadataView;
use crate::pptx::count_of;
use crate::pptx::count_value;
use crate::text::attr_value;
use crate::text::lit;
use crate::text::utf8_lossy;
use crate::text::utf8_text;
use crate::xml::result_view;

verus! {

broadcast use group_document_views;

/// Whether a byte is a control character other than a line feed, a carriage return or a
/// tab.
pub open spec fn is_control(b: u8) -> bool {
    b < 32 && b != 0x0A && b != 0x0D && b != 0x09
}

/// The number of bytes among the first `upto` of which `wanted` holds.
pub open spec fn count_upto(data: Seq<u8>, upto: int, wanted: spec_fn(u8) -> bool) -> nat
    decreases upto,
{
    if upto <= 0 || upto > data.len() {
        0
    } else if wanted(data[upto - 1]) {
        count_upto(data, upto - 1, wanted) + 1
    } else {
        count_upto(data, upto - 1, wanted)
    }
}

/// The number of control characters in `data`.
pub open spec fn control_count(data: Seq<u8>) -> nat {
    count_upto(data, data.len() as int, |b: u8| is_control(b))
}

/// The number of line feeds in `data`.
pub open spec fn line_count(data: Seq<u8>) -> nat {
    count_upto(data, data.len() as int, |b: u8| b == 0x0A)
}

/// Whether `data` is likely text: it is UTF-8, and fewer than one byte in ten is a control
/// character. Empty content is no text.
pub open spec fn spec_is_likely_text(data: Seq<u8>) -> bool {
    valid_utf8(data) && control_count(data) * 10 < data.len()
}

fn count_controls(data: &[u8]) -> (n: usize)
    ensures
        n == control_count(data@),
        n <= data.len(),
{
    let mut n: usize = 0;
    let mut i: usize = 0;
    while i < data.len()
        invariant
            i <= data.len(),
            n <= i,
            n == count_upto(data@, i as int, |b: u8| is_control(b)),
        decreases data.len() - i,
    {
        let b = data[i];
        if b < 32 && b != 0x0A && b != 0x0D && b != 0x09 {
            n += 1;
        }
        i += 1;
    }
    n
}

fn count_lines(data: &[u8]) -> (n: usize)
    ensures
        n == line_count(data@),
{
    let mut n: usize = 0;
    let mut i: usize = 0;
    while i < data.len()
        invariant
            i <= data.len(),
            n <= i,
            n == count_upto(data@, i as int, |b: u8| b == 0x0A),
        decreases data.len() - i,
    {
        if data[i] == 0x0A {
            n += 1;
        }
        i += 1;
    }
    n
}

pub open spec fn text_format(
    mime_type: &str,
    extension: &str,
    name: &str,
) -> FormatView {
    format_of(mime_type, extension, FormatFamily::Text, name, false)
}

/// The format that the extension of a text file names, without regard to the case of
/// letters; an unknown extension names a text file with that extension.
pub open spec fn spec_format_for_extension(extension: Seq<char>) -> FormatView {
    let low = lower_bytes(encode_utf8(extension));
    if low == lit("txt") {
        text_format("text/plain", "txt", "Plain Text")
    } else if low == lit("log") {
        text_format("text/plain", "log", "Log File")
    } else if low == lit("json") {
        text_format("application/json", "json", "JSON")
    } else if low == lit("xml") {
        text_format("application/xml", "xml", "XML")
    } else if low == lit("csv") {
        text_format("text/csv", "csv", "CSV")
    } else if low == lit("md") || low == lit("markdown") {
        text_format("text/markdown", "md", "Markdown")
    } else {
        FormatView {
            mime_type: "text/plain"@,
            extension,
            family: FormatFamily::Text,
            name: "Text File"@,
            is_container: false,
        }
    }
}

fn make_text_format(mime_type: &str, extension: &str, name: &str) -> (r: Format)
    ensures
        r.deep_view() == text_format(mime_type, extension, name),
{
    Format::make(mime_type, extension, FormatFamily::Text, name, false)
}

/// The page that holds a text file as one run of text, to be wrapped by whoever shows it.
pub open spec fn text_page(text: Seq<char>) -> PageView {
    page_of(
        1,
        letter_size(),
        seq![ContentBlockView::Text(text_block_of(zero_rect(), seq![run_of(text, plain_text_style())]))],
        None,
    )
}

/// The metadata of a parsed text file: the file name as title, its extension, and the
/// numbers of its bytes and of its line feeds.
pub open spec fn text_metadata(data: Seq<u8>, filename: Option<Seq<char>>) -> MetadataView {
    let named = match filename {
        Some(name) => custom_insert(
            Seq::empty(),
            "file_extension"@,
            MetadataValueView::String(utf8_lossy(file_extension(encode_utf8(name)))),
        ),
        None => Seq::empty(),
    };
    MetadataView {
        title: filename,
        custom: custom_insert(
            custom_insert(
                named,
                "character_count"@,
                MetadataValueView::Integer(count_value(data.len())),
            ),
            "line_count"@,
            MetadataValueView::Integer(count_value(line_count(data))),
        ),
        ..empty_metadata()
    }
}

/// The document of a text file, whose content must be UTF-8.
pub open spec fn text_document(data: Seq<u8>, filename: Option<Seq<char>>) -> Option<
    DocumentView,
> {
    if valid_utf8(data) {
        Some(
            DocumentView {
                source: crate::document::unknown_source(),
                metadata: text_metadata(data, filename),
                pages: seq![text_page(decode_utf8(data))],
                images: Seq::empty(),
                bare: true,
            },
        )
    } else {
        None
    }
}

/// The parser for plain text.
#[derive(Debug, Clone, Copy)]
pub struct TextParser;

impl TextParser {
    pub fn new() -> (r: TextParser) {
        TextParser
    }

    pub fn is_likely_text(data: &[u8]) -> (r: bool)
        ensures
            r == spec_is_likely_text(data@),
    {
        if utf8_text(data).is_none() {
            return false;
        }
        let controls = count_controls(data);
        (controls as u128) * 10 < data.len() as u128
    }

    pub fn format_for_extension(extension: &str) -> (r: Format)
        ensures
            r.deep_view() == spec_format_for_extension(extension@),
    {
        let ext = extension.as_bytes();
        if eq_lower(ext, "txt".as_bytes()) {
            make_text_format("text/plain", "txt", "Plain Text")
        } else if eq_lower(ext, "log".as_bytes()) {
            make_text_format("text/plain", "log", "Log File")
        } else if eq_lower(ext, "json".as_bytes()) {
            make_text_format("application/json", "json", "JSON")
        } else if eq_lower(ext, "xml".as_bytes()) {
            make_text_format("application/xml", "xml", "XML")
        } else if eq_lower(ext, "csv".as_bytes()) {
            make_text_format("text/csv", "csv", "CSV")
        } else if eq_lower(ext, "md".as_bytes()) || eq_lower(ext, "markdown".as_bytes()) {
            make_text_format("text/markdown", "md", "Markdown")
        } else {
            make_text_format("text/plain", extension, "Text File")
        }
    }

    pub fn format(&self) -> (r: Format)
        ensures
            r.deep_view() == text_format("text/plain", "txt", "Plain Text"),
    {
        make_text_format("text/plain", "txt", "Plain Text")
    }

    /// Whether `data` is likely text.
    pub fn can_parse(&self, data: &[u8]) -> (r: bool)
        ensures
            r == spec_is_likely_text(data@),
    {
        Self::is_likely_text(data)
    }

    /// Parses a text file: the whole file becomes the one run of text of the one page.
    pub fn parse(&self, data: &[u8], context: ParseContext) -> (r: Result<Document, Error>)
        ensures
            match text_document(data@, context.filename.deep_view()) {
                Some(doc) => result_view(r) == Ok::<DocumentView, ErrorView>(doc),
                None => r matches Err(e) && utf8_fault(data@) matches Some(why) && e.deep_view()
                    == ErrorView::ParseError("Invalid UTF-8: "@ + why),
            },
    {
        match utf8_fault_text(data) {
            Some(why) => {
                return Err(Error::parse_with("Invalid UTF-8: ", why.as_str()));
            },
            None => {},
        }
        let text = attr_value(data);
        let mut runs: Vec<TextRun> = Vec::new();
        let run = TextRun::from_parts(text, TextStyle::default());
        runs.push(run);
        assert(runs.deep_view() =~= seq![run.deep_view()]);
        let block = ContentBlock::Text(TextBlock::of_runs(Rect::default(), runs));
        let mut content: Vec<ContentBlock> = Vec::new();
        content.push(block);
        assert(content.deep_view() =~= seq![block.deep_view()]);
        let page = Page::with_content(1, Dimensions::letter(), content, None);
        let mut pages: Vec<Page> = Vec::new();
        pages.push(page);
        assert(pages.deep_view() =~= seq![page.deep_view()]);
        let mut metadata = Metadata::new();
        match &context.filename {
            Some(name) => {
                let ext = attr_value(extension_of(name.as_str().as_bytes()));
                metadata.add_custom("file_extension", MetadataValue::String(ext));
            },
            None => {},
        }
        metadata.title = context.filename;
        metadata.add_custom("character_count", MetadataValue::Integer(count_of(data.len())));
        metadata.add_custom(
            "line_count",
            MetadataValue::Integer(count_of(count_lines(data))),
        );
        let images: Vec<ImageResource> = Vec::new();
        assert(images.deep_view() =~= Seq::<ImageResourceView>::empty());
        Ok(Document::assemble(metadata, pages, images))
    }

    pub fn metadata(&self) -> (r: ParserMetadata)
        ensures
            r.deep_view() == legacy_parser_metadata("Text Parser"@),
    {
        describe_text_parser("Text Parser")
    }
}

/// The parser for JSON files, which are read as text.
#[derive(Debug, Clone, Copy)]
pub struct JsonParser;

impl JsonParser {
    pub fn new() -> (r: JsonParser) {
        JsonParser
    }

    /// Parses the file as plain text.
    pub fn parse(&self, data: &[u8], context: ParseContext) -> (r: Result<Document, Error>)
        ensures
            match text_document(data@, context.filename.deep_view()) {
                Some(doc) => result_view(r) == Ok::<DocumentView, ErrorView>(doc),
                None => r matches Err(e) && utf8_fault(data@) matches Some(why) && e.deep_view()
                    == ErrorView::ParseError("Invalid UTF-8: "@ + why),
            },
    {
        TextParser::new().parse(data, context)
    }

    pub fn format(&self) -> (r: Format)
        ensures
            r.deep_view() == text_format("application/json", "json", "JSON"),
    {
        make_text_format("application/json", "json", "JSON")
    }

    pub fn can_parse(&self, data: &[u8]) -> (r: bool)
        ensures
            r == spec_is_likely_text(data@),
    {
        TextParser::is_likely_text(data)
    }

    pub fn metadata(&self) -> (r: ParserMetadata)
        ensures
            r.deep_view() == legacy_parser_metadata("JSON Parser"@),
    {
        describe_text_parser("JSON Parser")
    }
}

/// The parser for XML files, which are read as text.
#[derive(Debug, Clone, Copy)]
pub struct XmlParser;

impl XmlParser {
    pub fn new() -> (r: XmlParser) {
        XmlParser
    }

    /// Parses the file as plain text.
    pub fn parse(&self, data: &[u8], context: ParseContext) -> (r: Result<Document, Error>)
        ensures
            match text_document(data@, context.filename.deep_view()) {
                Some(doc) => result_view(r) == Ok::<DocumentView, ErrorView>(doc),
                None => r matches Err(e) && utf8_fault(data@) matches Some(why) && e.deep_view()
                    == ErrorView::ParseError("Invalid UTF-8: "@ + why),
            },
    {
        TextParser::new().parse(data, context)
    }

    pub fn format(&self) -> (r: Format)
        ensures
            r.deep_view() == text_format("application/xml", "xml", "XML"),
    {
        make_text_format("application/xml", "xml", "XML")
    }

    pub fn can_parse(&self, data: &[u8]) -> (r: bool)
        ensures
            r == spec_is_likely_text(data@),
    {
        TextParser::is_likely_text(data)
    }

    pub fn metadata(&self) -> (r: ParserMetadata)
        ensures
            r.deep_view() == legacy_parser_metadata("XML Parser"@),
    {
        describe_text_parser("XML Parser")
    }
}

/// The parser for Markdown files, which are read as text.
#[derive(Debug, Clone, Copy)]
pub struct MarkdownParser;

impl MarkdownParser {
    pub fn new() -> (r: MarkdownParser) {
        MarkdownParser
    }

    /// Parses the file as plain text.
    pub fn parse(&self, data: &[u8], context: ParseContext) -> (r: Result<Document, Error>)
        ensures
            match text_document(data@, context.filename.deep_view()) {
                Some(doc) => result_view(r) == Ok::<DocumentView, ErrorView>(doc),
                None => r matches Err(e) && utf8_fault(data@) matches Some(why) && e.deep_view()
                    == ErrorView::ParseError("Invalid UTF-8: "@ + why),
            },
    {
        TextParser::new().parse(data, context)
    }

    pub fn format(&self) -> (r: Format)
        ensures
            r.deep_view() == text_format("text/markdown", "md", "Markdown"),
    {
        make_text_format("text/markdown", "md", "Markdown")
    }

    pub fn can_parse(&self, data: &[u8]) -> (r: bool)
        ensures
            r == spec_is_likely_text(data@),
    {
        TextParser::is_likely_text(data)
    }

    pub fn metadata(&self) -> (r: ParserMetadata)
        ensures
            r.deep_view() == legacy_parser_metadata("Markdown Parser"@),
    {
        describe_text_parser("Markdown Parser")
    }
}

/// The parser for log files, which are read as text.
#[derive(Debug, Clone, Copy)]
pub struct LogParser;

impl LogParser {
    pub fn new() -> (r: LogParser) {
        LogParser
    }

    /// Parses the file as plain text.
    pub fn parse(&self, data: &[u8], context: ParseContext) -> (r: Result<Document, Error>)
        ensures
            match text_document(data@, context.filename.deep_view()) {
                Some(doc) => result_view(r) == Ok::<DocumentView, ErrorView>(doc),
                None => r matches Err(e) && utf8_fault(data@) matches Some(why) && e.deep_view()
                    == ErrorView::ParseError("Invalid UTF-8: "@ + why),
            },
    {
        TextParser::new().parse(data, context)
    }

    pub fn format(&self) -> (r: Format)
        ensures
            r.deep_view() == text_format("text/plain", "log", "Log File"),
    {
        make_text_format("text/plain", "log", "Log File")
    }

    pub fn can_parse(&self, data: &[u8]) -> (r: bool)
        ensures
            r == spec_is_likely_text(data@),
    {
        TextParser::is_likely_text(data)
    }

    pub fn metadata(&self) -> (r: ParserMetadata)
        ensures
            r.deep_view() == legacy_parser_metadata("Log Parser"@),
    {
        describe_text_parser("Log Parser")
    }
}

/// The features of a parser that reads tables.
pub open spec fn table_features() -> Seq<crate::parser::ParserFeature> {
    seq![
        crate::parser::ParserFeature::TableExtraction,
        crate::parser::ParserFeature::MetadataExtraction,
    ]
}

/// The parser for files of comma-separated values.
#[derive(Debug, Clone, Copy)]
pub struct CsvParser;

impl CsvParser {
    pub fn new() -> (r: CsvParser) {
        CsvParser
    }

    pub fn format(&self) -> (r: Format)
        ensures
            r.deep_view() == text_format("text/csv", "csv", "CSV"),
    {
        make_text_format("text/csv", "csv", "CSV")
    }

    /// Any content may be comma-separated values.
    pub fn can_parse(&self, data: &[u8]) -> (r: bool)
        ensures
            r,
    {
        true
    }

    pub fn metadata(&self) -> (r: ParserMetadata)
        ensures
            r.deep_view() == (crate::parser::ParserMetadataView {
                name: "CSV Parser"@,
                version: crate::VERSION@,
                features: table_features(),
                requires_sandbox: false,
            }),
    {
        let mut features: Vec<crate::parser::ParserFeature> = Vec::new();
        features.push(crate::parser::ParserFeature::TableExtraction);
        features.push(crate::parser::ParserFeature::MetadataExtraction);
        assert(features@ =~= table_features());
        ParserMetadata::of("CSV Parser", features)
    }
}

impl Parser for TextParser {
    open spec fn handled(&self) -> FormatView {
        text_format("text/plain", "txt", "Plain Text")
    }

    open spec fn accepts(&self, data: Seq<u8>) -> bool {
        spec_is_likely_text(data)
    }

    open spec fn outcome(&self, data: Seq<u8>, filename: Option<Seq<char>>) -> Result<
        DocumentView,
        ErrorView,
    > {
        match text_document(data, filename) {
            Some(document) => Ok(document),
            None => Err(ErrorView::ParseError("Invalid UTF-8: "@ + utf8_fault(data)->Some_0)),
        }
    }

    open spec fn described(&self) -> ParserMetadataView {
        legacy_parser_metadata("Text Parser"@)
    }

    fn format(&self) -> (r: Format) {
        TextParser::format(self)
    }

    fn can_parse(&self, data: &[u8]) -> (r: bool) {
        TextParser::can_parse(self, data)
    }

    fn parse(&self, data: &[u8], context: ParseContext) -> (r: Result<Document, Error>) {
        TextParser::parse(self, data, context)
    }

    fn metadata(&self) -> (r: ParserMetadata) {
        TextParser::metadata(self)
    }
}

} // verus!
