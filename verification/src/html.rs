//! HTML files: a confirmatory check, the title, and the whole file as one block of text.

use vstd::prelude::*;
use vstd::slice::slice_subrange;
use vstd::string::StringSliceAdditionalSpecFns;
use vstd::utf8::decode_utf8;
use vstd::utf8::encode_utf8;
use vstd::utf8::valid_utf8;
use crate::document::ContentBlock;
use crate::document::ContentBlockView;
use crate::document::Dimensions;
use crate::document::Document;
use crate::document::DocumentView;
use crate::document::group_document_views;
use crate::document::ImageResource;
use crate::document::ImageResourceView;
use crate::document::Page;
use crate::document::page_of;
use crate::document::PageView;
use crate::document::plain_shape_style;
use crate::document::plain_text_style;
use crate::document::Point;
use crate::document::Rect;
use crate::document::TextBlock;
use crate::document::TextBlockView;
use crate::document::TextRun;
use crate::document::TextRunView;
use crate::document::TextStyle;
use crate::document::zero_rect;
use crate::email::head;
use crate::error::Error;
use crate::error::ErrorView;
use crate::format::contains;
use crate::format::Format;
use crate::format::format_of;
use crate::format::FormatFamily;
use crate::format::FormatView;
use crate::format::holds_at;
use crate::format::lower_bytes;
use crate::format::spec_contains;
use crate::format::spec_holds_at;
use crate::legacy::describe_text_parser;
use crate::legacy::legacy_parser_metadata;
use crate::metadata::custom_insert;
use crate::metadata::empty_metadata;
use crate::metadata::Metadata;
use crate::metadata::MetadataValue;
use crate::metadata::MetadataValueView;
use crate::metadata::MetadataView;
use crate::parser::ParseContext;
use crate::parser::Parser;
use crate::parser::ParserMetadata;
use crate::parser::ParserMetadataView;
use crate::text::attr_value;
use crate::text::lit;
use crate::text::spec_starts_with;
use crate::text::starts_with;
use crate::text::utf8_lossy;
use crate::text::utf8_text;
use crate::xml::result_view;

verus! {

broadcast use group_document_views;

/// Whether a character is white space.
pub open spec fn is_space(c: char) -> bool {
    let v = c as u32;
    (0x09 <= v <= 0x0D) || v == 0x20 || v == 0x85 || v == 0xA0 || v == 0x1680 || (0x2000 <= v
        <= 0x200A) || v == 0x2028 || v == 0x2029 || v == 0x202F || v == 0x205F || v == 0x3000
}

pub fn is_space_char(c: char) -> (r: bool)
    ensures
        r == is_space(c),
{
    let v = c as u32;
    (0x09 <= v && v <= 0x0D) || v == 0x20 || v == 0x85 || v == 0xA0 || v == 0x1680 || (0x2000
        <= v && v <= 0x200A) || v == 0x2028 || v == 0x2029 || v == 0x202F || v == 0x205F || v
        == 0x3000
}

/// The index of the first character at or behind `from` that is no white space, or the
/// length.
pub open spec fn text_start(s: Seq<char>, from: int) -> int
    decreases s.len() - from,
{
    if from < 0 || from >= s.len() || !is_space(s[from]) {
        from
    } else {
        text_start(s, from + 1)
    }
}

/// The index behind the last character before `upto` that is no white space, but no less
/// than `floor`.
pub open spec fn text_end(s: Seq<char>, floor: int, upto: int) -> int
    decreases upto - floor,
{
    if upto <= floor || upto > s.len() || floor < 0 || !is_space(s[upto - 1]) {
        upto
    } else {
        text_end(s, floor, upto - 1)
    }
}

/// A text without the white space at its start.
pub open spec fn trimmed_start(s: Seq<char>) -> Seq<char> {
    s.skip(text_start(s, 0))
}

/// A text without the white space at its start and at its end.
pub open spec fn trimmed(s: Seq<char>) -> Seq<char> {
    s.subrange(text_start(s, 0), text_end(s, text_start(s, 0), s.len() as int))
}

fn leading_space(s: &str) -> (k: usize)
    ensures
        k == text_start(s@, 0),
        k <= s@.len(),
{
    let len = s.unicode_len();
    let mut k: usize = 0;
    while k < len
        invariant
            k <= len,
            len == s@.len(),
            text_start(s@, k as int) == text_start(s@, 0),
        decreases len - k,
    {
        if !is_space_char(s.get_char(k)) {
            return k;
        }
        k += 1;
    }
    k
}

/// A text without the white space at its start and at its end.
pub fn trim(s: &str) -> (r: String)
    ensures
        r@ == trimmed(s@),
{
    let len = s.unicode_len();
    let start = leading_space(s);
    let mut end: usize = len;
    while end > start
        invariant
            start <= end <= len,
            len == s@.len(),
            start == text_start(s@, 0),
            text_end(s@, start as int, end as int) == text_end(s@, start as int, len as int),
        decreases end,
    {
        if !is_space_char(s.get_char(end - 1)) {
            let part = s.substring_char(start, end);
            return part.to_owned();
        }
        end -= 1;
    }
    let part = s.substring_char(start, end);
    part.to_owned()
}

/// The index of the first place at or behind `from` where `hay` holds `needle`.
pub open spec fn find_from(hay: Seq<u8>, needle: Seq<u8>, from: int) -> Option<int>
    decreases hay.len() - from,
{
    if from < 0 || from + needle.len() > hay.len() {
        None
    } else if spec_holds_at(hay, from as nat, needle) {
        Some(from)
    } else if from >= hay.len() {
        None
    } else {
        find_from(hay, needle, from + 1)
    }
}

pub fn find(hay: &[u8], needle: &[u8]) -> (r: Option<usize>)
    ensures
        match r {
            Some(k) => find_from(hay@, needle@, 0) == Some(k as int) && k + needle.len()
                <= hay.len(),
            None => find_from(hay@, needle@, 0) is None,
        },
{
    if needle.len() > hay.len() {
        return None;
    }
    let last: usize = hay.len() - needle.len();
    let mut i: usize = 0;
    loop
        invariant
            i <= last,
            last == hay.len() - needle.len(),
            find_from(hay@, needle@, i as int) == find_from(hay@, needle@, 0),
        decreases last - i,
    {
        if holds_at(hay, i, needle) {
            return Some(i);
        }
        if i == last {
            assert(find_from(hay@, needle@, i + 1) is None);
            return None;
        }
        i += 1;
    }
}

/// The title of an HTML file: what stands between the first `<title>` and the `</title>`
/// that follows it, without white space at its ends.
pub open spec fn spec_extract_title(html: Seq<u8>) -> Option<Seq<char>> {
    match find_from(html, lit("<title>"), 0) {
        Some(start) => {
            let rest = html.skip(start + lit("<title>").len());
            match find_from(rest, lit("</title>"), 0) {
                Some(end) => Some(trimmed(utf8_lossy(rest.take(end)))),
                None => None,
            }
        },
        None => None,
    }
}

/// The bytes with ASCII letters in lower case.
pub fn lower(s: &[u8]) -> (r: Vec<u8>)
    ensures
        r@ == lower_bytes(s@),
{
    let mut out: Vec<u8> = Vec::new();
    let mut i: usize = 0;
    while i < s.len()
        invariant
            i <= s.len(),
            out@ == lower_bytes(s@).take(i as int),
        decreases s.len() - i,
    {
        let c = s[i];
        out.push(
            if 0x41 <= c && c <= 0x5A {
                c + 0x20
            } else {
                c
            },
        );
        i += 1;
    }
    out
}

/// Whether text begins, white space and the case of letters aside, as an HTML file does.
pub open spec fn spec_starts_with_html(data: Seq<u8>) -> bool {
    valid_utf8(data) && {
        let text = lower_bytes(encode_utf8(trimmed_start(decode_utf8(data))));
        spec_starts_with(text, lit("<!doctype html")) || spec_starts_with(text, lit("<html"))
            || spec_starts_with(text, lit("<!doctype"))
    }
}

/// Whether the first 1024 bytes are text that holds, the case of letters aside, the marks
/// of an HTML file.
pub open spec fn spec_holds_html(data: Seq<u8>) -> bool {
    let part = head(data, 1024);
    valid_utf8(part) && {
        let text = lower_bytes(part);
        spec_contains(text, lit("<html")) || spec_contains(text, lit("<!doctype")) || (
        spec_contains(text, lit("<head")) && spec_contains(text, lit("<body")))
    }
}

pub open spec fn html_format() -> FormatView {
    format_of("text/html", "html", FormatFamily::Text, "HTML", false)
}

/// The page that holds an HTML file as one run of text.
pub open spec fn html_page(text: Seq<char>) -> PageView {
    page_of(
        1,
        Dimensions { width: 10795000, height: 13970000 },
        seq![
            ContentBlockView::Text(
                TextBlockView {
                    bounds: zero_rect(),
                    runs: seq![
                        TextRunView {
                            text,
                            style: plain_text_style(),
                            bounds: Some(zero_rect()),
                            char_positions: Some(Seq::empty()),
                        },
                    ],
                    paragraph_style: None,
                    style: plain_shape_style(),
                    rotation: 0,
                },
            ),
        ],
        None,
    )
}

/// The metadata of a parsed HTML file: its title, or the file name where it has none, and
/// what kind of content it is.
pub open spec fn html_metadata(title: Option<Seq<char>>, filename: Option<Seq<char>>) -> MetadataView {
    MetadataView {
        title: if title is Some {
            title
        } else {
            filename
        },
        custom: custom_insert(
            custom_insert(Seq::empty(), "format"@, MetadataValueView::String("HTML"@)),
            "content_type"@,
            MetadataValueView::String("text/html"@),
        ),
        ..empty_metadata()
    }
}

/// The document of an HTML file, whose content must be UTF-8.
pub open spec fn html_document(data: Seq<u8>, filename: Option<Seq<char>>) -> Option<
    DocumentView,
> {
    if valid_utf8(data) {
        Some(
            DocumentView {
                source: crate::document::unknown_source(),
                metadata: html_metadata(spec_extract_title(data), filename),
                pages: seq![html_page(decode_utf8(data))],
                images: Seq::empty(),
                bare: true,
            },
        )
    } else {
        None
    }
}

/// Why bytes are not UTF-8, in the words of the standard library; `None` where they are.
pub uninterp spec fn utf8_fault(bytes: Seq<u8>) -> Option<Seq<char>>;

/// Says why bytes are not UTF-8. Calls `std::str::from_utf8` and gives the error's own
/// description: there is one exactly where the bytes are not well-formed UTF-8.
#[verifier::external_body]
pub(crate) fn utf8_fault_text(bytes: &[u8]) -> (r: Option<String>)
    ensures
        r.deep_view() == utf8_fault(bytes@),
        r is None <==> valid_utf8(bytes@),
{
    std::str::from_utf8(bytes).err().map(|e| e.to_string())
}

/// The parser for HTML files.
#[derive(Debug, Clone, Copy)]
pub struct HtmlParser;

impl HtmlParser {
    pub fn new() -> (r: HtmlParser) {
        HtmlParser
    }

    pub fn format(&self) -> (r: Format)
        ensures
            r.deep_view() == html_format(),
    {
        Format::make("text/html", "html", FormatFamily::Text, "HTML", false)
    }

    /// The title of an HTML file.
    pub fn extract_title(html: &str) -> (r: Option<String>)
        ensures
            r.deep_view() == spec_extract_title(html.spec_bytes()),
    {
        let bytes = html.as_bytes();
        let open = "<title>".as_bytes();
        match find(bytes, open) {
            Some(start) => {
                let rest = slice_subrange(bytes, start + open.len(), bytes.len());
                match find(rest, "</title>".as_bytes()) {
                    Some(end) => {
                        let inner = slice_subrange(rest, 0, end);
                        let text = attr_value(inner);
                        Some(trim(text.as_str()))
                    },
                    None => None,
                }
            },
            None => None,
        }
    }

    pub fn starts_with_html(data: &[u8]) -> (r: bool)
        ensures
            r == spec_starts_with_html(data@),
    {
        match utf8_text(data) {
            Some(text) => {
                let k = leading_space(text.as_str());
                let rest = text.as_str().substring_char(k, text.as_str().unicode_len());
                let low = lower(rest.as_bytes());
                starts_with(low.as_slice(), "<!doctype html".as_bytes()) || starts_with(
                    low.as_slice(),
                    "<html".as_bytes(),
                ) || starts_with(low.as_slice(), "<!doctype".as_bytes())
            },
            None => false,
        }
    }

    /// Whether `data` looks like an HTML file.
    pub fn can_parse(&self, data: &[u8]) -> (r: bool)
        ensures
            r == (spec_starts_with_html(data@) || spec_holds_html(data@)),
    {
        if Self::starts_with_html(data) {
            return true;
        }
        let part = if data.len() <= 1024 {
            data
        } else {
            let p = slice_subrange(data, 0, 1024);
            p
        };
        if utf8_text(part).is_none() {
            return false;
        }
        let low = lower(part);
        contains(low.as_slice(), "<html".as_bytes()) || contains(
            low.as_slice(),
            "<!doctype".as_bytes(),
        ) || (contains(low.as_slice(), "<head".as_bytes()) && contains(
            low.as_slice(),
            "<body".as_bytes(),
        ))
    }

    /// Parses an HTML file: the whole file becomes the one run of text of the one page.
    pub fn parse(&self, data: &[u8], context: ParseContext) -> (r: Result<Document, Error>)
        ensures
            match html_document(data@, context.filename.deep_view()) {
                Some(doc) => result_view(r) == Ok::<DocumentView, ErrorView>(doc),
                None => r matches Err(e) && utf8_fault(data@) matches Some(why) && e.deep_view()
                    == ErrorView::ParseError("Invalid UTF-8 in HTML file: "@ + why),
            },
    {
        match utf8_fault_text(data) {
            Some(why) => {
                return Err(Error::parse_with("Invalid UTF-8 in HTML file: ", why.as_str()));
            },
            None => {},
        }
        let text = attr_value(data);
        let title = Self::extract_title(text.as_str());
        proof {
            vstd::utf8::decode_utf8_encode_utf8(data@);
        }
        let positions: Vec<Point> = Vec::new();
        let run = TextRun {
            text,
            style: TextStyle::default(),
            bounds: Some(Rect::default()),
            char_positions: Some(positions),
        };
        let mut runs: Vec<TextRun> = Vec::new();
        runs.push(run);
        assert(runs.deep_view() =~= seq![run.deep_view()]);
        let block = ContentBlock::Text(TextBlock::of_runs(Rect::default(), runs));
        let mut content: Vec<ContentBlock> = Vec::new();
        content.push(block);
        assert(content.deep_view() =~= seq![block.deep_view()]);
        let page = Page::with_content(
            1,
            Dimensions { width: 10795000, height: 13970000 },
            content,
            None,
        );
        let mut pages: Vec<Page> = Vec::new();
        pages.push(page);
        assert(pages.deep_view() =~= seq![page.deep_view()]);
        let mut metadata = Metadata::new();
        metadata.title = if title.is_some() {
            title
        } else {
            context.filename
        };
        metadata.add_custom("format", MetadataValue::text("HTML"));
        metadata.add_custom("content_type", MetadataValue::text("text/html"));
        let images: Vec<ImageResource> = Vec::new();
        assert(images.deep_view() =~= Seq::<ImageResourceView>::empty());
        Ok(Document::assemble(metadata, pages, images))
    }

    pub fn metadata(&self) -> (r: ParserMetadata)
        ensures
            r.deep_view() == legacy_parser_metadata("HTML Parser"@),
    {
        describe_text_parser("HTML Parser")
    }
}

impl Parser for HtmlParser {
    open spec fn handled(&self) -> FormatView {
        html_format()
    }

    open spec fn accepts(&self, data: Seq<u8>) -> bool {
        spec_starts_with_html(data) || spec_holds_html(data)
    }

    open spec fn outcome(&self, data: Seq<u8>, filename: Option<Seq<char>>) -> Result<
        DocumentView,
        ErrorView,
    > {
        match html_document(data, filename) {
            Some(document) => Ok(document),
            None => Err(
                ErrorView::ParseError("Invalid UTF-8 in HTML file: "@ + utf8_fault(data)->Some_0),
            ),
        }
    }

    open spec fn described(&self) -> ParserMetadataView {
        legacy_parser_metadata("HTML Parser"@)
    }

    fn format(&self) -> (r: Format) {
        HtmlParser::format(self)
    }

    fn can_parse(&self, data: &[u8]) -> (r: bool) {
        HtmlParser::can_parse(self, data)
    }

    fn parse(&self, data: &[u8], context: ParseContext) -> (r: Result<Document, Error>) {
        HtmlParser::parse(self, data, context)
    }

    fn metadata(&self) -> (r: ParserMetadata) {
        HtmlParser::metadata(self)
    }
}

} // verus!
