//! Word-processing packages (DOCX).
//!
//! The main part is walked once, event by event. Pages are a heuristic: the format records
//! no page breaks without full layout, so paragraphs are grouped by a fixed count.

use vstd::prelude::*;
use crate::archive::text_entry;
use crate::archive::zip_check;
use crate::archive::zip_entry;
use crate::archive::zip_open_error;
use crate::archive::zip_read;
use crate::archive::zip_read_text;
use crate::archive::ZipEntry;
use crate::archive::ZipEntryView;
use crate::document::ContentBlock;
use crate::document::ContentBlockView;
use crate::document::copy_opt_string;
use crate::document::copy_runs;
use crate::document::Dimensions;
use crate::document::Document;
use crate::document::DocumentView;
use crate::document::group_document_views;
use crate::document::letter_size;
use crate::document::Page;
use crate::document::page_of;
use crate::document::pages_rise;
use crate::document::PageView;
use crate::document::plain_shape_style;
use crate::document::plain_text_style;
use crate::document::Rect;
use crate::document::run_of;
use crate::document::ShapeStyle;
use crate::document::TextBlock;
use crate::document::TextBlockView;
use crate::document::TextRun;
use crate::document::TextRunView;
use crate::document::TextStyle;
use crate::document::TextStyleView;
use crate::document::zero_rect;
use crate::error::Error;
use crate::error::ErrorView;
use crate::format::docx_format;
use crate::format::Format;
use crate::format::FormatView;
use crate::metadata::custom_insert;
use crate::metadata::empty_metadata;
use crate::metadata::Metadata;
use crate::metadata::MetadataValue;
use crate::metadata::MetadataValueView;
use crate::metadata::MetadataView;
use crate::parser::ParseContext;
use crate::parser::Parser;
use crate::parser::ParserFeature;
use crate::parser::ParserMetadata;
use crate::parser::ParserMetadataView;
use crate::styles::empty_styles;
use crate::styles::half_point_size;
use crate::styles::resolve_style;
use crate::styles::style_get;
use crate::styles::Styles;
use crate::styles::styles_of_events;
use crate::styles::StylesView;
use crate::tables::advance;
use crate::tables::no_blocks;
use crate::tables::parse_table;
use crate::tables::push_block;
use crate::tables::spec_parse_table;
use crate::text::attr_value;
use crate::text::lit;
use crate::text::parse_scaled;
use crate::text::utf8_lossy;
use crate::utils::half;
use crate::utils::hash_color;
use crate::utils::spec_hash_color;
use crate::xml::attr_last;
use crate::xml::check_part;
use crate::xml::event_text;
use crate::xml::last_attr;
use crate::xml::part_fault;
use crate::xml::read_events;
use crate::xml::result_view;
use crate::xml::spec_event_text;
use crate::xml::xml_events;
use crate::xml::XmlEvent;
use crate::xml::XmlEventKind;
use crate::xml::XmlEventView;

verus! {

broadcast use group_document_views;

/// How many paragraphs make a page.
pub const PARAS_PER_PAGE: usize = 50;

/// The number of the page that follows `count` pages.
pub open spec fn page_number(count: nat) -> u32 {
    if count < u32::MAX {
        (count + 1) as u32
    } else {
        u32::MAX
    }
}

pub fn next_page_number(count: usize) -> (r: u32)
    ensures
        r == page_number(count as nat),
{
    if count < u32::MAX as usize {
        (count + 1) as u32
    } else {
        u32::MAX
    }
}

/// Where the walk through the main part stands.
pub struct DocxState {
    /// The pages closed so far.
    pub pages: Vec<Page>,
    /// The blocks of the page being filled.
    pub content: Vec<ContentBlock>,
    pub in_paragraph: bool,
    /// The runs of the paragraph last opened.
    pub runs: Vec<TextRun>,
    /// The style id of the paragraph last opened.
    pub para_style: Option<String>,
    pub in_run: bool,
    /// The text of the run last opened.
    pub run_text: String,
    /// The direct formatting of the run last opened.
    pub run_style: TextStyle,
    pub in_run_props: bool,
    /// Paragraphs opened since the last page break.
    pub para_count: u128,
}

pub ghost struct DocxStateView {
    pub pages: Seq<PageView>,
    pub content: Seq<ContentBlockView>,
    pub in_paragraph: bool,
    pub runs: Seq<TextRunView>,
    pub para_style: Option<Seq<char>>,
    pub in_run: bool,
    pub run_text: Seq<char>,
    pub run_style: TextStyleView,
    pub in_run_props: bool,
    pub para_count: nat,
}

impl DeepView for DocxState {
    type V = DocxStateView;

    open spec fn deep_view(&self) -> DocxStateView {
        DocxStateView {
            pages: self.pages.deep_view(),
            content: self.content.deep_view(),
            in_paragraph: self.in_paragraph,
            runs: self.runs.deep_view(),
            para_style: self.para_style.deep_view(),
            in_run: self.in_run,
            run_text: self.run_text@,
            run_style: self.run_style.deep_view(),
            in_run_props: self.in_run_props,
            para_count: self.para_count as nat,
        }
    }
}

/// The state before the first event.
pub open spec fn docx_start() -> DocxStateView {
    DocxStateView {
        pages: Seq::empty(),
        content: Seq::empty(),
        in_paragraph: false,
        runs: Seq::empty(),
        para_style: None,
        in_run: false,
        run_text: Seq::empty(),
        run_style: plain_text_style(),
        in_run_props: false,
        para_count: 0,
    }
}

/// The state after the open run is closed: a run with text joins the paragraph's runs, in
/// the style that its direct formatting resolves to against the paragraph's style; a run
/// without text is dropped.
pub open spec fn docx_flush_run(s: DocxStateView, styles: StylesView) -> DocxStateView {
    if s.run_text.len() == 0 {
        s
    } else {
        DocxStateView {
            runs: s.runs.push(
                run_of(
                    s.run_text,
                    resolve_style(
                        styles.default_text_style,
                        match s.para_style {
                            Some(id) => style_get(styles.styles, id),
                            None => None,
                        },
                        s.run_style,
                    ),
                ),
            ),
            ..s
        }
    }
}

/// The block of a paragraph.
pub open spec fn paragraph_block(runs: Seq<TextRunView>, style: Option<Seq<char>>) -> ContentBlockView {
    ContentBlockView::Text(
        TextBlockView {
            bounds: zero_rect(),
            runs,
            paragraph_style: style,
            style: plain_shape_style(),
            rotation: 0,
        },
    )
}

/// The state after a paragraph's closing tag: a paragraph with runs becomes a text block of
/// the page being filled, and the page is closed once enough paragraphs were opened; a
/// paragraph without runs is dropped.
pub open spec fn docx_close_paragraph(s: DocxStateView) -> DocxStateView {
    if s.runs.len() == 0 {
        DocxStateView { in_paragraph: false, ..s }
    } else {
        let content = s.content.push(paragraph_block(s.runs, s.para_style));
        if s.para_count >= PARAS_PER_PAGE {
            DocxStateView {
                pages: s.pages.push(
                    page_of(page_number(s.pages.len()), letter_size(), content, None),
                ),
                content: Seq::empty(),
                para_count: 0,
                in_paragraph: false,
                ..s
            }
        } else {
            DocxStateView { content, in_paragraph: false, ..s }
        }
    }
}

/// The state after a flag element (`w:b`, `w:i`, `w:u`) among the run properties.
pub open spec fn docx_with_flag(s: DocxStateView, ev: XmlEventView) -> DocxStateView {
    if !s.in_run_props {
        s
    } else if ev.name == lit("w:b") {
        DocxStateView { run_style: TextStyleView { bold: true, ..s.run_style }, ..s }
    } else if ev.name == lit("w:i") {
        DocxStateView { run_style: TextStyleView { italic: true, ..s.run_style }, ..s }
    } else if ev.name == lit("w:u") {
        DocxStateView { run_style: TextStyleView { underline: true, ..s.run_style }, ..s }
    } else {
        s
    }
}

/// The state after a `w:pStyle` element.
pub open spec fn docx_with_para_style(s: DocxStateView, ev: XmlEventView) -> DocxStateView {
    match attr_last(ev.attrs, lit("w:val")) {
        Some(v) => DocxStateView { para_style: Some(utf8_lossy(v)), ..s },
        None => s,
    }
}

/// The state after a run property with a value (`w:color`, `w:sz`, `w:rFonts`).
pub open spec fn docx_with_property(s: DocxStateView, ev: XmlEventView) -> DocxStateView {
    if !s.in_run_props {
        s
    } else if ev.name == lit("w:color") {
        match attr_last(ev.attrs, lit("w:val")) {
            Some(v) => match spec_hash_color(v) {
                Some(c) => DocxStateView {
                    run_style: TextStyleView { color: Some(c), ..s.run_style },
                    ..s
                },
                None => s,
            },
            None => s,
        }
    } else if ev.name == lit("w:sz") {
        match attr_last(ev.attrs, lit("w:val")) {
            Some(v) => match half_point_size(v) {
                Some(n) => DocxStateView {
                    run_style: TextStyleView { font_size: Some(n), ..s.run_style },
                    ..s
                },
                None => s,
            },
            None => s,
        }
    } else if ev.name == lit("w:rFonts") {
        match attr_last(ev.attrs, lit("w:ascii")) {
            Some(v) => DocxStateView {
                run_style: TextStyleView { font_family: Some(utf8_lossy(v)), ..s.run_style },
                ..s
            },
            None => s,
        }
    } else {
        docx_with_flag(s, ev)
    }
}

/// The state after an opening tag other than a table's.
pub open spec fn docx_on_start(s: DocxStateView, ev: XmlEventView, styles: StylesView) -> DocxStateView {
    if ev.name == lit("w:p") {
        DocxStateView {
            in_paragraph: true,
            runs: Seq::empty(),
            para_style: None,
            para_count: s.para_count + 1,
            ..s
        }
    } else if ev.name == lit("w:pStyle") {
        docx_with_para_style(s, ev)
    } else if ev.name == lit("w:r") {
        if s.in_paragraph {
            let closed = if s.in_run {
                docx_flush_run(s, styles)
            } else {
                s
            };
            DocxStateView {
                in_run: true,
                run_text: Seq::empty(),
                run_style: plain_text_style(),
                ..closed
            }
        } else {
            s
        }
    } else if ev.name == lit("w:rPr") {
        DocxStateView { in_run_props: true, ..s }
    } else {
        docx_with_property(s, ev)
    }
}

/// The state after a self-closing tag: a paragraph or run property counts in this form as
/// it does with an opening tag.
pub open spec fn docx_on_empty(s: DocxStateView, ev: XmlEventView) -> DocxStateView {
    if ev.name == lit("w:pStyle") {
        docx_with_para_style(s, ev)
    } else {
        docx_with_property(s, ev)
    }
}

/// The state after a closing tag.
pub open spec fn docx_on_end(s: DocxStateView, ev: XmlEventView, styles: StylesView) -> DocxStateView {
    if ev.name == lit("w:p") {
        docx_close_paragraph(s)
    } else if ev.name == lit("w:r") {
        DocxStateView { in_run: false, ..docx_flush_run(s, styles) }
    } else if ev.name == lit("w:rPr") {
        DocxStateView { in_run_props: false, ..s }
    } else {
        s
    }
}

/// The state after character data: inside a run, text that unescapes joins the run's text.
pub open spec fn docx_on_text(s: DocxStateView, ev: XmlEventView) -> DocxStateView {
    if s.in_run {
        match spec_event_text(ev.content) {
            Some(t) => DocxStateView { run_text: s.run_text + t, ..s },
            None => s,
        }
    } else {
        s
    }
}

/// The state after one event that is neither an error nor the opening tag of a table.
pub open spec fn docx_step(s: DocxStateView, ev: XmlEventView, styles: StylesView) -> DocxStateView {
    if ev.kind == XmlEventKind::Start {
        docx_on_start(s, ev, styles)
    } else if ev.kind == XmlEventKind::Empty {
        docx_on_empty(s, ev)
    } else if ev.kind == XmlEventKind::End {
        docx_on_end(s, ev, styles)
    } else if ev.kind == XmlEventKind::Text {
        docx_on_text(s, ev)
    } else {
        s
    }
}

/// The state after a table: a table that parsed joins the page being filled, one that did
/// not is passed over.
pub open spec fn docx_with_table(
    s: DocxStateView,
    table: Result<crate::document::TableBlockView, ErrorView>,
) -> DocxStateView {
    match table {
        Ok(t) => DocxStateView { content: s.content.push(ContentBlockView::Table(t)), ..s },
        Err(_) => s,
    }
}

/// The pages at the end of the walk: what is left of content makes a last page, and a
/// document without any content has one empty page.
pub open spec fn docx_finish(s: DocxStateView) -> Seq<PageView> {
    let pages = if s.content.len() > 0 {
        s.pages.push(page_of(page_number(s.pages.len()), letter_size(), s.content, None))
    } else {
        s.pages
    };
    if pages.len() == 0 {
        seq![page_of(1, letter_size(), Seq::empty(), None)]
    } else {
        pages
    }
}

/// The pages that the events from `pos` on lead to, starting in state `s`. An error event
/// ends the walk; what was read before it stands.
pub open spec fn docx_from(
    events: Seq<XmlEventView>,
    pos: int,
    s: DocxStateView,
    styles: StylesView,
) -> Seq<PageView>
    decreases events.len() - pos,
{
    if pos < 0 || pos >= events.len() {
        docx_finish(s)
    } else {
        let ev = events[pos];
        if ev.kind == XmlEventKind::Error {
            docx_finish(s)
        } else if ev.kind == XmlEventKind::Start && ev.name == lit("w:tbl") {
            let table = spec_parse_table(events, pos + 1);
            docx_from(events, advance(events, pos, table.1), docx_with_table(s, table.0), styles)
        } else {
            docx_from(events, pos + 1, docx_step(s, ev, styles), styles)
        }
    }
}

/// The pages of a main part, given by its events and the style sheet.
pub open spec fn docx_pages(events: Seq<XmlEventView>, styles: StylesView) -> Seq<PageView> {
    docx_from(events, 0, docx_start(), styles)
}

impl DocxState {
    pub fn new() -> (s: DocxState)
        ensures
            s.deep_view() == docx_start(),
    {
        let s = DocxState {
            pages: Vec::new(),
            content: no_blocks(),
            in_paragraph: false,
            runs: Vec::new(),
            para_style: None,
            in_run: false,
            run_text: String::new(),
            run_style: TextStyle::default(),
            in_run_props: false,
            para_count: 0,
        };
        assert(s.pages.deep_view() =~= Seq::<PageView>::empty());
        assert(s.runs.deep_view() =~= Seq::<TextRunView>::empty());
        s
    }

    fn flush_run(&mut self, styles: &Styles)
        ensures
            final(self).deep_view() == docx_flush_run(old(self).deep_view(), styles.deep_view()),
    {
        if self.run_text.as_str().unicode_len() != 0 {
            let style = match &self.para_style {
                Some(id) => styles.resolve_text_style(Some(id.as_str()), &self.run_style),
                None => styles.resolve_text_style(None, &self.run_style),
            };
            let ghost before = self.runs.deep_view();
            let run = TextRun::from_parts(self.run_text.clone(), style);
            self.runs.push(run);
            assert(self.runs.deep_view() =~= before.push(run.deep_view()));
        }
    }

    fn close_paragraph(&mut self)
        ensures
            final(self).deep_view() == docx_close_paragraph(old(self).deep_view()),
    {
        if self.runs.len() != 0 {
            let block = TextBlock {
                bounds: Rect::default(),
                runs: copy_runs(&self.runs),
                paragraph_style: copy_opt_string(&self.para_style),
                style: ShapeStyle::default(),
                rotation: 0,
            };
            push_block(&mut self.content, ContentBlock::Text(block));
            if self.para_count >= PARAS_PER_PAGE as u128 {
                let mut content = no_blocks();
                std::mem::swap(&mut content, &mut self.content);
                let ghost before = self.pages.deep_view();
                let page = Page::with_content(
                    next_page_number(self.pages.len()),
                    Dimensions::letter(),
                    content,
                    None,
                );
                self.pages.push(page);
                assert(self.pages.deep_view() =~= before.push(page.deep_view()));
                self.para_count = 0;
            }
        }
        self.in_paragraph = false;
    }

    fn with_flag(&mut self, ev: &XmlEvent)
        ensures
            final(self).deep_view() == docx_with_flag(old(self).deep_view(), ev.deep_view()),
    {
        if self.in_run_props {
            if ev.named("w:b") {
                self.run_style.bold = true;
            } else if ev.named("w:i") {
                self.run_style.italic = true;
            } else if ev.named("w:u") {
                self.run_style.underline = true;
            }
        }
    }

    fn with_para_style(&mut self, ev: &XmlEvent)
        ensures
            final(self).deep_view() == docx_with_para_style(old(self).deep_view(), ev.deep_view()),
    {
        match last_attr(&ev.attrs, "w:val") {
            Some(v) => {
                self.para_style = Some(attr_value(v.as_slice()));
            },
            None => {},
        }
    }

    fn with_property(&mut self, ev: &XmlEvent)
        ensures
            final(self).deep_view() == docx_with_property(old(self).deep_view(), ev.deep_view()),
    {
        if !self.in_run_props {
        } else if ev.named("w:color") {
            match last_attr(&ev.attrs, "w:val") {
                Some(v) => match hash_color(v.as_slice()) {
                    Some(c) => {
                        self.run_style.color = Some(c);
                    },
                    None => {},
                },
                None => {},
            }
        } else if ev.named("w:sz") {
            match last_attr(&ev.attrs, "w:val") {
                Some(v) => match parse_scaled(v.as_slice(), 2) {
                    Some(n) => {
                        self.run_style.font_size = Some(half(n));
                    },
                    None => {},
                },
                None => {},
            }
        } else if ev.named("w:rFonts") {
            match last_attr(&ev.attrs, "w:ascii") {
                Some(v) => {
                    self.run_style.font_family = Some(attr_value(v.as_slice()));
                },
                None => {},
            }
        } else {
            self.with_flag(ev);
        }
    }

    fn on_start(&mut self, ev: &XmlEvent, styles: &Styles)
        requires
            old(self).para_count <= usize::MAX,
        ensures
            final(self).deep_view() == docx_on_start(
                old(self).deep_view(),
                ev.deep_view(),
                styles.deep_view(),
            ),
            final(self).para_count <= old(self).para_count + 1,
    {
        if ev.named("w:p") {
            self.in_paragraph = true;
            self.runs = Vec::new();
            assert(self.runs.deep_view() =~= Seq::<TextRunView>::empty());
            self.para_style = None;
            self.para_count = self.para_count + 1;
        } else if ev.named("w:pStyle") {
            self.with_para_style(ev);
        } else if ev.named("w:r") {
            if self.in_paragraph {
                if self.in_run {
                    self.flush_run(styles);
                }
                self.in_run = true;
                self.run_text = String::new();
                self.run_style = TextStyle::default();
            }
        } else if ev.named("w:rPr") {
            self.in_run_props = true;
        } else {
            self.with_property(ev);
        }
    }

    fn on_end(&mut self, ev: &XmlEvent, styles: &Styles)
        ensures
            final(self).deep_view() == docx_on_end(
                old(self).deep_view(),
                ev.deep_view(),
                styles.deep_view(),
            ),
            final(self).para_count <= old(self).para_count,
    {
        if ev.named("w:p") {
            self.close_paragraph();
        } else if ev.named("w:r") {
            self.flush_run(styles);
            self.in_run = false;
        } else if ev.named("w:rPr") {
            self.in_run_props = false;
        }
    }

    fn on_text(&mut self, ev: &XmlEvent)
        ensures
            final(self).deep_view() == docx_on_text(old(self).deep_view(), ev.deep_view()),
    {
        if self.in_run {
            match event_text(ev.content.as_slice()) {
                Some(t) => {
                    self.run_text.append(t.as_str());
                },
                None => {},
            }
        }
    }

    /// Takes in one event that is neither an error nor the opening tag of a table.
    pub fn step(&mut self, ev: &XmlEvent, styles: &Styles)
        requires
            old(self).para_count <= usize::MAX,
        ensures
            final(self).deep_view() == docx_step(
                old(self).deep_view(),
                ev.deep_view(),
                styles.deep_view(),
            ),
            final(self).para_count <= old(self).para_count + 1,
    {
        match ev.kind {
            XmlEventKind::Start => self.on_start(ev, styles),
            XmlEventKind::Empty => {
                if ev.named("w:pStyle") {
                    self.with_para_style(ev);
                } else {
                    self.with_property(ev);
                }
            },
            XmlEventKind::End => self.on_end(ev, styles),
            XmlEventKind::Text => self.on_text(ev),
            _ => {},
        }
    }

    fn finish(self) -> (pages: Vec<Page>)
        ensures
            pages.deep_view() == docx_finish(self.deep_view()),
            pages.len() >= 1,
    {
        let mut pages = self.pages;
        if self.content.len() != 0 {
            let page = Page::with_content(
                next_page_number(pages.len()),
                Dimensions::letter(),
                self.content,
                None,
            );
            pages.push(page);
        }
        if pages.len() == 0 {
            let page = Page::new(1, Dimensions::letter());
            pages.push(page);
        }
        pages
    }
}

/// Walks the events of a main part (read without trimming text) and gives the pages.
pub fn parse_document_events(events: &Vec<XmlEvent>, styles: &Styles) -> (pages: Vec<Page>)
    ensures
        pages.deep_view() == docx_pages(events.deep_view(), styles.deep_view()),
        pages.len() >= 1,
{
    let mut state = DocxState::new();
    let mut i: usize = 0;
    while i < events.len()
        invariant
            i <= events.len(),
            state.para_count <= i,
            docx_from(events.deep_view(), i as int, state.deep_view(), styles.deep_view())
                == docx_pages(events.deep_view(), styles.deep_view()),
        decreases events.len() - i,
    {
        let ev = &events[i];
        if ev.kind == XmlEventKind::Error {
            return state.finish();
        }
        if ev.kind == XmlEventKind::Start && ev.named("w:tbl") {
            let (table, next) = parse_table(events, i + 1);
            match table {
                Ok(t) => {
                    push_block(&mut state.content, ContentBlock::Table(t));
                },
                Err(_) => {},
            }
            i = next;
        } else {
            state.step(ev, styles);
            i += 1;
        }
    }
    state.finish()
}

/// The parser for word-processing packages.
#[derive(Debug, Clone, Copy)]
pub struct DocxParser;

/// The style sheet of a package: that of `word/styles.xml`, or the empty one where the part
/// is missing or malformed.
pub open spec fn docx_styles(data: Seq<u8>) -> StylesView {
    let part = match text_entry(zip_entry(data, "word/styles.xml"@)) {
        ZipEntryView::Missing => None,
        ZipEntryView::Unreadable(_) => Some(Seq::<u8>::empty()),
        ZipEntryView::Data(bytes) => Some(bytes),
    };
    match part {
        Some(bytes) => match styles_of_events(xml_events(bytes, true)) {
            Ok(styles) => styles,
            Err(_) => empty_styles(),
        },
        None => empty_styles(),
    }
}

/// The metadata of a parsed package: the file name as title, and the format's name under
/// the custom key `format`.
pub open spec fn package_metadata(filename: Option<Seq<char>>, format: Seq<char>) -> MetadataView {
    MetadataView {
        title: filename,
        custom: custom_insert(Seq::empty(), "format"@, MetadataValueView::String(format)),
        ..empty_metadata()
    }
}

/// The document that a word-processing package holds. The package must open as a ZIP
/// archive and hold a readable `word/document.xml` whose markup is neither broken nor cut
/// short.
pub open spec fn docx_document(data: Seq<u8>, filename: Option<Seq<char>>) -> Result<
    DocumentView,
    ErrorView,
> {
    match zip_open_error(data) {
        Some(why) => Err(ErrorView::ParseError("Failed to open DOCX ZIP: "@ + why)),
        None => match text_entry(zip_entry(data, "word/document.xml"@)) {
            ZipEntryView::Missing => Err(ErrorView::ParseError("word/document.xml not found"@)),
            ZipEntryView::Unreadable(why) => Err(
                ErrorView::ParseError("Failed to read document.xml: "@ + why),
            ),
            ZipEntryView::Data(bytes) => match part_fault(xml_events(bytes, false)) {
                Some(why) => Err(ErrorView::ParseError("word/document.xml: "@ + why)),
                None => Ok(
                    DocumentView {
                        source: crate::document::unknown_source(),
                        metadata: package_metadata(filename, "DOCX"@),
                        pages: docx_pages(xml_events(bytes, false), docx_styles(data)),
                        images: Seq::empty(),
                        bare: true,
                    },
                ),
            },
        },
    }
}

/// The metadata of a parsed package.
pub fn make_package_metadata(filename: Option<String>, format: &str) -> (r: Metadata)
    ensures
        r.deep_view() == package_metadata(filename.deep_view(), format@),
{
    let mut metadata = Metadata::new();
    metadata.title = filename;
    metadata.add_custom("format", MetadataValue::text(format));
    metadata
}

fn load_styles(data: &[u8]) -> (r: Styles)
    ensures
        r.deep_view() == docx_styles(data@),
{
    let part: Option<Vec<u8>> = match zip_read_text(data, "word/styles.xml") {
        ZipEntry::Missing => None,
        ZipEntry::Unreadable(_) => Some(Vec::new()),
        ZipEntry::Data(bytes) => Some(bytes),
    };
    match part {
        Some(bytes) => {
            let events = read_events(bytes.as_slice(), true);
            match Styles::from_events(&events) {
                Ok(styles) => styles,
                Err(_) => Styles::new(),
            }
        },
        None => Styles::new(),
    }
}

impl DocxParser {
    pub fn new() -> (r: DocxParser) {
        DocxParser
    }

    /// The format that this parser handles.
    pub fn format(&self) -> (r: Format)
        ensures
            r.deep_view() == docx_format(),
    {
        Format::docx()
    }

    /// Whether `data` is a ZIP archive that holds `word/document.xml`.
    pub open spec fn spec_is_docx_zip(data: Seq<u8>) -> bool {
        data.len() >= 4 && data[0] == 0x50 && data[1] == 0x4B && !(zip_entry(
            data,
            "word/document.xml"@,
        ) is Missing)
    }

    pub fn is_docx_zip(data: &[u8]) -> (r: bool)
        ensures
            r == Self::spec_is_docx_zip(data@),
    {
        if data.len() < 4 || data[0] != 0x50 || data[1] != 0x4B {
            return false;
        }
        match zip_read(data, "word/document.xml") {
            ZipEntry::Missing => false,
            _ => true,
        }
    }

    /// A cheap check that `data` is a word-processing package.
    pub fn can_parse(&self, data: &[u8]) -> (r: bool)
        ensures
            r == Self::spec_is_docx_zip(data@),
    {
        Self::is_docx_zip(data)
    }

    /// Parses a word-processing package into a document.
    pub fn parse(&self, data: &[u8], context: ParseContext) -> (r: Result<Document, Error>)
        ensures
            result_view(r) == docx_document(data@, context.filename.deep_view()),
    {
        match zip_check(data) {
            Some(why) => {
                return Err(Error::parse_with("Failed to open DOCX ZIP: ", why.as_str()));
            },
            None => {},
        }
        let styles = load_styles(data);
        match zip_read_text(data, "word/document.xml") {
            ZipEntry::Missing => Err(Error::parse("word/document.xml not found")),
            ZipEntry::Unreadable(why) => Err(
                Error::parse_with("Failed to read document.xml: ", why.as_str()),
            ),
            ZipEntry::Data(bytes) => {
                let events = read_events(bytes.as_slice(), false);
                match check_part(&events) {
                    Some(why) => {
                        return Err(Error::parse_with("word/document.xml: ", why.as_str()));
                    },
                    None => {},
                }
                let pages = parse_document_events(&events, &styles);
                let metadata = make_package_metadata(context.filename, "DOCX");
                let images: Vec<crate::document::ImageResource> = Vec::new();
                assert(images.deep_view() =~= Seq::<crate::document::ImageResourceView>::empty());
                Ok(Document::assemble(metadata, pages, images))
            },
        }
    }

    /// What this parser says of itself.
    pub fn metadata(&self) -> (r: ParserMetadata)
        ensures
            r.deep_view() == (ParserMetadataView {
                name: "DOCX Parser"@,
                version: crate::VERSION@,
                features: seq![ParserFeature::TextExtraction, ParserFeature::MetadataExtraction],
                requires_sandbox: false,
            }),
    {
        let mut features: Vec<ParserFeature> = Vec::new();
        features.push(ParserFeature::TextExtraction);
        features.push(ParserFeature::MetadataExtraction);
        assert(features@ =~= seq![
            ParserFeature::TextExtraction,
            ParserFeature::MetadataExtraction,
        ]);
        ParserMetadata::of("DOCX Parser", features)
    }
}

/// Whether each page bears the number of its place, counted from 1.
pub open spec fn pages_numbered(pages: Seq<PageView>) -> bool {
    forall|i: int| 0 <= i < pages.len() ==> (#[trigger] pages[i]).number == page_number(i as nat)
}

pub proof fn lemma_docx_step_numbered(s: DocxStateView, ev: XmlEventView, styles: StylesView)
    requires
        pages_numbered(s.pages),
    ensures
        pages_numbered(docx_step(s, ev, styles).pages),
{
    let after = docx_step(s, ev, styles);
    if after.pages != s.pages {
        assert(ev.kind == XmlEventKind::End && ev.name == lit("w:p"));
        let content = s.content.push(paragraph_block(s.runs, s.para_style));
        let page = page_of(page_number(s.pages.len()), letter_size(), content, None);
        assert(after.pages == s.pages.push(page));
        assert forall|i: int| 0 <= i < after.pages.len() implies (#[trigger] after.pages[i]).number
            == page_number(i as nat) by {
            if i < s.pages.len() {
                assert(after.pages[i] == s.pages[i]);
            }
        }
    }
}

pub proof fn lemma_docx_finish_numbered(s: DocxStateView)
    requires
        pages_numbered(s.pages),
    ensures
        pages_numbered(docx_finish(s)),
        docx_finish(s).len() >= 1,
{
    let done = docx_finish(s);
    assert forall|i: int| 0 <= i < done.len() implies (#[trigger] done[i]).number == page_number(
        i as nat,
    ) by {
        if i < s.pages.len() {
            assert(done[i] == s.pages[i]);
        }
    }
}

pub proof fn lemma_docx_from_numbered(
    events: Seq<XmlEventView>,
    pos: int,
    s: DocxStateView,
    styles: StylesView,
)
    requires
        pages_numbered(s.pages),
    ensures
        pages_numbered(docx_from(events, pos, s, styles)),
        docx_from(events, pos, s, styles).len() >= 1,
    decreases events.len() - pos,
{
    if pos < 0 || pos >= events.len() {
        lemma_docx_finish_numbered(s);
    } else {
        let ev = events[pos];
        if ev.kind == XmlEventKind::Error {
            lemma_docx_finish_numbered(s);
        } else if ev.kind == XmlEventKind::Start && ev.name == lit("w:tbl") {
            let table = spec_parse_table(events, pos + 1);
            lemma_docx_from_numbered(
                events,
                advance(events, pos, table.1),
                docx_with_table(s, table.0),
                styles,
            );
        } else {
            lemma_docx_step_numbered(s, ev, styles);
            lemma_docx_from_numbered(events, pos + 1, docx_step(s, ev, styles), styles);
        }
    }
}

/// The pages of a document are numbered from 1 in the order in which they come, so that
/// their numbers rise strictly, and there is always at least one page.
pub proof fn law_docx_pages_are_numbered(events: Seq<XmlEventView>, styles: StylesView)
    ensures
        docx_pages(events, styles).len() >= 1,
        pages_numbered(docx_pages(events, styles)),
        forall|i: int, j: int|
            0 <= i < j < docx_pages(events, styles).len() && j < u32::MAX ==> 1 <= (
            #[trigger] docx_pages(events, styles)[i]).number < (#[trigger] docx_pages(
                events,
                styles,
            )[j]).number,
{
    lemma_docx_from_numbered(events, 0, docx_start(), styles);
    let pages = docx_pages(events, styles);
    assert forall|i: int, j: int| 0 <= i < j < pages.len() && j < u32::MAX implies 1 <= (
    #[trigger] pages[i]).number < (#[trigger] pages[j]).number by {
        assert(pages[i].number == page_number(i as nat));
        assert(pages[j].number == page_number(j as nat));
    }
}

/// The pages of a word-processing document bear numbers from 1 upwards that rise strictly
/// in the order of the pages.
pub proof fn law_docx_numbers_rise(data: Seq<u8>, filename: Option<Seq<char>>)
    ensures
        docx_document(data, filename) matches Ok(document) ==> pages_rise(document.pages),
{
    match text_entry(zip_entry(data, "word/document.xml"@)) {
        ZipEntryView::Data(bytes) => {
            let pages = docx_pages(xml_events(bytes, false), docx_styles(data));
            law_docx_pages_are_numbered(xml_events(bytes, false), docx_styles(data));
            assert forall|i: int| 0 <= i < pages.len() implies (#[trigger] pages[i]).number
                >= 1 by {
                assert(pages[i].number == page_number(i as nat));
            }
            assert forall|i: int, j: int| 0 <= i < j < pages.len() implies (
            #[trigger] pages[i]).number < (#[trigger] pages[j]).number || pages[j].number
                == u32::MAX by {
                assert(pages[i].number == page_number(i as nat));
                assert(pages[j].number == page_number(j as nat));
            }
        },
        _ => {},
    }
}

impl Parser for DocxParser {
    open spec fn handled(&self) -> FormatView {
        docx_format()
    }

    open spec fn accepts(&self, data: Seq<u8>) -> bool {
        DocxParser::spec_is_docx_zip(data)
    }

    open spec fn outcome(&self, data: Seq<u8>, filename: Option<Seq<char>>) -> Result<
        DocumentView,
        ErrorView,
    > {
        docx_document(data, filename)
    }

    open spec fn described(&self) -> ParserMetadataView {
        ParserMetadataView {
            name: "DOCX Parser"@,
            version: crate::VERSION@,
            features: seq![ParserFeature::TextExtraction, ParserFeature::MetadataExtraction],
            requires_sandbox: false,
        }
    }

    fn format(&self) -> (r: Format) {
        DocxParser::format(self)
    }

    fn can_parse(&self, data: &[u8]) -> (r: bool) {
        DocxParser::can_parse(self, data)
    }

    fn parse(&self, data: &[u8], context: ParseContext) -> (r: Result<Document, Error>) {
        DocxParser::parse(self, data, context)
    }

    fn metadata(&self) -> (r: ParserMetadata) {
        DocxParser::metadata(self)
    }
}

} // verus!
