//! Spreadsheet style sheets: fonts, fills and cell formats.

use vstd::prelude::*;
use vstd::string::StringSliceAdditionalSpecFns;
use crate::document::copy_opt_string;
use crate::document::plain_text_style;
use crate::document::TextStyle;
use crate::document::TextStyleView;
use crate::error::Error;
use crate::error::ErrorView;
use crate::tables::advance;
use crate::text::attr_value;
use crate::text::concat;
use crate::text::lit;
use crate::text::parse_i64;
use crate::text::parse_scaled;
use crate::text::parse_usize;
use crate::text::spec_parse_i64;
use crate::text::spec_parse_scaled;
use crate::text::spec_parse_usize;
use crate::text::utf8_lossy;
use crate::theme::Theme;
use crate::theme::ThemeView;
use crate::utils::resolve_word_color;
use crate::utils::spec_resolve_word_color;
use crate::xml::attr_first;
use crate::xml::attr_last;
use crate::xml::first_attr;
use crate::xml::last_attr;
use crate::xml::read_events;
use crate::xml::result_view;
use crate::xml::xml_events;
use crate::xml::XmlAttr;
use crate::xml::XmlAttrView;
use crate::xml::XmlEvent;
use crate::xml::XmlEventKind;
use crate::xml::XmlEventView;

verus! {

/// A font of a spreadsheet.
#[derive(Debug, Clone)]
pub struct ExcelFont {
    pub name: String,
    /// Size in hundredths of a point.
    pub size: i64,
    pub color: Option<String>,
    pub bold: bool,
    pub italic: bool,
    pub underline: bool,
}

pub ghost struct ExcelFontView {
    pub name: Seq<char>,
    pub size: i64,
    pub color: Option<Seq<char>>,
    pub bold: bool,
    pub italic: bool,
    pub underline: bool,
}

impl DeepView for ExcelFont {
    type V = ExcelFontView;

    open spec fn deep_view(&self) -> ExcelFontView {
        ExcelFontView {
            name: self.name@,
            size: self.size,
            color: self.color.deep_view(),
            bold: self.bold,
            italic: self.italic,
            underline: self.underline,
        }
    }
}

/// The font that sets nothing.
pub open spec fn blank_font() -> ExcelFontView {
    ExcelFontView {
        name: Seq::empty(),
        size: 0,
        color: None,
        bold: false,
        italic: false,
        underline: false,
    }
}

impl Default for ExcelFont {
    fn default() -> (r: ExcelFont)
        ensures
            r.deep_view() == blank_font(),
    {
        ExcelFont {
            name: String::new(),
            size: 0,
            color: None,
            bold: false,
            italic: false,
            underline: false,
        }
    }
}

/// A fill (background) of a spreadsheet.
#[derive(Debug, Clone)]
pub struct ExcelFill {
    pub pattern_type: String,
    pub fg_color: Option<String>,
    pub bg_color: Option<String>,
}

pub ghost struct ExcelFillView {
    pub pattern_type: Seq<char>,
    pub fg_color: Option<Seq<char>>,
    pub bg_color: Option<Seq<char>>,
}

impl DeepView for ExcelFill {
    type V = ExcelFillView;

    open spec fn deep_view(&self) -> ExcelFillView {
        ExcelFillView {
            pattern_type: self.pattern_type@,
            fg_color: self.fg_color.deep_view(),
            bg_color: self.bg_color.deep_view(),
        }
    }
}

/// The fill that sets nothing.
pub open spec fn blank_fill() -> ExcelFillView {
    ExcelFillView { pattern_type: Seq::empty(), fg_color: None, bg_color: None }
}

impl Default for ExcelFill {
    fn default() -> (r: ExcelFill)
        ensures
            r.deep_view() == blank_fill(),
    {
        ExcelFill { pattern_type: String::new(), fg_color: None, bg_color: None }
    }
}

/// A cell format: indices into the fonts, fills and borders, and the alignment.
#[derive(Debug, Clone)]
pub struct CellXf {
    pub font_id: usize,
    pub fill_id: usize,
    pub border_id: usize,
    pub num_fmt_id: usize,
    pub align_h: Option<String>,
    pub align_v: Option<String>,
}

pub ghost struct CellXfView {
    pub font_id: usize,
    pub fill_id: usize,
    pub border_id: usize,
    pub num_fmt_id: usize,
    pub align_h: Option<Seq<char>>,
    pub align_v: Option<Seq<char>>,
}

impl DeepView for CellXf {
    type V = CellXfView;

    open spec fn deep_view(&self) -> CellXfView {
        CellXfView {
            font_id: self.font_id,
            fill_id: self.fill_id,
            border_id: self.border_id,
            num_fmt_id: self.num_fmt_id,
            align_h: self.align_h.deep_view(),
            align_v: self.align_v.deep_view(),
        }
    }
}

/// The cell format that points at the first font and fill and sets no alignment.
pub open spec fn blank_xf() -> CellXfView {
    CellXfView { font_id: 0, fill_id: 0, border_id: 0, num_fmt_id: 0, align_h: None, align_v: None }
}

impl Default for CellXf {
    fn default() -> (r: CellXf)
        ensures
            r.deep_view() == blank_xf(),
    {
        CellXf { font_id: 0, fill_id: 0, border_id: 0, num_fmt_id: 0, align_h: None, align_v: None }
    }
}

/// All styles of a workbook.
#[derive(Debug, Clone)]
pub struct ExcelStyles {
    pub fonts: Vec<ExcelFont>,
    pub fills: Vec<ExcelFill>,
    pub cell_xfs: Vec<CellXf>,
}

pub ghost struct ExcelStylesView {
    pub fonts: Seq<ExcelFontView>,
    pub fills: Seq<ExcelFillView>,
    pub cell_xfs: Seq<CellXfView>,
}

impl DeepView for ExcelStyles {
    type V = ExcelStylesView;

    open spec fn deep_view(&self) -> ExcelStylesView {
        ExcelStylesView {
            fonts: self.fonts.deep_view(),
            fills: self.fills.deep_view(),
            cell_xfs: self.cell_xfs.deep_view(),
        }
    }
}

impl Default for ExcelStyles {
    fn default() -> (r: ExcelStyles)
        ensures
            r.deep_view() == (ExcelStylesView {
                fonts: Seq::empty(),
                fills: Seq::empty(),
                cell_xfs: Seq::empty(),
            }),
    {
        let r = ExcelStyles { fonts: Vec::new(), fills: Vec::new(), cell_xfs: Vec::new() };
        assert(r.fonts.deep_view() =~= Seq::<ExcelFontView>::empty());
        assert(r.fills.deep_view() =~= Seq::<ExcelFillView>::empty());
        assert(r.cell_xfs.deep_view() =~= Seq::<CellXfView>::empty());
        r
    }
}

/// The colour slot of a theme that a theme index names.
pub open spec fn theme_slot(idx: i64) -> Option<Seq<char>> {
    if idx == 0 {
        Some("lt1"@)
    } else if idx == 1 {
        Some("dk1"@)
    } else if idx == 2 {
        Some("lt2"@)
    } else if idx == 3 {
        Some("dk2"@)
    } else if idx == 4 {
        Some("accent1"@)
    } else if idx == 5 {
        Some("accent2"@)
    } else if idx == 6 {
        Some("accent3"@)
    } else if idx == 7 {
        Some("accent4"@)
    } else if idx == 8 {
        Some("accent5"@)
    } else if idx == 9 {
        Some("accent6"@)
    } else if idx == 10 {
        Some("hlink"@)
    } else if idx == 11 {
        Some("folHlink"@)
    } else {
        None
    }
}

/// The view of an optional string slice.
pub open spec fn opt_str(value: Option<&'static str>) -> Option<Seq<char>> {
    match value {
        Some(s) => Some(s@),
        None => None,
    }
}

/// The colour slot that a theme index names.
pub fn map_theme_index(idx: i64) -> (r: Option<&'static str>)
    ensures
        opt_str(r) == theme_slot(idx),
{
    if idx == 0 {
        Some("lt1")
    } else if idx == 1 {
        Some("dk1")
    } else if idx == 2 {
        Some("lt2")
    } else if idx == 3 {
        Some("dk2")
    } else if idx == 4 {
        Some("accent1")
    } else if idx == 5 {
        Some("accent2")
    } else if idx == 6 {
        Some("accent3")
    } else if idx == 7 {
        Some("accent4")
    } else if idx == 8 {
        Some("accent5")
    } else if idx == 9 {
        Some("accent6")
    } else if idx == 10 {
        Some("hlink")
    } else if idx == 11 {
        Some("folHlink")
    } else {
        None
    }
}

/// The colour that the attributes of a colour element give: `rgb` directly; else the theme
/// colour of the index `theme`, with the `tint` applied, where there is a theme.
pub open spec fn color_of_attrs(attrs: Seq<XmlAttrView>, theme: Option<ThemeView>) -> Option<
    Seq<char>,
> {
    let idx = match attr_last(attrs, lit("theme")) {
        Some(v) => spec_parse_i64(v),
        None => None,
    };
    let tint = match attr_last(attrs, lit("tint")) {
        Some(v) => spec_parse_scaled(v, 6),
        None => None,
    };
    match attr_last(attrs, lit("rgb")) {
        Some(rgb) => Some("#"@ + utf8_lossy(rgb)),
        None => match (idx, theme) {
            (Some(i), Some(t)) => match theme_slot(i) {
                Some(slot) => spec_resolve_word_color(None, Some(slot), tint, t),
                None => None,
            },
            _ => None,
        },
    }
}

fn read_color(attrs: &Vec<XmlAttr>, theme: Option<&Theme>) -> (r: Option<String>)
    ensures
        r.deep_view() == color_of_attrs(attrs.deep_view(), theme.deep_view()),
{
    let idx = match last_attr(attrs, "theme") {
        Some(v) => parse_i64(v.as_slice()),
        None => None,
    };
    let tint = match last_attr(attrs, "tint") {
        Some(v) => parse_scaled(v.as_slice(), 6),
        None => None,
    };
    match last_attr(attrs, "rgb") {
        Some(rgb) => {
            let text = attr_value(rgb.as_slice());
            Some(concat("#", text.as_str()))
        },
        None => match (idx, theme) {
            (Some(i), Some(t)) => match map_theme_index(i) {
                Some(slot) => resolve_word_color(None, Some(slot), tint, None, t),
                None => None,
            },
            _ => None,
        },
    }
}

/// The font after a self-closing child element.
pub open spec fn font_with(font: ExcelFontView, ev: XmlEventView, theme: Option<ThemeView>) -> ExcelFontView {
    if ev.name == lit("sz") {
        match attr_first(ev.attrs, lit("val")) {
            Some(v) => match spec_parse_scaled(v, 2) {
                Some(n) => ExcelFontView { size: n, ..font },
                None => font,
            },
            None => font,
        }
    } else if ev.name == lit("name") {
        match attr_first(ev.attrs, lit("val")) {
            Some(v) => ExcelFontView { name: utf8_lossy(v), ..font },
            None => font,
        }
    } else if ev.name == lit("color") {
        ExcelFontView { color: color_of_attrs(ev.attrs, theme), ..font }
    } else if ev.name == lit("b") {
        ExcelFontView { bold: true, ..font }
    } else if ev.name == lit("i") {
        ExcelFontView { italic: true, ..font }
    } else if ev.name == lit("u") {
        ExcelFontView { underline: true, ..font }
    } else {
        font
    }
}

/// The font that the events from `pos` on complete, and the position behind it. The font
/// ends with the closing tag `font`, or with the input; an error event fails it.
pub open spec fn font_from(
    events: Seq<XmlEventView>,
    pos: int,
    font: ExcelFontView,
    theme: Option<ThemeView>,
) -> (Result<ExcelFontView, ErrorView>, int)
    decreases events.len() - pos,
{
    if pos < 0 || pos >= events.len() {
        (Ok(font), pos)
    } else {
        let ev = events[pos];
        if ev.kind == XmlEventKind::Error {
            (Err(ErrorView::ParseError("XML error in font: "@ + ev.message)), pos + 1)
        } else if ev.kind == XmlEventKind::Empty {
            font_from(events, pos + 1, font_with(font, ev, theme), theme)
        } else if ev.kind == XmlEventKind::End && ev.name == lit("font") {
            (Ok(font), pos + 1)
        } else {
            font_from(events, pos + 1, font, theme)
        }
    }
}

fn apply_font(font: &mut ExcelFont, ev: &XmlEvent, theme: Option<&Theme>)
    ensures
        final(font).deep_view() == font_with(
            old(font).deep_view(),
            ev.deep_view(),
            theme.deep_view(),
        ),
{
    if ev.named("sz") {
        match first_attr(&ev.attrs, "val") {
            Some(v) => match parse_scaled(v.as_slice(), 2) {
                Some(n) => {
                    font.size = n;
                },
                None => {},
            },
            None => {},
        }
    } else if ev.named("name") {
        match first_attr(&ev.attrs, "val") {
            Some(v) => {
                font.name = attr_value(v.as_slice());
            },
            None => {},
        }
    } else if ev.named("color") {
        font.color = read_color(&ev.attrs, theme);
    } else if ev.named("b") {
        font.bold = true;
    } else if ev.named("i") {
        font.italic = true;
    } else if ev.named("u") {
        font.underline = true;
    }
}

fn parse_font(events: &Vec<XmlEvent>, pos: usize, theme: Option<&Theme>) -> (r: (
    Result<ExcelFont, Error>,
    usize,
))
    ensures
        result_view(r.0) == font_from(
            events.deep_view(),
            pos as int,
            blank_font(),
            theme.deep_view(),
        ).0,
        r.1 == font_from(events.deep_view(), pos as int, blank_font(), theme.deep_view()).1,
        pos <= r.1,
        pos < events.len() ==> pos < r.1 <= events.len(),
{
    let mut font = ExcelFont::default();
    let mut i: usize = pos;
    while i < events.len()
        invariant
            pos <= i,
            pos < events.len() ==> i <= events.len(),
            font_from(events.deep_view(), i as int, font.deep_view(), theme.deep_view())
                == font_from(events.deep_view(), pos as int, blank_font(), theme.deep_view()),
        decreases events.len() - i,
    {
        let ev = &events[i];
        match ev.kind {
            XmlEventKind::Error => {
                return (
                    Err(Error::parse_with("XML error in font: ", ev.message.as_str())),
                    i + 1,
                );
            },
            XmlEventKind::Empty => {
                apply_font(&mut font, ev, theme);
            },
            XmlEventKind::End => {
                if ev.named("font") {
                    return (Ok(font), i + 1);
                }
            },
            _ => {},
        }
        i += 1;
    }
    (Ok(font), i)
}

/// The fill after the pattern type of a `patternFill` element.
pub open spec fn fill_with_pattern(fill: ExcelFillView, ev: XmlEventView) -> ExcelFillView {
    if ev.name == lit("patternFill") {
        match attr_first(ev.attrs, lit("patternType")) {
            Some(v) => ExcelFillView { pattern_type: utf8_lossy(v), ..fill },
            None => fill,
        }
    } else {
        fill
    }
}

/// The fill after a self-closing child element.
pub open spec fn fill_with(fill: ExcelFillView, ev: XmlEventView, theme: Option<ThemeView>) -> ExcelFillView {
    if ev.name == lit("patternFill") {
        fill_with_pattern(fill, ev)
    } else if ev.name == lit("fgColor") {
        ExcelFillView { fg_color: color_of_attrs(ev.attrs, theme), ..fill }
    } else if ev.name == lit("bgColor") {
        ExcelFillView { bg_color: color_of_attrs(ev.attrs, theme), ..fill }
    } else {
        fill
    }
}

/// The fill that the events from `pos` on complete, and the position behind it. The fill
/// ends with the closing tag `fill`, or with the input; an error event fails it.
pub open spec fn fill_from(
    events: Seq<XmlEventView>,
    pos: int,
    fill: ExcelFillView,
    theme: Option<ThemeView>,
) -> (Result<ExcelFillView, ErrorView>, int)
    decreases events.len() - pos,
{
    if pos < 0 || pos >= events.len() {
        (Ok(fill), pos)
    } else {
        let ev = events[pos];
        if ev.kind == XmlEventKind::Error {
            (Err(ErrorView::ParseError("XML error in fill: "@ + ev.message)), pos + 1)
        } else if ev.kind == XmlEventKind::Start {
            fill_from(events, pos + 1, fill_with_pattern(fill, ev), theme)
        } else if ev.kind == XmlEventKind::Empty {
            fill_from(events, pos + 1, fill_with(fill, ev, theme), theme)
        } else if ev.kind == XmlEventKind::End && ev.name == lit("fill") {
            (Ok(fill), pos + 1)
        } else {
            fill_from(events, pos + 1, fill, theme)
        }
    }
}

fn apply_pattern(fill: &mut ExcelFill, ev: &XmlEvent)
    ensures
        final(fill).deep_view() == fill_with_pattern(old(fill).deep_view(), ev.deep_view()),
{
    if ev.named("patternFill") {
        match first_attr(&ev.attrs, "patternType") {
            Some(v) => {
                fill.pattern_type = attr_value(v.as_slice());
            },
            None => {},
        }
    }
}

fn apply_fill(fill: &mut ExcelFill, ev: &XmlEvent, theme: Option<&Theme>)
    ensures
        final(fill).deep_view() == fill_with(
            old(fill).deep_view(),
            ev.deep_view(),
            theme.deep_view(),
        ),
{
    if ev.named("patternFill") {
        apply_pattern(fill, ev);
    } else if ev.named("fgColor") {
        fill.fg_color = read_color(&ev.attrs, theme);
    } else if ev.named("bgColor") {
        fill.bg_color = read_color(&ev.attrs, theme);
    }
}

fn parse_fill(events: &Vec<XmlEvent>, pos: usize, theme: Option<&Theme>) -> (r: (
    Result<ExcelFill, Error>,
    usize,
))
    ensures
        result_view(r.0) == fill_from(
            events.deep_view(),
            pos as int,
            blank_fill(),
            theme.deep_view(),
        ).0,
        r.1 == fill_from(events.deep_view(), pos as int, blank_fill(), theme.deep_view()).1,
        pos <= r.1,
        pos < events.len() ==> pos < r.1 <= events.len(),
{
    let mut fill = ExcelFill::default();
    let mut i: usize = pos;
    while i < events.len()
        invariant
            pos <= i,
            pos < events.len() ==> i <= events.len(),
            fill_from(events.deep_view(), i as int, fill.deep_view(), theme.deep_view())
                == fill_from(events.deep_view(), pos as int, blank_fill(), theme.deep_view()),
        decreases events.len() - i,
    {
        let ev = &events[i];
        match ev.kind {
            XmlEventKind::Error => {
                return (
                    Err(Error::parse_with("XML error in fill: ", ev.message.as_str())),
                    i + 1,
                );
            },
            XmlEventKind::Start => {
                apply_pattern(&mut fill, ev);
            },
            XmlEventKind::Empty => {
                apply_fill(&mut fill, ev, theme);
            },
            XmlEventKind::End => {
                if ev.named("fill") {
                    return (Ok(fill), i + 1);
                }
            },
            _ => {},
        }
        i += 1;
    }
    (Ok(fill), i)
}

/// The index that the attribute `key` gives: 0 where it is not there or is no number.
pub open spec fn index_attr(attrs: Seq<XmlAttrView>, key: Seq<u8>) -> usize {
    match attr_last(attrs, key) {
        Some(v) => match spec_parse_usize(v) {
            Some(n) => n,
            None => 0,
        },
        None => 0,
    }
}

pub fn read_index_attr(attrs: &Vec<XmlAttr>, key: &str) -> (r: usize)
    ensures
        r == index_attr(attrs.deep_view(), lit(key)),
{
    match last_attr(attrs, key) {
        Some(v) => match parse_usize(v.as_slice()) {
            Some(n) => n,
            None => 0,
        },
        None => 0,
    }
}

/// The cell format that the attributes of an `xf` element give.
pub open spec fn xf_of_attrs(attrs: Seq<XmlAttrView>) -> CellXfView {
    CellXfView {
        font_id: index_attr(attrs, lit("fontId")),
        fill_id: index_attr(attrs, lit("fillId")),
        border_id: index_attr(attrs, lit("borderId")),
        num_fmt_id: index_attr(attrs, lit("numFmtId")),
        align_h: None,
        align_v: None,
    }
}

/// The text of the first attribute named `key`, or `fallback` where there is none.
pub open spec fn text_attr_or(
    attrs: Seq<XmlAttrView>,
    key: Seq<u8>,
    fallback: Option<Seq<char>>,
) -> Option<Seq<char>> {
    match attr_first(attrs, key) {
        Some(v) => Some(utf8_lossy(v)),
        None => fallback,
    }
}

/// The cell format that the children of an `xf` element complete, and the position behind
/// the element, which ends with the closing tag `xf` or with the input.
pub open spec fn xf_from(events: Seq<XmlEventView>, pos: int, xf: CellXfView) -> (CellXfView, int)
    decreases events.len() - pos,
{
    if pos < 0 || pos >= events.len() {
        (xf, pos)
    } else {
        let ev = events[pos];
        if ev.kind == XmlEventKind::Empty && ev.name == lit("alignment") {
            xf_from(
                events,
                pos + 1,
                CellXfView {
                    align_h: text_attr_or(ev.attrs, lit("horizontal"), xf.align_h),
                    align_v: text_attr_or(ev.attrs, lit("vertical"), xf.align_v),
                    ..xf
                },
            )
        } else if ev.kind == XmlEventKind::End && ev.name == lit("xf") {
            (xf, pos + 1)
        } else {
            xf_from(events, pos + 1, xf)
        }
    }
}

fn make_xf(attrs: &Vec<XmlAttr>) -> (r: CellXf)
    ensures
        r.deep_view() == xf_of_attrs(attrs.deep_view()),
{
    CellXf {
        font_id: read_index_attr(attrs, "fontId"),
        fill_id: read_index_attr(attrs, "fillId"),
        border_id: read_index_attr(attrs, "borderId"),
        num_fmt_id: read_index_attr(attrs, "numFmtId"),
        align_h: None,
        align_v: None,
    }
}

fn parse_xf(events: &Vec<XmlEvent>, pos: usize, start: CellXf) -> (r: (CellXf, usize))
    ensures
        (r.0.deep_view(), r.1 as int) == xf_from(
            events.deep_view(),
            pos as int,
            start.deep_view(),
        ),
        pos <= r.1,
        pos < events.len() ==> pos < r.1 <= events.len(),
{
    let mut xf = start;
    let mut i: usize = pos;
    while i < events.len()
        invariant
            pos <= i,
            pos < events.len() ==> i <= events.len(),
            xf_from(events.deep_view(), i as int, xf.deep_view()) == xf_from(
                events.deep_view(),
                pos as int,
                start.deep_view(),
            ),
        decreases events.len() - i,
    {
        let ev = &events[i];
        if ev.kind == XmlEventKind::Empty && ev.named("alignment") {
            match first_attr(&ev.attrs, "horizontal") {
                Some(v) => {
                    xf.align_h = Some(attr_value(v.as_slice()));
                },
                None => {},
            }
            match first_attr(&ev.attrs, "vertical") {
                Some(v) => {
                    xf.align_v = Some(attr_value(v.as_slice()));
                },
                None => {},
            }
        } else if ev.kind == XmlEventKind::End && ev.named("xf") {
            return (xf, i + 1);
        }
        i += 1;
    }
    (xf, i)
}

/// Where the walk through a style sheet stands.
pub ghost struct ExcelStateView {
    pub styles: ExcelStylesView,
    pub in_fonts: bool,
    pub in_fills: bool,
    pub in_cell_xfs: bool,
}

/// The state before the first event.
pub open spec fn excel_start() -> ExcelStateView {
    ExcelStateView {
        styles: ExcelStylesView { fonts: Seq::empty(), fills: Seq::empty(), cell_xfs: Seq::empty() },
        in_fonts: false,
        in_fills: false,
        in_cell_xfs: false,
    }
}

/// The state after the opening tag of one of the three lists.
pub open spec fn excel_on_start(s: ExcelStateView, ev: XmlEventView) -> ExcelStateView {
    if ev.name == lit("fonts") {
        ExcelStateView { in_fonts: true, ..s }
    } else if ev.name == lit("fills") {
        ExcelStateView { in_fills: true, ..s }
    } else if ev.name == lit("cellXfs") {
        ExcelStateView { in_cell_xfs: true, ..s }
    } else {
        s
    }
}

/// The state after a closing tag.
pub open spec fn excel_on_end(s: ExcelStateView, ev: XmlEventView) -> ExcelStateView {
    if ev.name == lit("fonts") {
        ExcelStateView { in_fonts: false, ..s }
    } else if ev.name == lit("fills") {
        ExcelStateView { in_fills: false, ..s }
    } else if ev.name == lit("cellXfs") {
        ExcelStateView { in_cell_xfs: false, ..s }
    } else {
        s
    }
}

/// Whether an opening tag begins a nested element that is read on its own.
pub open spec fn excel_nested(s: ExcelStateView, ev: XmlEventView) -> bool {
    ev.name != lit("fonts") && ev.name != lit("fills") && ev.name != lit("cellXfs") && ((ev.name
        == lit("font") && s.in_fonts) || (ev.name == lit("fill") && s.in_fills) || (ev.name
        == lit("xf") && s.in_cell_xfs))
}

/// The styles that the events from `pos` on lead to, starting in state `s`. An error event
/// fails the part, also inside a font or a fill.
pub open spec fn excel_from(
    events: Seq<XmlEventView>,
    pos: int,
    s: ExcelStateView,
    theme: Option<ThemeView>,
) -> Result<ExcelStylesView, ErrorView>
    decreases events.len() - pos,
{
    if pos < 0 || pos >= events.len() {
        Ok(s.styles)
    } else {
        let ev = events[pos];
        if ev.kind == XmlEventKind::Error {
            Err(ErrorView::ParseError("XML error in styles: "@ + ev.message))
        } else if ev.kind == XmlEventKind::Start && excel_nested(s, ev) {
            if ev.name == lit("font") && s.in_fonts {
                let inner = font_from(events, pos + 1, blank_font(), theme);
                match inner.0 {
                    Err(e) => Err(e),
                    Ok(font) => excel_from(
                        events,
                        advance(events, pos, inner.1),
                        ExcelStateView {
                            styles: ExcelStylesView { fonts: s.styles.fonts.push(font), ..s.styles },
                            ..s
                        },
                        theme,
                    ),
                }
            } else if ev.name == lit("fill") && s.in_fills {
                let inner = fill_from(events, pos + 1, blank_fill(), theme);
                match inner.0 {
                    Err(e) => Err(e),
                    Ok(fill) => excel_from(
                        events,
                        advance(events, pos, inner.1),
                        ExcelStateView {
                            styles: ExcelStylesView { fills: s.styles.fills.push(fill), ..s.styles },
                            ..s
                        },
                        theme,
                    ),
                }
            } else {
                let inner = xf_from(events, pos + 1, xf_of_attrs(ev.attrs));
                excel_from(
                    events,
                    advance(events, pos, inner.1),
                    ExcelStateView {
                        styles: ExcelStylesView {
                            cell_xfs: s.styles.cell_xfs.push(inner.0),
                            ..s.styles
                        },
                        ..s
                    },
                    theme,
                )
            }
        } else if ev.kind == XmlEventKind::Start {
            excel_from(events, pos + 1, excel_on_start(s, ev), theme)
        } else if ev.kind == XmlEventKind::Empty && ev.name == lit("xf") && s.in_cell_xfs {
            excel_from(
                events,
                pos + 1,
                ExcelStateView {
                    styles: ExcelStylesView {
                        cell_xfs: s.styles.cell_xfs.push(xf_of_attrs(ev.attrs)),
                        ..s.styles
                    },
                    ..s
                },
                theme,
            )
        } else if ev.kind == XmlEventKind::End {
            excel_from(events, pos + 1, excel_on_end(s, ev), theme)
        } else {
            excel_from(events, pos + 1, s, theme)
        }
    }
}

/// The styles of a spreadsheet style sheet, given by its events.
pub open spec fn excel_styles_of_events(events: Seq<XmlEventView>, theme: Option<ThemeView>) -> Result<
    ExcelStylesView,
    ErrorView,
> {
    excel_from(events, 0, excel_start(), theme)
}

/// The text style and the background colour that a cell format resolves to: two independent
/// lookups, each of which falls back to nothing where its index is out of range, as does an
/// index of the format itself.
pub open spec fn spec_get_style(styles: ExcelStylesView, xf_id: nat) -> (
    TextStyleView,
    Option<Seq<char>>,
) {
    if xf_id >= styles.cell_xfs.len() {
        (plain_text_style(), None)
    } else {
        let xf = styles.cell_xfs[xf_id as int];
        let text = if xf.font_id < styles.fonts.len() {
            let font = styles.fonts[xf.font_id as int];
            TextStyleView {
                font_family: Some(font.name),
                font_size: Some(font.size),
                bold: font.bold,
                italic: font.italic,
                underline: font.underline,
                color: font.color,
                ..plain_text_style()
            }
        } else {
            plain_text_style()
        };
        let background = if xf.fill_id < styles.fills.len() {
            let fill = styles.fills[xf.fill_id as int];
            if fill.fg_color is Some {
                fill.fg_color
            } else {
                fill.bg_color
            }
        } else {
            None
        };
        (text, background)
    }
}

impl ExcelStyles {
    /// The styles of a style sheet, given by its events.
    pub fn from_events(events: &Vec<XmlEvent>, theme: Option<&Theme>) -> (r: Result<
        ExcelStyles,
        Error,
    >)
        ensures
            result_view(r) == excel_styles_of_events(events.deep_view(), theme.deep_view()),
    {
        let mut styles = ExcelStyles::default();
        let mut in_fonts = false;
        let mut in_fills = false;
        let mut in_cell_xfs = false;
        let mut i: usize = 0;
        while i < events.len()
            invariant
                i <= events.len(),
                excel_from(
                    events.deep_view(),
                    i as int,
                    ExcelStateView { styles: styles.deep_view(), in_fonts, in_fills, in_cell_xfs },
                    theme.deep_view(),
                ) == excel_styles_of_events(events.deep_view(), theme.deep_view()),
            decreases events.len() - i,
        {
            let ev = &events[i];
            match ev.kind {
                XmlEventKind::Error => {
                    return Err(Error::parse_with("XML error in styles: ", ev.message.as_str()));
                },
                XmlEventKind::Start => {
                    if ev.named("fonts") {
                        in_fonts = true;
                        i += 1;
                    } else if ev.named("fills") {
                        in_fills = true;
                        i += 1;
                    } else if ev.named("cellXfs") {
                        in_cell_xfs = true;
                        i += 1;
                    } else if ev.named("font") && in_fonts {
                        let (font, next) = parse_font(events, i + 1, theme);
                        match font {
                            Ok(f) => {
                                let ghost before = styles.fonts.deep_view();
                                styles.fonts.push(f);
                                assert(styles.fonts.deep_view() =~= before.push(f.deep_view()));
                            },
                            Err(e) => {
                                return Err(e);
                            },
                        }
                        i = next;
                    } else if ev.named("fill") && in_fills {
                        let (fill, next) = parse_fill(events, i + 1, theme);
                        match fill {
                            Ok(f) => {
                                let ghost before = styles.fills.deep_view();
                                styles.fills.push(f);
                                assert(styles.fills.deep_view() =~= before.push(f.deep_view()));
                            },
                            Err(e) => {
                                return Err(e);
                            },
                        }
                        i = next;
                    } else if ev.named("xf") && in_cell_xfs {
                        let (xf, next) = parse_xf(events, i + 1, make_xf(&ev.attrs));
                        let ghost before = styles.cell_xfs.deep_view();
                        styles.cell_xfs.push(xf);
                        assert(styles.cell_xfs.deep_view() =~= before.push(xf.deep_view()));
                        i = next;
                    } else {
                        i += 1;
                    }
                },
                XmlEventKind::Empty => {
                    if ev.named("xf") && in_cell_xfs {
                        let xf = make_xf(&ev.attrs);
                        let ghost before = styles.cell_xfs.deep_view();
                        styles.cell_xfs.push(xf);
                        assert(styles.cell_xfs.deep_view() =~= before.push(xf.deep_view()));
                    }
                    i += 1;
                },
                XmlEventKind::End => {
                    if ev.named("fonts") {
                        in_fonts = false;
                    } else if ev.named("fills") {
                        in_fills = false;
                    } else if ev.named("cellXfs") {
                        in_cell_xfs = false;
                    }
                    i += 1;
                },
                _ => {
                    i += 1;
                },
            }
        }
        Ok(styles)
    }

    /// Parses a spreadsheet style sheet; theme colours are resolved against `theme`.
    pub fn from_xml(xml: &str, theme: Option<&Theme>) -> (r: Result<ExcelStyles, Error>)
        ensures
            result_view(r) == excel_styles_of_events(
                xml_events(xml.spec_bytes(), true),
                theme.deep_view(),
            ),
    {
        let events = read_events(xml.as_bytes(), true);
        ExcelStyles::from_events(&events, theme)
    }

    /// Resolves the cell format of index `xf_id` to a text style and a background colour.
    pub fn get_style(&self, xf_id: usize) -> (r: (TextStyle, Option<String>))
        ensures
            (r.0.deep_view(), r.1.deep_view()) == spec_get_style(self.deep_view(), xf_id as nat),
    {
        if xf_id >= self.cell_xfs.len() {
            return (TextStyle::default(), None);
        }
        let xf = &self.cell_xfs[xf_id];
        let mut text_style = TextStyle::default();
        if xf.font_id < self.fonts.len() {
            let font = &self.fonts[xf.font_id];
            text_style.font_family = Some(font.name.clone());
            text_style.font_size = Some(font.size);
            text_style.bold = font.bold;
            text_style.italic = font.italic;
            text_style.underline = font.underline;
            text_style.color = copy_opt_string(&font.color);
        }
        let mut background: Option<String> = None;
        if xf.fill_id < self.fills.len() {
            let fill = &self.fills[xf.fill_id];
            if fill.fg_color.is_some() {
                background = copy_opt_string(&fill.fg_color);
            } else {
                background = copy_opt_string(&fill.bg_color);
            }
        }
        (text_style, background)
    }
}

} // verus!
