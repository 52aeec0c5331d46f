//! Shapes, pictures, graphic frames and backgrounds of a slide.

use vstd::prelude::*;
use vstd::slice::slice_subrange;
use vstd::string::StringSliceAdditionalSpecFns;
use crate::document::ContentBlock;
use crate::document::ContentBlockView;
use crate::document::Dimensions;
use crate::document::group_document_views;
use crate::document::ImageBlock;
use crate::document::ImageBlockView;
use crate::document::plain_shape_style;
use crate::document::plain_text_style;
use crate::document::Rect;
use crate::document::run_of;
use crate::document::ShapeStyle;
use crate::document::ShapeStyleView;
use crate::document::TableBlock;
use crate::document::TableBlockView;
use crate::document::TextBlock;
use crate::document::TextBlockView;
use crate::document::TextRun;
use crate::document::TextRunView;
use crate::document::TextStyle;
use crate::document::TextStyleView;
use crate::document::zero_rect;
use crate::error::ErrorView;
use crate::format::eq_lower;
use crate::format::lower_bytes;
use crate::strmap::map_get;
use crate::strmap::StrEntryView;
use crate::strmap::StrMap;
use crate::tables::advance;
use crate::tables::parse_drawingml_table;
use crate::tables::spec_parse_drawingml_table;
use crate::text::attr_value;
use crate::text::concat;
use crate::text::lit;
use crate::text::parse_scaled;
use crate::text::spec_parse_scaled;
use crate::text::str_eq;
use crate::text::utf8_lossy;
use crate::utils::hash_color;
use crate::utils::spec_hash_color;
use crate::xml::attr_last;
use crate::xml::event_text;
use crate::xml::last_attr;
use crate::xml::spec_event_text;
use crate::xml::XmlAttr;
use crate::xml::XmlAttrView;
use crate::xml::XmlEvent;
use crate::xml::XmlEventKind;
use crate::xml::XmlEventView;

verus! {

broadcast use group_document_views;

/// The whole number that the attribute `key` gives, where it is there and reads as a
/// number; a fraction is cut off.
pub open spec fn number_attr(attrs: Seq<XmlAttrView>, key: Seq<u8>) -> Option<i64> {
    match attr_last(attrs, key) {
        Some(v) => spec_parse_scaled(v, 0),
        None => None,
    }
}

pub fn read_number_attr(attrs: &Vec<XmlAttr>, key: &str) -> (r: Option<i64>)
    ensures
        r == number_attr(attrs.deep_view(), lit(key)),
{
    match last_attr(attrs, key) {
        Some(v) => parse_scaled(v.as_slice(), 0),
        None => None,
    }
}

/// `value` where there is one, else `fallback`.
pub open spec fn or_keep(value: Option<i64>, fallback: i64) -> i64 {
    match value {
        Some(v) => v,
        None => fallback,
    }
}

/// Whether an element name is that of a transform's offset.
pub open spec fn is_offset(name: Seq<u8>) -> bool {
    name == lit("a:off") || name == lit("off")
}

/// Whether an element name is that of a transform's extent.
pub open spec fn is_extent(name: Seq<u8>) -> bool {
    name == lit("a:ext") || name == lit("ext")
}

/// Whether an element name is that of a transform.
pub open spec fn is_transform(name: Seq<u8>) -> bool {
    name == lit("a:xfrm") || name == lit("p:xfrm") || name == lit("xfrm")
}

/// The bounds after the opening tag of an offset or an extent. Offsets and extents are in
/// EMU, as the bounds are.
pub open spec fn bounds_with(bounds: Rect, ev: XmlEventView) -> Rect {
    if is_offset(ev.name) {
        Rect {
            x: or_keep(number_attr(ev.attrs, lit("x")), bounds.x),
            y: or_keep(number_attr(ev.attrs, lit("y")), bounds.y),
            ..bounds
        }
    } else if is_extent(ev.name) {
        Rect {
            width: or_keep(number_attr(ev.attrs, lit("cx")), bounds.width),
            height: or_keep(number_attr(ev.attrs, lit("cy")), bounds.height),
            ..bounds
        }
    } else {
        bounds
    }
}

/// The bounds after a tag that stands `depth` elements deep inside a transform: only the
/// transform's own children count.
pub open spec fn child_bounds(bounds: Rect, ev: XmlEventView, depth: nat) -> Rect {
    if depth == 0 {
        bounds_with(bounds, ev)
    } else {
        bounds
    }
}

/// The bounds that a transform gives, and the position behind it, reading from `pos` with
/// `depth` elements open inside it. An offset and an extent count as opening and as
/// self-closing tags. The transform ends with the closing tag that closes none of the
/// elements opened inside it, or with the input.
pub open spec fn transform_from(events: Seq<XmlEventView>, pos: int, depth: nat, bounds: Rect) -> (
    Rect,
    int,
)
    decreases events.len() - pos,
{
    if pos < 0 || pos >= events.len() {
        (bounds, pos)
    } else {
        let ev = events[pos];
        if ev.kind == XmlEventKind::Start {
            transform_from(events, pos + 1, depth + 1, child_bounds(bounds, ev, depth))
        } else if ev.kind == XmlEventKind::Empty {
            transform_from(events, pos + 1, depth, child_bounds(bounds, ev, depth))
        } else if ev.kind == XmlEventKind::End {
            if depth > 0 {
                transform_from(events, pos + 1, (depth - 1) as nat, bounds)
            } else {
                (bounds, pos + 1)
            }
        } else {
            transform_from(events, pos + 1, depth, bounds)
        }
    }
}

/// The bounds of the transform whose opening tag stands just before `pos`.
pub open spec fn spec_parse_transform_2d(events: Seq<XmlEventView>, pos: int) -> (Rect, int) {
    transform_from(events, pos, 0, zero_rect())
}

fn named_offset(ev: &XmlEvent) -> (r: bool)
    ensures
        r == is_offset(ev.deep_view().name),
{
    ev.named("a:off") || ev.named("off")
}

fn named_extent(ev: &XmlEvent) -> (r: bool)
    ensures
        r == is_extent(ev.deep_view().name),
{
    ev.named("a:ext") || ev.named("ext")
}

fn named_transform(ev: &XmlEvent) -> (r: bool)
    ensures
        r == is_transform(ev.deep_view().name),
{
    ev.named("a:xfrm") || ev.named("p:xfrm") || ev.named("xfrm")
}

fn apply_bounds(bounds: Rect, ev: &XmlEvent) -> (r: Rect)
    ensures
        r == bounds_with(bounds, ev.deep_view()),
{
    let mut out = bounds;
    if named_offset(ev) {
        match read_number_attr(&ev.attrs, "x") {
            Some(v) => {
                out.x = v;
            },
            None => {},
        }
        match read_number_attr(&ev.attrs, "y") {
            Some(v) => {
                out.y = v;
            },
            None => {},
        }
    } else if named_extent(ev) {
        match read_number_attr(&ev.attrs, "cx") {
            Some(v) => {
                out.width = v;
            },
            None => {},
        }
        match read_number_attr(&ev.attrs, "cy") {
            Some(v) => {
                out.height = v;
            },
            None => {},
        }
    }
    out
}

/// Reads the transform (`a:xfrm` or `p:xfrm`) whose opening tag stands just before `pos`
/// into bounds in EMU, and gives the position behind it.
pub fn parse_transform_2d(events: &Vec<XmlEvent>, pos: usize) -> (r: (Rect, usize))
    ensures
        (r.0, r.1 as int) == spec_parse_transform_2d(events.deep_view(), pos as int),
        pos <= r.1,
        pos < events.len() ==> pos < r.1 <= events.len(),
{
    let mut bounds = Rect::default();
    let mut depth: u128 = 0;
    let mut i: usize = pos;
    while i < events.len()
        invariant
            pos <= i,
            pos < events.len() ==> i <= events.len(),
            depth <= i - pos,
            transform_from(events.deep_view(), i as int, depth as nat, bounds)
                == spec_parse_transform_2d(events.deep_view(), pos as int),
        decreases events.len() - i,
    {
        let ev = &events[i];
        match ev.kind {
            XmlEventKind::Start => {
                if depth == 0 {
                    bounds = apply_bounds(bounds, ev);
                }
                depth = depth + 1;
            },
            XmlEventKind::Empty => {
                if depth == 0 {
                    bounds = apply_bounds(bounds, ev);
                }
            },
            XmlEventKind::End => {
                if depth > 0 {
                    depth = depth - 1;
                } else {
                    return (bounds, i + 1);
                }
            },
            _ => {},
        }
        i += 1;
    }
    (bounds, i)
}

/// Where the walk through a text body stands.
pub struct TextBodyState {
    pub runs: Vec<TextRun>,
    pub style: TextStyle,
    pub text: String,
    pub in_run: bool,
}

pub ghost struct TextBodyStateView {
    pub runs: Seq<TextRunView>,
    pub style: TextStyleView,
    pub text: Seq<char>,
    pub in_run: bool,
}

impl DeepView for TextBodyState {
    type V = TextBodyStateView;

    open spec fn deep_view(&self) -> TextBodyStateView {
        TextBodyStateView {
            runs: self.runs.deep_view(),
            style: self.style.deep_view(),
            text: self.text@,
            in_run: self.in_run,
        }
    }
}

/// The state just behind the text body's opening tag.
pub open spec fn body_start() -> TextBodyStateView {
    TextBodyStateView {
        runs: Seq::empty(),
        style: plain_text_style(),
        text: Seq::empty(),
        in_run: false,
    }
}

/// Whether the attribute `key` is there and reads `word`; `fallback` where it is not there.
pub open spec fn flag_attr(
    attrs: Seq<XmlAttrView>,
    key: Seq<u8>,
    word: Seq<char>,
    fallback: bool,
) -> bool {
    match attr_last(attrs, key) {
        Some(v) => utf8_lossy(v) == word,
        None => fallback,
    }
}

/// The run style after the attributes of `a:rPr`. The size attribute is in hundredths of a
/// point, as the font size is.
pub open spec fn style_with_run_props(style: TextStyleView, attrs: Seq<XmlAttrView>) -> TextStyleView {
    TextStyleView {
        font_size: match number_attr(attrs, lit("sz")) {
            Some(n) => Some(n),
            None => style.font_size,
        },
        bold: flag_attr(attrs, lit("b"), "1"@, style.bold),
        italic: flag_attr(attrs, lit("i"), "1"@, style.italic),
        underline: flag_attr(attrs, lit("u"), "sng"@, style.underline),
        ..style
    }
}

/// The state after a run ends: a run with text joins the runs.
pub open spec fn body_close_run(s: TextBodyStateView) -> TextBodyStateView {
    if s.text.len() > 0 {
        TextBodyStateView {
            runs: s.runs.push(run_of(s.text, s.style)),
            text: Seq::empty(),
            in_run: false,
            ..s
        }
    } else {
        TextBodyStateView { in_run: false, ..s }
    }
}

/// The state after a run property inside a run, which may stand as an opening or as a
/// self-closing tag: `a:rPr` gives size, weight, slant and underline, `a:latin` the font,
/// `a:srgbClr` the colour.
pub open spec fn body_on_property(s: TextBodyStateView, ev: XmlEventView) -> TextBodyStateView {
    if !s.in_run {
        s
    } else if ev.name == lit("a:rPr") {
        TextBodyStateView { style: style_with_run_props(s.style, ev.attrs), ..s }
    } else if ev.name == lit("a:latin") {
        match attr_last(ev.attrs, lit("typeface")) {
            Some(v) => TextBodyStateView {
                style: TextStyleView { font_family: Some(utf8_lossy(v)), ..s.style },
                ..s
            },
            None => s,
        }
    } else if ev.name == lit("a:srgbClr") {
        match attr_last(ev.attrs, lit("val")) {
            Some(v) => match spec_hash_color(v) {
                Some(c) => TextBodyStateView {
                    style: TextStyleView { color: Some(c), ..s.style },
                    ..s
                },
                None => s,
            },
            None => s,
        }
    } else {
        s
    }
}

/// The state after an opening tag. A run that is still open when the next one starts is
/// closed first.
pub open spec fn body_on_start(s: TextBodyStateView, ev: XmlEventView) -> TextBodyStateView {
    if ev.name == lit("a:r") {
        let closed = if s.in_run {
            body_close_run(s)
        } else {
            s
        };
        TextBodyStateView { in_run: true, style: plain_text_style(), text: Seq::empty(), ..closed }
    } else {
        body_on_property(s, ev)
    }
}

/// The state after the closing tag of a paragraph or a run: a paragraph ends with a run that
/// holds a line break; a run with text joins the runs.
pub open spec fn body_on_end(s: TextBodyStateView, ev: XmlEventView) -> TextBodyStateView {
    if ev.name == lit("a:p") {
        TextBodyStateView { runs: s.runs.push(run_of("\n"@, plain_text_style())), ..s }
    } else if ev.name == lit("a:r") {
        body_close_run(s)
    } else {
        s
    }
}

/// The state after character data.
pub open spec fn body_on_text(s: TextBodyStateView, ev: XmlEventView) -> TextBodyStateView {
    if s.in_run {
        match spec_event_text(ev.content) {
            Some(t) => TextBodyStateView { text: s.text + t, ..s },
            None => s,
        }
    } else {
        s
    }
}

/// Whether a closing tag ends the text body.
pub open spec fn closes_body(ev: XmlEventView, end_tag: Seq<u8>) -> bool {
    ev.kind == XmlEventKind::End && ev.name != lit("a:p") && ev.name != lit("a:r") && ev.name
        == end_tag
}

/// The runs of a text body and the position behind it, reading from `pos` in state `s`. The
/// body ends with the closing tag `end_tag`, or with the input.
pub open spec fn body_from(
    events: Seq<XmlEventView>,
    pos: int,
    s: TextBodyStateView,
    end_tag: Seq<u8>,
) -> (Seq<TextRunView>, int)
    decreases events.len() - pos,
{
    if pos < 0 || pos >= events.len() {
        (s.runs, pos)
    } else {
        let ev = events[pos];
        if closes_body(ev, end_tag) {
            (s.runs, pos + 1)
        } else if ev.kind == XmlEventKind::Start {
            body_from(events, pos + 1, body_on_start(s, ev), end_tag)
        } else if ev.kind == XmlEventKind::Empty {
            body_from(events, pos + 1, body_on_property(s, ev), end_tag)
        } else if ev.kind == XmlEventKind::End {
            body_from(events, pos + 1, body_on_end(s, ev), end_tag)
        } else if ev.kind == XmlEventKind::Text {
            body_from(events, pos + 1, body_on_text(s, ev), end_tag)
        } else {
            body_from(events, pos + 1, s, end_tag)
        }
    }
}

/// The runs of the text body whose opening tag stands just before `pos`.
pub open spec fn spec_parse_text_body(events: Seq<XmlEventView>, pos: int, end_tag: Seq<u8>) -> (
    Seq<TextRunView>,
    int,
) {
    body_from(events, pos, body_start(), end_tag)
}

fn read_flag_attr(attrs: &Vec<XmlAttr>, key: &str, word: &str, fallback: bool) -> (r: bool)
    ensures
        r == flag_attr(attrs.deep_view(), lit(key), word@, fallback),
{
    match last_attr(attrs, key) {
        Some(v) => {
            let text = attr_value(v.as_slice());
            str_eq(text.as_str(), word)
        },
        None => fallback,
    }
}

impl TextBodyState {
    pub fn new() -> (s: TextBodyState)
        ensures
            s.deep_view() == body_start(),
    {
        let s = TextBodyState {
            runs: Vec::new(),
            style: TextStyle::default(),
            text: String::new(),
            in_run: false,
        };
        assert(s.runs.deep_view() =~= Seq::<TextRunView>::empty());
        s
    }

    fn push_run(&mut self, run: TextRun)
        ensures
            final(self).deep_view() == (TextBodyStateView {
                runs: old(self).deep_view().runs.push(run.deep_view()),
                ..old(self).deep_view()
            }),
    {
        let ghost before = self.runs.deep_view();
        self.runs.push(run);
        assert(self.runs.deep_view() =~= before.push(run.deep_view()));
    }

    fn close_run(&mut self)
        ensures
            final(self).deep_view() == body_close_run(old(self).deep_view()),
    {
        self.in_run = false;
        if self.text.as_str().unicode_len() != 0 {
            let mut text = String::new();
            std::mem::swap(&mut text, &mut self.text);
            let run = TextRun::from_parts(text, self.style.copy());
            self.push_run(run);
        }
    }

    fn on_start(&mut self, ev: &XmlEvent)
        ensures
            final(self).deep_view() == body_on_start(old(self).deep_view(), ev.deep_view()),
    {
        if ev.named("a:r") {
            if self.in_run {
                self.close_run();
            }
            self.in_run = true;
            self.style = TextStyle::default();
            self.text = String::new();
        } else {
            self.on_property(ev);
        }
    }

    fn on_property(&mut self, ev: &XmlEvent)
        ensures
            final(self).deep_view() == body_on_property(old(self).deep_view(), ev.deep_view()),
    {
        if !self.in_run {
        } else if ev.named("a:rPr") {
            match read_number_attr(&ev.attrs, "sz") {
                Some(n) => {
                    self.style.font_size = Some(n);
                },
                None => {},
            }
            self.style.bold = read_flag_attr(&ev.attrs, "b", "1", self.style.bold);
            self.style.italic = read_flag_attr(&ev.attrs, "i", "1", self.style.italic);
            self.style.underline = read_flag_attr(&ev.attrs, "u", "sng", self.style.underline);
        } else if ev.named("a:latin") {
            match last_attr(&ev.attrs, "typeface") {
                Some(v) => {
                    self.style.font_family = Some(attr_value(v.as_slice()));
                },
                None => {},
            }
        } else if ev.named("a:srgbClr") {
            match last_attr(&ev.attrs, "val") {
                Some(v) => match hash_color(v.as_slice()) {
                    Some(c) => {
                        self.style.color = Some(c);
                    },
                    None => {},
                },
                None => {},
            }
        }
    }

    fn on_end(&mut self, ev: &XmlEvent)
        ensures
            final(self).deep_view() == body_on_end(old(self).deep_view(), ev.deep_view()),
    {
        if ev.named("a:p") {
            self.push_run(TextRun::new("\n"));
        } else if ev.named("a:r") {
            self.close_run();
        }
    }

    fn on_text(&mut self, ev: &XmlEvent)
        ensures
            final(self).deep_view() == body_on_text(old(self).deep_view(), ev.deep_view()),
    {
        if self.in_run {
            match event_text(ev.content.as_slice()) {
                Some(t) => {
                    self.text.append(t.as_str());
                },
                None => {},
            }
        }
    }
}

/// Reads the text body (`p:txBody` or `a:txBody`) whose opening tag stands just before
/// `pos` into runs, and gives the position behind it.
pub fn parse_text_body(events: &Vec<XmlEvent>, pos: usize, end_tag: &str) -> (r: (
    Vec<TextRun>,
    usize,
))
    ensures
        (r.0.deep_view(), r.1 as int) == spec_parse_text_body(
            events.deep_view(),
            pos as int,
            lit(end_tag),
        ),
        pos <= r.1,
        pos < events.len() ==> pos < r.1 <= events.len(),
{
    let mut state = TextBodyState::new();
    let mut i: usize = pos;
    while i < events.len()
        invariant
            pos <= i,
            pos < events.len() ==> i <= events.len(),
            body_from(events.deep_view(), i as int, state.deep_view(), lit(end_tag))
                == spec_parse_text_body(events.deep_view(), pos as int, lit(end_tag)),
        decreases events.len() - i,
    {
        let ev = &events[i];
        match ev.kind {
            XmlEventKind::Start => {
                state.on_start(ev);
            },
            XmlEventKind::Empty => {
                state.on_property(ev);
            },
            XmlEventKind::End => {
                if !ev.named("a:p") && !ev.named("a:r") && ev.named(end_tag) {
                    return (state.runs, i + 1);
                }
                state.on_end(ev);
            },
            XmlEventKind::Text => {
                state.on_text(ev);
            },
            _ => {},
        }
        i += 1;
    }
    (state.runs, i)
}

/// Where the walk through a shape stands.
pub struct ShapeState {
    pub bounds: Rect,
    pub style: ShapeStyle,
    pub runs: Vec<TextRun>,
    /// Rotation in 60,000ths of a degree.
    pub rotation: i64,
    /// Whether an outline element is open.
    pub in_ln: bool,
}

pub ghost struct ShapeStateView {
    pub bounds: Rect,
    pub style: ShapeStyleView,
    pub runs: Seq<TextRunView>,
    pub rotation: i64,
    pub in_ln: bool,
}

impl DeepView for ShapeState {
    type V = ShapeStateView;

    open spec fn deep_view(&self) -> ShapeStateView {
        ShapeStateView {
            bounds: self.bounds,
            style: self.style.deep_view(),
            runs: self.runs.deep_view(),
            rotation: self.rotation,
            in_ln: self.in_ln,
        }
    }
}

/// The state just behind the shape's opening tag.
pub open spec fn shape_start() -> ShapeStateView {
    ShapeStateView {
        bounds: zero_rect(),
        style: plain_shape_style(),
        runs: Seq::empty(),
        rotation: 0,
        in_ln: false,
    }
}

/// The style after a colour element: the colour of the outline inside an outline element,
/// else of the fill.
pub open spec fn shape_with_color(s: ShapeStateView, ev: XmlEventView) -> ShapeStateView {
    match attr_last(ev.attrs, lit("val")) {
        Some(v) => match spec_hash_color(v) {
            Some(c) => if s.in_ln {
                ShapeStateView { style: ShapeStyleView { stroke_color: Some(c), ..s.style }, ..s }
            } else {
                ShapeStateView { style: ShapeStyleView { fill_color: Some(c), ..s.style }, ..s }
            },
            None => s,
        },
        None => s,
    }
}

/// The style after an outline element: its width, in EMU, is that of the stroke.
pub open spec fn shape_with_width(s: ShapeStateView, ev: XmlEventView) -> ShapeStateView {
    match number_attr(ev.attrs, lit("w")) {
        Some(n) => ShapeStateView {
            style: ShapeStyleView { stroke_width: Some(n), ..s.style },
            ..s
        },
        None => s,
    }
}

/// The state after an opening tag other than a transform's or a text body's.
pub open spec fn shape_on_start(s: ShapeStateView, ev: XmlEventView) -> ShapeStateView {
    if ev.name == lit("a:srgbClr") {
        shape_with_color(s, ev)
    } else if ev.name == lit("a:ln") {
        ShapeStateView { in_ln: true, ..shape_with_width(s, ev) }
    } else {
        s
    }
}

/// The state after a self-closing tag.
pub open spec fn shape_on_empty(s: ShapeStateView, ev: XmlEventView) -> ShapeStateView {
    if ev.name == lit("a:ln") {
        shape_with_width(s, ev)
    } else if ev.name == lit("a:srgbClr") {
        shape_with_color(s, ev)
    } else {
        s
    }
}

/// The state after a transform: its bounds, and the rotation that its opening tag gives.
pub open spec fn shape_with_transform(s: ShapeStateView, ev: XmlEventView, bounds: Rect) -> ShapeStateView {
    ShapeStateView {
        bounds,
        rotation: or_keep(number_attr(ev.attrs, lit("rot")), s.rotation),
        ..s
    }
}

/// The block of a shape: a text block where the shape holds text, else nothing.
pub open spec fn shape_block(s: ShapeStateView) -> Option<ContentBlockView> {
    if s.runs.len() > 0 {
        Some(
            ContentBlockView::Text(
                TextBlockView {
                    bounds: s.bounds,
                    runs: s.runs,
                    paragraph_style: None,
                    style: s.style,
                    rotation: s.rotation,
                },
            ),
        )
    } else {
        None
    }
}

/// The block of a shape and the position behind it, reading from `pos` in state `s`. The
/// shape ends with the closing tag `p:sp`, or with the input.
pub open spec fn shape_from(events: Seq<XmlEventView>, pos: int, s: ShapeStateView) -> (
    Option<ContentBlockView>,
    int,
)
    decreases events.len() - pos,
{
    if pos < 0 || pos >= events.len() {
        (shape_block(s), pos)
    } else {
        let ev = events[pos];
        if ev.kind == XmlEventKind::Start && is_transform(ev.name) {
            let inner = spec_parse_transform_2d(events, pos + 1);
            shape_from(
                events,
                advance(events, pos, inner.1),
                shape_with_transform(s, ev, inner.0),
            )
        } else if ev.kind == XmlEventKind::Start && ev.name == lit("p:txBody") {
            let inner = spec_parse_text_body(events, pos + 1, lit("p:txBody"));
            shape_from(
                events,
                advance(events, pos, inner.1),
                ShapeStateView { runs: inner.0, ..s },
            )
        } else if ev.kind == XmlEventKind::Start {
            shape_from(events, pos + 1, shape_on_start(s, ev))
        } else if ev.kind == XmlEventKind::Empty {
            shape_from(events, pos + 1, shape_on_empty(s, ev))
        } else if ev.kind == XmlEventKind::End && ev.name == lit("p:sp") {
            (shape_block(s), pos + 1)
        } else if ev.kind == XmlEventKind::End && ev.name == lit("a:ln") {
            shape_from(events, pos + 1, ShapeStateView { in_ln: false, ..s })
        } else {
            shape_from(events, pos + 1, s)
        }
    }
}

/// The block of the shape whose opening tag stands just before `pos`.
pub open spec fn spec_parse_shape(events: Seq<XmlEventView>, pos: int) -> (
    Option<ContentBlockView>,
    int,
) {
    shape_from(events, pos, shape_start())
}

impl ShapeState {
    pub fn new() -> (s: ShapeState)
        ensures
            s.deep_view() == shape_start(),
    {
        let s = ShapeState {
            bounds: Rect::default(),
            style: ShapeStyle::default(),
            runs: Vec::new(),
            rotation: 0,
            in_ln: false,
        };
        assert(s.runs.deep_view() =~= Seq::<TextRunView>::empty());
        s
    }

    fn with_color(&mut self, ev: &XmlEvent)
        ensures
            final(self).deep_view() == shape_with_color(old(self).deep_view(), ev.deep_view()),
    {
        match last_attr(&ev.attrs, "val") {
            Some(v) => match hash_color(v.as_slice()) {
                Some(c) => {
                    if self.in_ln {
                        self.style.stroke_color = Some(c);
                    } else {
                        self.style.fill_color = Some(c);
                    }
                },
                None => {},
            },
            None => {},
        }
    }

    fn with_width(&mut self, ev: &XmlEvent)
        ensures
            final(self).deep_view() == shape_with_width(old(self).deep_view(), ev.deep_view()),
    {
        match read_number_attr(&ev.attrs, "w") {
            Some(n) => {
                self.style.stroke_width = Some(n);
            },
            None => {},
        }
    }

    fn into_block(self) -> (r: Option<ContentBlock>)
        ensures
            r.deep_view() == shape_block(self.deep_view()),
    {
        if self.runs.len() != 0 {
            Some(
                ContentBlock::Text(
                    TextBlock {
                        bounds: self.bounds,
                        runs: self.runs,
                        paragraph_style: None,
                        style: self.style,
                        rotation: self.rotation,
                    },
                ),
            )
        } else {
            None
        }
    }
}

/// Reads the shape (`p:sp`) whose opening tag stands just before `pos` into a content
/// block, and gives the position behind it. A shape without text gives no block.
pub fn parse_shape(events: &Vec<XmlEvent>, pos: usize) -> (r: (Option<ContentBlock>, usize))
    ensures
        (r.0.deep_view(), r.1 as int) == spec_parse_shape(events.deep_view(), pos as int),
        pos <= r.1,
        pos < events.len() ==> pos < r.1 <= events.len(),
{
    let mut state = ShapeState::new();
    let mut i: usize = pos;
    while i < events.len()
        invariant
            pos <= i,
            pos < events.len() ==> i <= events.len(),
            shape_from(events.deep_view(), i as int, state.deep_view()) == spec_parse_shape(
                events.deep_view(),
                pos as int,
            ),
        decreases events.len() - i,
    {
        let ev = &events[i];
        match ev.kind {
            XmlEventKind::Start => {
                if named_transform(ev) {
                    let (bounds, next) = parse_transform_2d(events, i + 1);
                    state.bounds = bounds;
                    match read_number_attr(&ev.attrs, "rot") {
                        Some(n) => {
                            state.rotation = n;
                        },
                        None => {},
                    }
                    i = next;
                } else if ev.named("p:txBody") {
                    let (runs, next) = parse_text_body(events, i + 1, "p:txBody");
                    state.runs = runs;
                    i = next;
                } else {
                    if ev.named("a:srgbClr") {
                        state.with_color(ev);
                    } else if ev.named("a:ln") {
                        state.with_width(ev);
                        state.in_ln = true;
                    }
                    i += 1;
                }
            },
            XmlEventKind::Empty => {
                if ev.named("a:ln") {
                    state.with_width(ev);
                } else if ev.named("a:srgbClr") {
                    state.with_color(ev);
                }
                i += 1;
            },
            XmlEventKind::End => {
                if ev.named("p:sp") {
                    return (state.into_block(), i + 1);
                }
                if ev.named("a:ln") {
                    state.in_ln = false;
                }
                i += 1;
            },
            _ => {
                i += 1;
            },
        }
    }
    (state.into_block(), i)
}

/// The offset behind the last `/` among the first `upto` bytes, or 0 where there is none.
pub open spec fn after_last_slash(s: Seq<u8>, upto: int) -> int
    decreases upto,
{
    if upto <= 0 || upto > s.len() {
        0
    } else if s[upto - 1] == 0x2F {
        upto
    } else {
        after_last_slash(s, upto - 1)
    }
}

/// The offset of the last `.` in `s[from..upto]`, or -1 where there is none.
pub open spec fn last_dot_in(s: Seq<u8>, from: int, upto: int) -> int
    decreases upto - from,
{
    if upto <= from || upto > s.len() || from < 0 {
        -1
    } else if s[upto - 1] == 0x2E {
        upto - 1
    } else {
        last_dot_in(s, from, upto - 1)
    }
}

/// The extension of the file that a path names: what stands behind the last `.` of the last
/// `/`-separated part, unless that part holds no `.` or only begins with its one `.`.
pub open spec fn path_extension(path: Seq<u8>) -> Option<Seq<u8>> {
    let start = after_last_slash(path, path.len() as int);
    let dot = last_dot_in(path, start, path.len() as int);
    if dot <= start {
        None
    } else {
        Some(path.skip(dot + 1))
    }
}

pub fn extension_of_path(path: &[u8]) -> (r: Option<&[u8]>)
    ensures
        match r {
            Some(ext) => path_extension(path@) == Some(ext@),
            None => path_extension(path@) is None,
        },
{
    let mut start: usize = path.len();
    while start > 0
        invariant
            start <= path.len(),
            after_last_slash(path@, start as int) == after_last_slash(path@, path.len() as int),
        ensures
            start <= path.len(),
            start == after_last_slash(path@, path.len() as int),
        decreases start,
    {
        if path[start - 1] == 0x2F {
            break;
        }
        start -= 1;
    }
    let mut i: usize = path.len();
    while i > start
        invariant
            start <= i <= path.len(),
            start == after_last_slash(path@, path.len() as int),
            last_dot_in(path@, start as int, i as int) == last_dot_in(
                path@,
                start as int,
                path.len() as int,
            ),
        decreases i,
    {
        if path[i - 1] == 0x2E {
            if i - 1 <= start {
                return None;
            }
            return Some(slice_subrange(path, i, path.len()));
        }
        i -= 1;
    }
    None
}

/// The MIME type that the extension of an image path names.
pub open spec fn image_mime(path: Seq<u8>) -> Option<Seq<char>> {
    match path_extension(path) {
        Some(ext) => {
            let low = lower_bytes(ext);
            if low == lit("png") {
                Some("image/png"@)
            } else if low == lit("jpg") || low == lit("jpeg") {
                Some("image/jpeg"@)
            } else if low == lit("gif") {
                Some("image/gif"@)
            } else if low == lit("svg") {
                Some("image/svg+xml"@)
            } else {
                Some("image/"@ + utf8_lossy(ext))
            }
        },
        None => None,
    }
}

pub fn image_mime_of(path: &str) -> (r: Option<String>)
    ensures
        r.deep_view() == image_mime(path.spec_bytes()),
{
    match extension_of_path(path.as_bytes()) {
        Some(ext) => {
            if eq_lower(ext, "png".as_bytes()) {
                Some("image/png".to_owned())
            } else if eq_lower(ext, "jpg".as_bytes()) || eq_lower(ext, "jpeg".as_bytes()) {
                Some("image/jpeg".to_owned())
            } else if eq_lower(ext, "gif".as_bytes()) {
                Some("image/gif".to_owned())
            } else if eq_lower(ext, "svg".as_bytes()) {
                Some("image/svg+xml".to_owned())
            } else {
                let text = attr_value(ext);
                Some(concat("image/", text.as_str()))
            }
        },
        None => None,
    }
}

/// The target that a relationship id resolves to, or the id itself where the table does
/// not hold it.
pub open spec fn resolve_target(rels: Seq<StrEntryView>, id: Seq<char>) -> Seq<char> {
    match map_get(rels, id) {
        Some(target) => target,
        None => id,
    }
}

pub fn resolve_target_of(rels: &StrMap, id: &str) -> (r: String)
    ensures
        r@ == resolve_target(rels.deep_view(), id@),
{
    match rels.get(id) {
        Some(target) => target.clone(),
        None => id.to_owned(),
    }
}

/// An image block with nothing set besides what is given.
pub open spec fn image_block(
    bounds: Rect,
    resource_id: Seq<char>,
    alt_text: Option<Seq<char>>,
    format: Option<Seq<char>>,
) -> ContentBlockView {
    ContentBlockView::Image(
        ImageBlockView {
            bounds,
            resource_id,
            alt_text,
            format,
            original_size: None,
            style: plain_shape_style(),
            rotation: 0,
        },
    )
}

pub fn make_image_block(
    bounds: Rect,
    resource_id: String,
    alt_text: Option<String>,
    format: Option<String>,
) -> (r: ContentBlock)
    ensures
        r.deep_view() == image_block(
            bounds,
            resource_id@,
            alt_text.deep_view(),
            format.deep_view(),
        ),
{
    ContentBlock::Image(
        ImageBlock {
            bounds,
            resource_id,
            alt_text,
            format,
            original_size: None,
            style: ShapeStyle::default(),
            rotation: 0,
        },
    )
}

/// Where the walk through a picture stands.
pub ghost struct PictureStateView {
    pub bounds: Rect,
    pub embed_id: Seq<char>,
    pub alt_text: Option<Seq<char>>,
}

/// The state just behind the picture's opening tag.
pub open spec fn picture_start() -> PictureStateView {
    PictureStateView { bounds: zero_rect(), embed_id: Seq::empty(), alt_text: None }
}

/// The state after an opening tag other than a transform's, or after a self-closing tag:
/// `a:blip` names the embedded relationship, `p:cNvPr` may describe the picture.
pub open spec fn picture_on_start(s: PictureStateView, ev: XmlEventView) -> PictureStateView {
    if ev.name == lit("a:blip") {
        match attr_last(ev.attrs, lit("r:embed")) {
            Some(v) => PictureStateView { embed_id: utf8_lossy(v), ..s },
            None => s,
        }
    } else if ev.name == lit("p:cNvPr") {
        match attr_last(ev.attrs, lit("descr")) {
            Some(v) => PictureStateView { alt_text: Some(utf8_lossy(v)), ..s },
            None => s,
        }
    } else {
        s
    }
}

/// The block of a picture: an image whose resource is the target of the embedded
/// relationship, with the MIME type that the target's extension names; where the
/// relationship does not resolve, the id stands for the resource and no type is given.
pub open spec fn picture_block(s: PictureStateView, rels: Seq<StrEntryView>) -> ContentBlockView {
    match map_get(rels, s.embed_id) {
        Some(target) => image_block(
            s.bounds,
            target,
            s.alt_text,
            image_mime(vstd::utf8::encode_utf8(target)),
        ),
        None => image_block(s.bounds, s.embed_id, s.alt_text, None),
    }
}

/// The block of a picture and the position behind it, reading from `pos` in state `s`. The
/// picture ends with the closing tag `p:pic`, or with the input.
pub open spec fn picture_from(
    events: Seq<XmlEventView>,
    pos: int,
    s: PictureStateView,
    rels: Seq<StrEntryView>,
) -> (ContentBlockView, int)
    decreases events.len() - pos,
{
    if pos < 0 || pos >= events.len() {
        (picture_block(s, rels), pos)
    } else {
        let ev = events[pos];
        if ev.kind == XmlEventKind::Start && is_transform(ev.name) {
            let inner = spec_parse_transform_2d(events, pos + 1);
            picture_from(
                events,
                advance(events, pos, inner.1),
                PictureStateView { bounds: inner.0, ..s },
                rels,
            )
        } else if ev.kind == XmlEventKind::Start || ev.kind == XmlEventKind::Empty {
            picture_from(events, pos + 1, picture_on_start(s, ev), rels)
        } else if ev.kind == XmlEventKind::End && ev.name == lit("p:pic") {
            (picture_block(s, rels), pos + 1)
        } else {
            picture_from(events, pos + 1, s, rels)
        }
    }
}

/// The block of the picture whose opening tag stands just before `pos`.
pub open spec fn spec_parse_picture(events: Seq<XmlEventView>, pos: int, rels: Seq<StrEntryView>) -> (
    ContentBlockView,
    int,
) {
    picture_from(events, pos, picture_start(), rels)
}

fn make_picture_block(bounds: Rect, embed_id: String, alt_text: Option<String>, rels: &StrMap) -> (r:
    ContentBlock)
    ensures
        r.deep_view() == picture_block(
            PictureStateView { bounds, embed_id: embed_id@, alt_text: alt_text.deep_view() },
            rels.deep_view(),
        ),
{
    match rels.get(embed_id.as_str()) {
        Some(target) => {
            let format = image_mime_of(target.as_str());
            make_image_block(bounds, target.clone(), alt_text, format)
        },
        None => make_image_block(bounds, embed_id, alt_text, None),
    }
}

fn note_picture_tag(ev: &XmlEvent, embed_id: &mut String, alt_text: &mut Option<String>)
    ensures
        (PictureStateView {
            bounds: zero_rect(),
            embed_id: final(embed_id)@,
            alt_text: final(alt_text).deep_view(),
        }) == picture_on_start(
            PictureStateView {
                bounds: zero_rect(),
                embed_id: old(embed_id)@,
                alt_text: old(alt_text).deep_view(),
            },
            ev.deep_view(),
        ),
{
    if ev.named("a:blip") {
        match last_attr(&ev.attrs, "r:embed") {
            Some(v) => {
                *embed_id = attr_value(v.as_slice());
            },
            None => {},
        }
    } else if ev.named("p:cNvPr") {
        match last_attr(&ev.attrs, "descr") {
            Some(v) => {
                *alt_text = Some(attr_value(v.as_slice()));
            },
            None => {},
        }
    }
}

/// Reads the picture (`p:pic`) whose opening tag stands just before `pos` into an image
/// block, and gives the position behind it.
pub fn parse_picture(events: &Vec<XmlEvent>, pos: usize, rels: &StrMap) -> (r: (
    Option<ContentBlock>,
    usize,
))
    ensures
        r.0.deep_view() == Some(
            spec_parse_picture(events.deep_view(), pos as int, rels.deep_view()).0,
        ),
        r.1 == spec_parse_picture(events.deep_view(), pos as int, rels.deep_view()).1,
        pos <= r.1,
        pos < events.len() ==> pos < r.1 <= events.len(),
{
    let mut bounds = Rect::default();
    let mut embed_id = String::new();
    let mut alt_text: Option<String> = None;
    let mut i: usize = pos;
    while i < events.len()
        invariant
            pos <= i,
            pos < events.len() ==> i <= events.len(),
            picture_from(
                events.deep_view(),
                i as int,
                PictureStateView { bounds, embed_id: embed_id@, alt_text: alt_text.deep_view() },
                rels.deep_view(),
            ) == spec_parse_picture(events.deep_view(), pos as int, rels.deep_view()),
        decreases events.len() - i,
    {
        let ev = &events[i];
        match ev.kind {
            XmlEventKind::Start => {
                if named_transform(ev) {
                    let (found, next) = parse_transform_2d(events, i + 1);
                    bounds = found;
                    i = next;
                } else {
                    note_picture_tag(ev, &mut embed_id, &mut alt_text);
                    i += 1;
                }
            },
            XmlEventKind::Empty => {
                note_picture_tag(ev, &mut embed_id, &mut alt_text);
                i += 1;
            },
            XmlEventKind::End => {
                if ev.named("p:pic") {
                    return (Some(make_picture_block(bounds, embed_id, alt_text, rels)), i + 1);
                }
                i += 1;
            },
            _ => {
                i += 1;
            },
        }
    }
    (Some(make_picture_block(bounds, embed_id, alt_text, rels)), i)
}

/// The block of a background: nothing without an embedded relationship; else an image that
/// covers the whole page, whose resource is the relationship's target, or the id itself
/// where it does not resolve.
pub open spec fn background_block(
    embed_id: Seq<char>,
    rels: Seq<StrEntryView>,
    dimensions: Dimensions,
) -> Option<ContentBlockView> {
    if embed_id.len() == 0 {
        None
    } else {
        let path = resolve_target(rels, embed_id);
        Some(
            image_block(
                Rect { x: 0, y: 0, width: dimensions.width, height: dimensions.height },
                path,
                Some("Background Image"@),
                image_mime(vstd::utf8::encode_utf8(path)),
            ),
        )
    }
}

/// The block of a background and the position behind it, reading from `pos` with the
/// embedded relationship `embed_id` found so far. The background ends with the closing tag
/// `p:bg`, or with the input.
pub open spec fn background_from(
    events: Seq<XmlEventView>,
    pos: int,
    embed_id: Seq<char>,
    rels: Seq<StrEntryView>,
    dimensions: Dimensions,
) -> (Option<ContentBlockView>, int)
    decreases events.len() - pos,
{
    if pos < 0 || pos >= events.len() {
        (background_block(embed_id, rels, dimensions), pos)
    } else {
        let ev = events[pos];
        if (ev.kind == XmlEventKind::Start || ev.kind == XmlEventKind::Empty) && ev.name == lit(
            "a:blip",
        ) {
            background_from(
                events,
                pos + 1,
                match attr_last(ev.attrs, lit("r:embed")) {
                    Some(v) => utf8_lossy(v),
                    None => embed_id,
                },
                rels,
                dimensions,
            )
        } else if ev.kind == XmlEventKind::End && ev.name == lit("p:bg") {
            (background_block(embed_id, rels, dimensions), pos + 1)
        } else {
            background_from(events, pos + 1, embed_id, rels, dimensions)
        }
    }
}

/// The block of the background whose opening tag stands just before `pos`.
pub open spec fn spec_parse_background(
    events: Seq<XmlEventView>,
    pos: int,
    rels: Seq<StrEntryView>,
    dimensions: Dimensions,
) -> (Option<ContentBlockView>, int) {
    background_from(events, pos, Seq::empty(), rels, dimensions)
}

fn make_background_block(embed_id: String, rels: &StrMap, dimensions: Dimensions) -> (r: Option<
    ContentBlock,
>)
    ensures
        r.deep_view() == background_block(embed_id@, rels.deep_view(), dimensions),
{
    if embed_id.as_str().unicode_len() == 0 {
        None
    } else {
        let path = resolve_target_of(rels, embed_id.as_str());
        let format = image_mime_of(path.as_str());
        Some(
            make_image_block(
                Rect { x: 0, y: 0, width: dimensions.width, height: dimensions.height },
                path,
                Some("Background Image".to_owned()),
                format,
            ),
        )
    }
}

/// Reads the background (`p:bg`) whose opening tag stands just before `pos` into an image
/// block that covers the page, and gives the position behind it.
pub fn parse_background(
    events: &Vec<XmlEvent>,
    pos: usize,
    rels: &StrMap,
    dimensions: Dimensions,
) -> (r: (Option<ContentBlock>, usize))
    ensures
        (r.0.deep_view(), r.1 as int) == spec_parse_background(
            events.deep_view(),
            pos as int,
            rels.deep_view(),
            dimensions,
        ),
        pos <= r.1,
        pos < events.len() ==> pos < r.1 <= events.len(),
{
    let mut embed_id = String::new();
    let mut i: usize = pos;
    while i < events.len()
        invariant
            pos <= i,
            pos < events.len() ==> i <= events.len(),
            background_from(events.deep_view(), i as int, embed_id@, rels.deep_view(), dimensions)
                == spec_parse_background(
                events.deep_view(),
                pos as int,
                rels.deep_view(),
                dimensions,
            ),
        decreases events.len() - i,
    {
        let ev = &events[i];
        if ev.opens() && ev.named("a:blip") {
            match last_attr(&ev.attrs, "r:embed") {
                Some(v) => {
                    embed_id = attr_value(v.as_slice());
                },
                None => {},
            }
        } else if ev.kind == XmlEventKind::End && ev.named("p:bg") {
            return (make_background_block(embed_id, rels, dimensions), i + 1);
        }
        i += 1;
    }
    (make_background_block(embed_id, rels, dimensions), i)
}

/// The table found in a graphic frame after one more table was read: a table that parsed
/// takes the place of the one found before.
pub open spec fn frame_with_table(
    found: Option<TableBlockView>,
    table: Result<TableBlockView, ErrorView>,
) -> Option<TableBlockView> {
    match table {
        Ok(t) => Some(t),
        Err(_) => found,
    }
}

/// The block of a graphic frame: its table, in the frame's bounds; nothing without a table.
pub open spec fn frame_block(bounds: Rect, found: Option<TableBlockView>) -> Option<
    ContentBlockView,
> {
    match found {
        Some(t) => Some(ContentBlockView::Table(TableBlockView { bounds, ..t })),
        None => None,
    }
}

/// The block of a graphic frame and the position behind it, reading from `pos`. The frame
/// ends with the closing tag `p:graphicFrame`, or with the input.
pub open spec fn frame_from(
    events: Seq<XmlEventView>,
    pos: int,
    bounds: Rect,
    found: Option<TableBlockView>,
) -> (Option<ContentBlockView>, int)
    decreases events.len() - pos,
{
    if pos < 0 || pos >= events.len() {
        (frame_block(bounds, found), pos)
    } else {
        let ev = events[pos];
        if ev.kind == XmlEventKind::Start && ev.name == lit("p:xfrm") {
            let inner = spec_parse_transform_2d(events, pos + 1);
            frame_from(events, advance(events, pos, inner.1), inner.0, found)
        } else if ev.kind == XmlEventKind::Start && ev.name == lit("a:tbl") {
            let inner = spec_parse_drawingml_table(events, pos + 1);
            frame_from(
                events,
                advance(events, pos, inner.1),
                bounds,
                frame_with_table(found, inner.0),
            )
        } else if ev.kind == XmlEventKind::End && ev.name == lit("p:graphicFrame") {
            (frame_block(bounds, found), pos + 1)
        } else {
            frame_from(events, pos + 1, bounds, found)
        }
    }
}

/// The block of the graphic frame whose opening tag stands just before `pos`.
pub open spec fn spec_parse_graphic_frame(events: Seq<XmlEventView>, pos: int) -> (
    Option<ContentBlockView>,
    int,
) {
    frame_from(events, pos, zero_rect(), None)
}

fn make_frame_block(bounds: Rect, found: Option<TableBlock>) -> (r: Option<ContentBlock>)
    ensures
        r.deep_view() == frame_block(bounds, found.deep_view()),
{
    match found {
        Some(t) => {
            let mut table = t;
            table.bounds = bounds;
            Some(ContentBlock::Table(table))
        },
        None => None,
    }
}

/// Reads the graphic frame (`p:graphicFrame`) whose opening tag stands just before `pos`
/// into a table block, and gives the position behind it. A frame without a table gives no
/// block.
pub fn parse_graphic_frame(events: &Vec<XmlEvent>, pos: usize) -> (r: (
    Option<ContentBlock>,
    usize,
))
    ensures
        (r.0.deep_view(), r.1 as int) == spec_parse_graphic_frame(events.deep_view(), pos as int),
        pos <= r.1,
        pos < events.len() ==> pos < r.1 <= events.len(),
{
    let mut bounds = Rect::default();
    let mut found: Option<TableBlock> = None;
    let mut i: usize = pos;
    while i < events.len()
        invariant
            pos <= i,
            pos < events.len() ==> i <= events.len(),
            frame_from(events.deep_view(), i as int, bounds, found.deep_view())
                == spec_parse_graphic_frame(events.deep_view(), pos as int),
        decreases events.len() - i,
    {
        let ev = &events[i];
        if ev.kind == XmlEventKind::Start && ev.named("p:xfrm") {
            let (rect, next) = parse_transform_2d(events, i + 1);
            bounds = rect;
            i = next;
        } else if ev.kind == XmlEventKind::Start && ev.named("a:tbl") {
            let (table, next) = parse_drawingml_table(events, i + 1);
            match table {
                Ok(t) => {
                    found = Some(t);
                },
                Err(_) => {},
            }
            i = next;
        } else if ev.kind == XmlEventKind::End && ev.named("p:graphicFrame") {
            return (make_frame_block(bounds, found), i + 1);
        } else {
            i += 1;
        }
    }
    (make_frame_block(bounds, found), i)
}

} // verus!
