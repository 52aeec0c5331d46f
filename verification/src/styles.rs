//! Word-processing style sheets and the cascade of direct formatting over named styles over
//! document defaults.

use vstd::prelude::*;
use vstd::string::StringSliceAdditionalSpecFns;
use crate::document::copy_opt_string;
use crate::document::ParagraphStyle;
use crate::document::plain_paragraph_style;
use crate::document::plain_text_style;
use crate::document::TextAlignment;
use crate::document::TextStyle;
use crate::document::TextStyleView;
use crate::error::Error;
use crate::error::ErrorView;
use crate::text::attr_value;
use crate::text::lit;
use crate::text::parse_scaled;
use crate::text::spec_parse_scaled;
use crate::text::str_eq;
use crate::text::utf8_lossy;
use crate::utils::half;
use crate::utils::hash_color;
use crate::utils::spec_half;
use crate::utils::spec_hash_color;
use crate::xml::attr_last;
use crate::xml::last_attr;
use crate::xml::read_events;
use crate::xml::result_view;
use crate::xml::xml_events;
use crate::xml::XmlAttrView;
use crate::xml::XmlEvent;
use crate::xml::XmlEventKind;
use crate::xml::XmlEventView;

verus! {

/// A named style of a word-processing document.
#[derive(Debug, Clone)]
pub struct Style {
    pub id: String,
    pub name: Option<String>,
    /// The style family: paragraph, character, numbering or table.
    pub style_type: String,
    pub based_on: Option<String>,
    pub next: Option<String>,
    pub text_style: TextStyle,
    pub para_style: ParagraphStyle,
}

pub ghost struct StyleView {
    pub id: Seq<char>,
    pub name: Option<Seq<char>>,
    pub style_type: Seq<char>,
    pub based_on: Option<Seq<char>>,
    pub next: Option<Seq<char>>,
    pub text_style: TextStyleView,
    pub para_style: ParagraphStyle,
}

impl DeepView for Style {
    type V = StyleView;

    open spec fn deep_view(&self) -> StyleView {
        StyleView {
            id: self.id@,
            name: self.name.deep_view(),
            style_type: self.style_type@,
            based_on: self.based_on.deep_view(),
            next: self.next.deep_view(),
            text_style: self.text_style.deep_view(),
            para_style: self.para_style,
        }
    }
}

/// The index of the first style at or behind `from` whose id is `id`.
pub open spec fn style_index_from(styles: Seq<StyleView>, id: Seq<char>, from: int) -> Option<int>
    decreases styles.len() - from,
{
    if from < 0 || from >= styles.len() {
        None
    } else if styles[from].id == id {
        Some(from)
    } else {
        style_index_from(styles, id, from + 1)
    }
}

/// The style whose id is `id`.
pub open spec fn style_get(styles: Seq<StyleView>, id: Seq<char>) -> Option<StyleView> {
    match style_index_from(styles, id, 0) {
        Some(k) => Some(styles[k]),
        None => None,
    }
}

/// The styles after `style` is entered: it takes the place of a style with the same id, and
/// comes last where there is none.
pub open spec fn style_insert(styles: Seq<StyleView>, style: StyleView) -> Seq<StyleView> {
    match style_index_from(styles, style.id, 0) {
        Some(k) => styles.update(k, style),
        None => styles.push(style),
    }
}

/// What a layer of the cascade adds to what the lower layers resolved to. A layer overrides
/// only what it sets; bold, italic and underline are or-ed in, so a higher layer cannot
/// clear a flag that a lower layer set.
pub open spec fn overlay_style(base: TextStyleView, layer: TextStyleView) -> TextStyleView {
    TextStyleView {
        font_family: if layer.font_family is Some {
            layer.font_family
        } else {
            base.font_family
        },
        font_size: if layer.font_size is Some {
            layer.font_size
        } else {
            base.font_size
        },
        bold: base.bold || layer.bold,
        italic: base.italic || layer.italic,
        underline: base.underline || layer.underline,
        strikethrough: base.strikethrough,
        color: if layer.color is Some {
            layer.color
        } else {
            base.color
        },
        background_color: base.background_color,
    }
}

/// The style of a run: direct formatting over the named style, where the id names one, over
/// the document default. The named style's own `based_on` parent is not consulted.
pub open spec fn resolve_style(
    default_style: TextStyleView,
    named: Option<StyleView>,
    direct: TextStyleView,
) -> TextStyleView {
    let below = match named {
        Some(style) => overlay_style(default_style, style.text_style),
        None => default_style,
    };
    overlay_style(below, direct)
}

/// The alignment that a `w:jc` value names.
pub open spec fn alignment_of(value: Seq<char>) -> TextAlignment {
    if value == "center"@ {
        TextAlignment::Center
    } else if value == "right"@ {
        TextAlignment::Right
    } else if value == "both"@ {
        TextAlignment::Justify
    } else {
        TextAlignment::Left
    }
}

/// The text of an optional attribute value, or the empty text.
pub open spec fn text_or_empty(value: Option<Seq<u8>>) -> Seq<char> {
    match value {
        Some(v) => utf8_lossy(v),
        None => Seq::empty(),
    }
}

/// The style that a `w:style` element opens.
pub open spec fn style_opened(attrs: Seq<XmlAttrView>) -> StyleView {
    StyleView {
        id: text_or_empty(attr_last(attrs, lit("w:styleId"))),
        name: None,
        style_type: text_or_empty(attr_last(attrs, lit("w:type"))),
        based_on: None,
        next: None,
        text_style: plain_text_style(),
        para_style: plain_paragraph_style(),
    }
}

/// The font size, in hundredths of a point, that a size attribute in half-points gives.
pub open spec fn half_point_size(value: Seq<u8>) -> Option<i64> {
    match spec_parse_scaled(value, 2) {
        Some(n) => Some(spec_half(n)),
        None => None,
    }
}

/// The open style after a flag element (`w:b`, `w:i`, `w:u`) inside it.
pub open spec fn style_with_flag(st: StyleView, ev: XmlEventView) -> StyleView {
    if ev.name == lit("w:b") {
        StyleView { text_style: TextStyleView { bold: true, ..st.text_style }, ..st }
    } else if ev.name == lit("w:i") {
        StyleView { text_style: TextStyleView { italic: true, ..st.text_style }, ..st }
    } else if ev.name == lit("w:u") {
        StyleView { text_style: TextStyleView { underline: true, ..st.text_style }, ..st }
    } else {
        st
    }
}

/// The open style after a tag inside it, which may stand as an opening or as a self-closing
/// tag.
pub open spec fn style_with_start(st: StyleView, ev: XmlEventView) -> StyleView {
    let val = attr_last(ev.attrs, lit("w:val"));
    if ev.name == lit("w:name") {
        match val {
            Some(v) => StyleView { name: Some(utf8_lossy(v)), ..st },
            None => st,
        }
    } else if ev.name == lit("w:basedOn") {
        match val {
            Some(v) => StyleView { based_on: Some(utf8_lossy(v)), ..st },
            None => st,
        }
    } else if ev.name == lit("w:color") {
        match val {
            Some(v) => match spec_hash_color(v) {
                Some(c) => StyleView {
                    text_style: TextStyleView { color: Some(c), ..st.text_style },
                    ..st
                },
                None => st,
            },
            None => st,
        }
    } else if ev.name == lit("w:sz") {
        match val {
            Some(v) => match half_point_size(v) {
                Some(n) => StyleView {
                    text_style: TextStyleView { font_size: Some(n), ..st.text_style },
                    ..st
                },
                None => st,
            },
            None => st,
        }
    } else if ev.name == lit("w:jc") {
        match val {
            Some(v) => StyleView {
                para_style: ParagraphStyle { alignment: alignment_of(utf8_lossy(v)), ..st.para_style },
                ..st
            },
            None => st,
        }
    } else {
        style_with_flag(st, ev)
    }
}

/// Where the walk through a style sheet stands: the styles closed so far, and the open one.
pub struct StylesState {
    pub styles: Vec<Style>,
    pub current: Option<Style>,
}

pub ghost struct StylesStateView {
    pub styles: Seq<StyleView>,
    pub current: Option<StyleView>,
}

impl DeepView for StylesState {
    type V = StylesStateView;

    open spec fn deep_view(&self) -> StylesStateView {
        StylesStateView { styles: self.styles.deep_view(), current: self.current.deep_view() }
    }
}

/// The state after one event.
pub open spec fn styles_step(s: StylesStateView, ev: XmlEventView) -> StylesStateView {
    if ev.kind == XmlEventKind::Start {
        if ev.name == lit("w:style") {
            StylesStateView { current: Some(style_opened(ev.attrs)), ..s }
        } else {
            match s.current {
                Some(st) => StylesStateView { current: Some(style_with_start(st, ev)), ..s },
                None => s,
            }
        }
    } else if ev.kind == XmlEventKind::Empty {
        match s.current {
            Some(st) => StylesStateView { current: Some(style_with_start(st, ev)), ..s },
            None => s,
        }
    } else if ev.kind == XmlEventKind::End && ev.name == lit("w:style") {
        match s.current {
            Some(st) => StylesStateView { styles: style_insert(s.styles, st), current: None },
            None => s,
        }
    } else {
        s
    }
}

/// The styles that the events from index `from` on lead to, starting in state `s`. An error
/// event fails the whole part; a style that is still open at the end is lost.
pub open spec fn styles_from(events: Seq<XmlEventView>, from: int, s: StylesStateView) -> Result<
    Seq<StyleView>,
    ErrorView,
>
    decreases events.len() - from,
{
    if from < 0 || from >= events.len() {
        Ok(s.styles)
    } else if events[from].kind == XmlEventKind::Error {
        Err(ErrorView::ParseError("XML error in styles: "@ + events[from].message))
    } else {
        styles_from(events, from + 1, styles_step(s, events[from]))
    }
}

/// The style sheet of a styles part, given by its events.
pub open spec fn styles_of_events(events: Seq<XmlEventView>) -> Result<StylesView, ErrorView> {
    match styles_from(events, 0, StylesStateView { styles: Seq::empty(), current: None }) {
        Ok(styles) => Ok(
            StylesView {
                styles,
                default_paragraph_style: plain_paragraph_style(),
                default_text_style: plain_text_style(),
            },
        ),
        Err(e) => Err(e),
    }
}

/// The named styles of a document, and its defaults.
#[derive(Debug, Clone)]
pub struct Styles {
    styles: Vec<Style>,
    default_paragraph_style: ParagraphStyle,
    default_text_style: TextStyle,
}

pub ghost struct StylesView {
    pub styles: Seq<StyleView>,
    pub default_paragraph_style: ParagraphStyle,
    pub default_text_style: TextStyleView,
}

impl DeepView for Styles {
    type V = StylesView;

    closed spec fn deep_view(&self) -> StylesView {
        StylesView {
            styles: self.styles.deep_view(),
            default_paragraph_style: self.default_paragraph_style,
            default_text_style: self.default_text_style.deep_view(),
        }
    }
}

/// The style sheet without styles.
pub open spec fn empty_styles() -> StylesView {
    StylesView {
        styles: Seq::empty(),
        default_paragraph_style: plain_paragraph_style(),
        default_text_style: plain_text_style(),
    }
}

fn style_index(styles: &Vec<Style>, id: &str) -> (r: Option<usize>)
    ensures
        match r {
            Some(k) => style_index_from(styles.deep_view(), id@, 0) == Some(k as int) && k
                < styles.len(),
            None => style_index_from(styles.deep_view(), id@, 0) is None,
        },
{
    let mut i: usize = 0;
    while i < styles.len()
        invariant
            i <= styles.len(),
            style_index_from(styles.deep_view(), id@, i as int) == style_index_from(
                styles.deep_view(),
                id@,
                0,
            ),
        decreases styles.len() - i,
    {
        if str_eq(styles[i].id.as_str(), id) {
            return Some(i);
        }
        i += 1;
    }
    None
}

fn text_of(value: Option<&Vec<u8>>) -> (r: String)
    ensures
        r@ == text_or_empty(crate::xml::opt_bytes(value)),
{
    match value {
        Some(v) => attr_value(v.as_slice()),
        None => String::new(),
    }
}

fn apply_flag(st: &mut Style, ev: &XmlEvent)
    ensures
        final(st).deep_view() == style_with_flag(old(st).deep_view(), ev.deep_view()),
{
    if ev.named("w:b") {
        st.text_style.bold = true;
    } else if ev.named("w:i") {
        st.text_style.italic = true;
    } else if ev.named("w:u") {
        st.text_style.underline = true;
    }
}

fn apply_start(st: &mut Style, ev: &XmlEvent)
    ensures
        final(st).deep_view() == style_with_start(old(st).deep_view(), ev.deep_view()),
{
    let val = last_attr(&ev.attrs, "w:val");
    if ev.named("w:name") {
        match val {
            Some(v) => {
                st.name = Some(attr_value(v.as_slice()));
            },
            None => {},
        }
    } else if ev.named("w:basedOn") {
        match val {
            Some(v) => {
                st.based_on = Some(attr_value(v.as_slice()));
            },
            None => {},
        }
    } else if ev.named("w:color") {
        match val {
            Some(v) => match hash_color(v.as_slice()) {
                Some(c) => {
                    st.text_style.color = Some(c);
                },
                None => {},
            },
            None => {},
        }
    } else if ev.named("w:sz") {
        match val {
            Some(v) => match parse_scaled(v.as_slice(), 2) {
                Some(n) => {
                    st.text_style.font_size = Some(half(n));
                },
                None => {},
            },
            None => {},
        }
    } else if ev.named("w:jc") {
        match val {
            Some(v) => {
                let text = attr_value(v.as_slice());
                st.para_style.alignment = if str_eq(text.as_str(), "center") {
                    TextAlignment::Center
                } else if str_eq(text.as_str(), "right") {
                    TextAlignment::Right
                } else if str_eq(text.as_str(), "both") {
                    TextAlignment::Justify
                } else {
                    TextAlignment::Left
                };
            },
            None => {},
        }
    } else {
        apply_flag(st, ev);
    }
}

/// Lays `layer` over `base`.
fn overlay(base: TextStyle, layer: &TextStyle) -> (r: TextStyle)
    ensures
        r.deep_view() == overlay_style(base.deep_view(), layer.deep_view()),
{
    let mut resolved = base;
    if layer.bold {
        resolved.bold = true;
    }
    if layer.italic {
        resolved.italic = true;
    }
    if layer.underline {
        resolved.underline = true;
    }
    if layer.color.is_some() {
        resolved.color = copy_opt_string(&layer.color);
    }
    if layer.font_size.is_some() {
        resolved.font_size = layer.font_size;
    }
    if layer.font_family.is_some() {
        resolved.font_family = copy_opt_string(&layer.font_family);
    }
    resolved
}

impl StylesState {
    fn enter(&mut self, style: Style)
        ensures
            final(self).deep_view() == (StylesStateView {
                styles: style_insert(old(self).deep_view().styles, style.deep_view()),
                ..old(self).deep_view()
            }),
    {
        let ghost before = self.styles.deep_view();
        match style_index(&self.styles, style.id.as_str()) {
            Some(k) => {
                self.styles.set(k, style);
                assert(self.styles.deep_view() =~= before.update(k as int, style.deep_view()));
            },
            None => {
                self.styles.push(style);
                assert(self.styles.deep_view() =~= before.push(style.deep_view()));
            },
        }
    }

    /// Takes one event in.
    pub fn step(&mut self, ev: &XmlEvent)
        ensures
            final(self).deep_view() == styles_step(old(self).deep_view(), ev.deep_view()),
    {
        match ev.kind {
            XmlEventKind::Start => {
                if ev.named("w:style") {
                    self.current = Some(
                        Style {
                            id: text_of(last_attr(&ev.attrs, "w:styleId")),
                            name: None,
                            style_type: text_of(last_attr(&ev.attrs, "w:type")),
                            based_on: None,
                            next: None,
                            text_style: TextStyle::default(),
                            para_style: ParagraphStyle::default(),
                        },
                    );
                } else {
                    match self.current.take() {
                        Some(mut st) => {
                            apply_start(&mut st, ev);
                            self.current = Some(st);
                        },
                        None => {},
                    }
                }
            },
            XmlEventKind::Empty => {
                match self.current.take() {
                    Some(mut st) => {
                        apply_start(&mut st, ev);
                        self.current = Some(st);
                    },
                    None => {},
                }
            },
            XmlEventKind::End => {
                if ev.named("w:style") {
                    match self.current.take() {
                        Some(st) => {
                            self.enter(st);
                        },
                        None => {},
                    }
                }
            },
            _ => {},
        }
    }
}

impl Styles {
    /// A style sheet without styles.
    pub fn new() -> (r: Styles)
        ensures
            r.deep_view() == empty_styles(),
    {
        let r = Styles {
            styles: Vec::new(),
            default_paragraph_style: ParagraphStyle::default(),
            default_text_style: TextStyle::default(),
        };
        assert(r.styles.deep_view() =~= Seq::<StyleView>::empty());
        r
    }

    /// The effective style of a run with the given direct formatting in a paragraph of the
    /// given style.
    pub fn resolve_text_style(&self, style_id: Option<&str>, direct_formatting: &TextStyle) -> (r:
        TextStyle)
        ensures
            r.deep_view() == resolve_style(
                self.deep_view().default_text_style,
                match style_id {
                    Some(id) => style_get(self.deep_view().styles, id@),
                    None => None,
                },
                direct_formatting.deep_view(),
            ),
    {
        let base = self.default_text_style.copy();
        let below = match style_id {
            Some(id) => match style_index(&self.styles, id) {
                Some(k) => overlay(base, &self.styles[k].text_style),
                None => base,
            },
            None => base,
        };
        overlay(below, direct_formatting)
    }

    /// The style sheet of a styles part, given by its events.
    pub fn from_events(events: &Vec<XmlEvent>) -> (r: Result<Styles, Error>)
        ensures
            result_view(r) == styles_of_events(events.deep_view()),
    {
        let mut state = StylesState { styles: Vec::new(), current: None };
        assert(state.styles.deep_view() =~= Seq::<StyleView>::empty());
        let mut i: usize = 0;
        while i < events.len()
            invariant
                i <= events.len(),
                styles_from(events.deep_view(), i as int, state.deep_view()) == styles_from(
                    events.deep_view(),
                    0,
                    StylesStateView { styles: Seq::empty(), current: None },
                ),
            decreases events.len() - i,
        {
            let ev = &events[i];
            if ev.kind == XmlEventKind::Error {
                return Err(Error::parse_with("XML error in styles: ", ev.message.as_str()));
            }
            state.step(ev);
            i += 1;
        }
        Ok(
            Styles {
                styles: state.styles,
                default_paragraph_style: ParagraphStyle::default(),
                default_text_style: TextStyle::default(),
            },
        )
    }

    /// Parses a styles part. Fails only on malformed XML.
    pub fn from_xml(xml: &str) -> (r: Result<Styles, Error>)
        ensures
            result_view(r) == styles_of_events(xml_events(xml.spec_bytes(), true)),
    {
        let events = read_events(xml.as_bytes(), true);
        Styles::from_events(&events)
    }

    /// The style with the given id.
    pub fn get(&self, id: &str) -> (r: Option<&Style>)
        ensures
            r.deep_view() == style_get(self.deep_view().styles, id@),
    {
        match style_index(&self.styles, id) {
            Some(k) => Some(&self.styles[k]),
            None => None,
        }
    }
}

/// The property of the highest layer that sets it: the direct formatting's, else the named
/// style's, else the document default's.
pub open spec fn highest<T>(default_value: Option<T>, named: Option<T>, direct: Option<T>) -> Option<
    T,
> {
    if direct is Some {
        direct
    } else if named is Some {
        named
    } else {
        default_value
    }
}

/// What a named style says of text; nothing where there is no such style.
pub open spec fn named_layer(named: Option<StyleView>) -> TextStyleView {
    match named {
        Some(style) => style.text_style,
        None => plain_text_style(),
    }
}

/// Direct formatting outranks the named style, and the named style the document default:
/// colour, size and font are those of the highest layer that sets them, and a run is bold,
/// italic or underlined where any layer says so.
pub proof fn law_cascade_precedence(
    default_style: TextStyleView,
    named: Option<StyleView>,
    direct: TextStyleView,
)
    ensures
        ({
            let r = resolve_style(default_style, named, direct);
            let layer = named_layer(named);
            &&& r.color == highest(default_style.color, layer.color, direct.color)
            &&& r.font_size == highest(default_style.font_size, layer.font_size, direct.font_size)
            &&& r.font_family == highest(
                default_style.font_family,
                layer.font_family,
                direct.font_family,
            )
            &&& r.bold == (default_style.bold || layer.bold || direct.bold)
            &&& r.italic == (default_style.italic || layer.italic || direct.italic)
            &&& r.underline == (default_style.underline || layer.underline || direct.underline)
        }),
{
}

/// Whether no two styles stand under one id.
pub open spec fn style_ids_distinct(entries: Seq<StyleView>) -> bool {
    forall|i: int, j: int|
        0 <= i < j < entries.len() ==> (#[trigger] entries[i]).id != (#[trigger] entries[j]).id
}

proof fn lemma_style_ids_index(entries: Seq<StyleView>, key: Seq<char>, from: int)
    requires
        0 <= from,
    ensures
        match style_index_from(entries, key, from) {
            Some(k) => from <= k < entries.len() && entries[k].id == key && forall|i: int|
                from <= i < k ==> (#[trigger] entries[i]).id != key,
            None => forall|i: int| from <= i < entries.len() ==> (#[trigger] entries[i]).id != key,
        },
    decreases entries.len() - from,
{
    if from < entries.len() && entries[from].id != key {
        lemma_style_ids_index(entries, key, from + 1);
    }
}

proof fn lemma_style_ids_index_is(entries: Seq<StyleView>, key: Seq<char>, from: int, k: int)
    requires
        0 <= from <= k < entries.len(),
        entries[k].id == key,
        forall|i: int| from <= i < k ==> (#[trigger] entries[i]).id != key,
    ensures
        style_index_from(entries, key, from) == Some(k),
    decreases k - from,
{
    if from < k {
        lemma_style_ids_index_is(entries, key, from + 1, k);
    }
}

/// A id occurs once: entering keeps the ids distinct.
pub proof fn law_style_ids_occur_once(entries: Seq<StyleView>, style: StyleView)
    requires
        style_ids_distinct(entries),
    ensures
        style_ids_distinct(style_insert(entries, style)),
{
    let after = style_insert(entries, style);
    lemma_style_ids_index(entries, style.id, 0);
    assert forall|i: int, j: int| 0 <= i < j < after.len() implies (#[trigger] after[i]).id != (
    #[trigger] after[j]).id by {
        match style_index_from(entries, style.id, 0) {
            Some(k) => {
                assert(after[i].id == entries[i].id);
                assert(after[j].id == entries[j].id);
            },
            None => {
                assert(after[i] == entries[i]);
                if j < entries.len() {
                    assert(after[j] == entries[j]);
                }
            },
        }
    }
}

/// What was entered is found under its id.
pub proof fn law_style_ids_entered_is_found(entries: Seq<StyleView>, style: StyleView)
    ensures
        style_get(style_insert(entries, style), style.id) == Some(style),
{
    let after = style_insert(entries, style);
    lemma_style_ids_index(entries, style.id, 0);
    match style_index_from(entries, style.id, 0) {
        Some(k) => {
            assert forall|i: int| 0 <= i < k implies (#[trigger] after[i]).id != style.id by {
                assert(after[i] == entries[i]);
            }
            lemma_style_ids_index_is(after, style.id, 0, k);
        },
        None => {
            assert forall|i: int| 0 <= i < entries.len() implies (#[trigger] after[i]).id
                != style.id by {
                assert(after[i] == entries[i]);
            }
            lemma_style_ids_index_is(after, style.id, 0, entries.len() as int);
        },
    }
}

proof fn lemma_styles_from_distinct(events: Seq<XmlEventView>, from: int, s: StylesStateView)
    requires
        style_ids_distinct(s.styles),
    ensures
        styles_from(events, from, s) matches Ok(styles) ==> style_ids_distinct(styles),
    decreases events.len() - from,
{
    if 0 <= from < events.len() && events[from].kind != XmlEventKind::Error {
        let next = styles_step(s, events[from]);
        if next.styles != s.styles {
            law_style_ids_occur_once(s.styles, s.current->Some_0);
        }
        lemma_styles_from_distinct(events, from + 1, next);
    }
}

/// A style sheet that parses holds one style for each id: a later style of the same id has
/// taken the place of the earlier one.
pub proof fn law_parsed_style_ids_occur_once(events: Seq<XmlEventView>)
    ensures
        styles_of_events(events) matches Ok(sheet) ==> style_ids_distinct(sheet.styles),
{
    lemma_styles_from_distinct(
        events,
        0,
        StylesStateView { styles: Seq::empty(), current: None },
    );
}

} // verus!
