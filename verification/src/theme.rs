//! Theme parts: the colour scheme and the font scheme of a package.

use crate::error::Error;
use crate::error::ErrorView;
use crate::strmap::map_get;
use crate::strmap::map_insert;
use crate::strmap::StrEntryView;
use crate::strmap::StrMap;
use crate::text::attr_value;
use crate::text::bytes_eq;
use crate::text::bytes_to_vec;
use crate::text::lit;
use crate::text::spec_starts_with;
use crate::text::spec_strip_all;
use crate::text::starts_with;
use crate::text::strip_all;
use crate::text::utf8_lossy;
use crate::xml::attr_first;
use crate::xml::attr_last;
use crate::xml::first_attr;
use crate::xml::last_attr;
use crate::xml::read_events;
use crate::xml::result_view;
use crate::xml::xml_events;
use crate::xml::XmlEvent;
use crate::xml::XmlEventKind;
use crate::xml::XmlEventView;
use vstd::prelude::*;

verus! {

/// An Office theme: named colour slots and the two theme fonts.
#[derive(Debug, Clone)]
pub struct Theme {
    pub name: String,
    /// Colour slot name (`dk1`, `accent1`, ...) to six hex digits.
    pub color_scheme: StrMap,
    /// The typeface for headings.
    pub major_font: Option<String>,
    /// The typeface for body text.
    pub minor_font: Option<String>,
}

pub ghost struct ThemeView {
    pub name: Seq<char>,
    pub color_scheme: Seq<StrEntryView>,
    pub major_font: Option<Seq<char>>,
    pub minor_font: Option<Seq<char>>,
}

impl DeepView for Theme {
    type V = ThemeView;

    open spec fn deep_view(&self) -> ThemeView {
        ThemeView {
            name: self.name@,
            color_scheme: self.color_scheme.deep_view(),
            major_font: self.major_font.deep_view(),
            minor_font: self.minor_font.deep_view(),
        }
    }
}

/// The theme with no name, no colours and no fonts.
pub open spec fn empty_theme() -> ThemeView {
    ThemeView {
        name: Seq::empty(),
        color_scheme: Seq::empty(),
        major_font: None,
        minor_font: None,
    }
}

impl Theme {
    /// A theme with no name, no colours and no fonts.
    pub fn new() -> (r: Theme)
        ensures
            r.deep_view() == empty_theme(),
    {
        Theme { name: String::new(), color_scheme: StrMap::new(), major_font: None, minor_font: None }
    }

    /// The hex digits of a colour slot such as `accent1`.
    pub fn resolve_color(&self, color_ref: &str) -> (r: Option<String>)
        ensures
            r.deep_view() == map_get(self.deep_view().color_scheme, color_ref@),
    {
        match self.color_scheme.get(color_ref) {
            Some(v) => Some(v.clone()),
            None => None,
        }
    }
}

/// Where the walk through a theme part stands.
pub struct ThemeState {
    pub theme: Theme,
    pub in_clr_scheme: bool,
    pub in_font_scheme: bool,
    pub in_major_font: bool,
    pub in_minor_font: bool,
    /// Name of the colour slot element that is open, if one is.
    pub slot: Option<Vec<u8>>,
}

pub ghost struct ThemeStateView {
    pub theme: ThemeView,
    pub in_clr_scheme: bool,
    pub in_font_scheme: bool,
    pub in_major_font: bool,
    pub in_minor_font: bool,
    pub slot: Option<Seq<u8>>,
}

impl DeepView for ThemeState {
    type V = ThemeStateView;

    open spec fn deep_view(&self) -> ThemeStateView {
        ThemeStateView {
            theme: self.theme.deep_view(),
            in_clr_scheme: self.in_clr_scheme,
            in_font_scheme: self.in_font_scheme,
            in_major_font: self.in_major_font,
            in_minor_font: self.in_minor_font,
            slot: match self.slot {
                Some(v) => Some(v@),
                None => None,
            },
        }
    }
}

/// The state before the first event.
pub open spec fn theme_start() -> ThemeStateView {
    ThemeStateView {
        theme: empty_theme(),
        in_clr_scheme: false,
        in_font_scheme: false,
        in_major_font: false,
        in_minor_font: false,
        slot: None,
    }
}

/// The colour that a colour element gives: `val` for `a:srgbClr`; for `a:sysClr` the last
/// known colour `lastClr` where there is one, else `val`. No other element gives a colour.
pub open spec fn theme_color_value(ev: XmlEventView) -> Option<Seq<char>> {
    let val = attr_last(ev.attrs, lit("val"));
    let last = attr_last(ev.attrs, lit("lastClr"));
    if ev.name == lit("a:sysClr") {
        match last {
            Some(v) => Some(utf8_lossy(v)),
            None => match val {
                Some(v) => Some(utf8_lossy(v)),
                None => None,
            },
        }
    } else if ev.name == lit("a:srgbClr") {
        match val {
            Some(v) => Some(utf8_lossy(v)),
            None => None,
        }
    } else {
        None
    }
}

/// The key under which the colour of the slot element `slot` is entered: its name without
/// the `a:` prefix.
pub open spec fn slot_key(slot: Seq<u8>) -> Seq<char> {
    utf8_lossy(spec_strip_all(slot, lit("a:")))
}

/// The theme after a colour element inside the slot `slot`.
pub open spec fn theme_with_color(theme: ThemeView, slot: Seq<u8>, ev: XmlEventView) -> ThemeView {
    match theme_color_value(ev) {
        Some(v) => ThemeView {
            color_scheme: map_insert(theme.color_scheme, slot_key(slot), v),
            ..theme
        },
        None => theme,
    }
}

/// The state after the `a:latin` element of a font: its typeface is that of the major or of
/// the minor font, whichever is open.
pub open spec fn theme_with_latin(s: ThemeStateView, ev: XmlEventView) -> ThemeStateView {
    match attr_first(ev.attrs, lit("typeface")) {
        Some(v) => if s.in_major_font {
            ThemeStateView { theme: ThemeView { major_font: Some(utf8_lossy(v)), ..s.theme }, ..s }
        } else if s.in_minor_font {
            ThemeStateView { theme: ThemeView { minor_font: Some(utf8_lossy(v)), ..s.theme }, ..s }
        } else {
            s
        },
        None => s,
    }
}

/// The state after an opening tag.
pub open spec fn theme_on_start(s: ThemeStateView, ev: XmlEventView) -> ThemeStateView {
    if ev.name == lit("a:theme") {
        match attr_last(ev.attrs, lit("name")) {
            Some(v) => ThemeStateView { theme: ThemeView { name: utf8_lossy(v), ..s.theme }, ..s },
            None => s,
        }
    } else if ev.name == lit("a:clrScheme") {
        ThemeStateView { in_clr_scheme: true, ..s }
    } else if ev.name == lit("a:fontScheme") {
        ThemeStateView { in_font_scheme: true, ..s }
    } else if ev.name == lit("a:majorFont") {
        ThemeStateView { in_major_font: s.in_major_font || s.in_font_scheme, ..s }
    } else if ev.name == lit("a:minorFont") {
        ThemeStateView { in_minor_font: s.in_minor_font || s.in_font_scheme, ..s }
    } else if ev.name == lit("a:latin") {
        theme_with_latin(s, ev)
    } else if s.in_clr_scheme {
        match s.slot {
            Some(slot) => ThemeStateView { theme: theme_with_color(s.theme, slot, ev), ..s },
            None => if spec_starts_with(ev.name, lit("a:")) {
                ThemeStateView { slot: Some(ev.name), ..s }
            } else {
                s
            },
        }
    } else {
        s
    }
}

/// The state after a self-closing tag: a typeface or a colour, which count in this form as
/// they do with an opening tag.
pub open spec fn theme_on_empty(s: ThemeStateView, ev: XmlEventView) -> ThemeStateView {
    if ev.name == lit("a:latin") {
        theme_with_latin(s, ev)
    } else if s.in_clr_scheme {
        match s.slot {
            Some(slot) => ThemeStateView { theme: theme_with_color(s.theme, slot, ev), ..s },
            None => s,
        }
    } else {
        s
    }
}

/// The state after a closing tag.
pub open spec fn theme_on_end(s: ThemeStateView, ev: XmlEventView) -> ThemeStateView {
    if ev.name == lit("a:clrScheme") {
        ThemeStateView { in_clr_scheme: false, ..s }
    } else if ev.name == lit("a:fontScheme") {
        ThemeStateView { in_font_scheme: false, ..s }
    } else if ev.name == lit("a:majorFont") {
        ThemeStateView { in_major_font: false, ..s }
    } else if ev.name == lit("a:minorFont") {
        ThemeStateView { in_minor_font: false, ..s }
    } else if s.in_clr_scheme && s.slot == Some(ev.name) {
        ThemeStateView { slot: None, ..s }
    } else {
        s
    }
}

/// The state after one event.
pub open spec fn theme_step(s: ThemeStateView, ev: XmlEventView) -> ThemeStateView {
    if ev.kind == XmlEventKind::Start {
        theme_on_start(s, ev)
    } else if ev.kind == XmlEventKind::Empty {
        theme_on_empty(s, ev)
    } else if ev.kind == XmlEventKind::End {
        theme_on_end(s, ev)
    } else {
        s
    }
}

/// The theme that the events from index `from` on lead to, starting in state `s`. An error
/// event fails the whole part.
pub open spec fn theme_from(events: Seq<XmlEventView>, from: int, s: ThemeStateView) -> Result<
    ThemeView,
    ErrorView,
>
    decreases events.len() - from,
{
    if from < 0 || from >= events.len() {
        Ok(s.theme)
    } else if events[from].kind == XmlEventKind::Error {
        Err(ErrorView::ParseError("XML error: "@ + events[from].detail))
    } else {
        theme_from(events, from + 1, theme_step(s, events[from]))
    }
}

/// The theme of a theme part, given by its events.
pub open spec fn theme_of_events(events: Seq<XmlEventView>) -> Result<ThemeView, ErrorView> {
    theme_from(events, 0, theme_start())
}

impl ThemeState {
    pub fn new() -> (s: ThemeState)
        ensures
            s.deep_view() == theme_start(),
    {
        ThemeState {
            theme: Theme::new(),
            in_clr_scheme: false,
            in_font_scheme: false,
            in_major_font: false,
            in_minor_font: false,
            slot: None,
        }
    }

    /// Enters the colour of a colour element under the open slot.
    fn take_color(&mut self, slot: &Vec<u8>, ev: &XmlEvent)
        ensures
            final(self).deep_view() == (ThemeStateView {
                theme: theme_with_color(old(self).deep_view().theme, slot@, ev.deep_view()),
                ..old(self).deep_view()
            }),
    {
        let val = last_attr(&ev.attrs, "val");
        let last = last_attr(&ev.attrs, "lastClr");
        let color: Option<&Vec<u8>> = if ev.named("a:sysClr") {
            match last {
                Some(v) => Some(v),
                None => val,
            }
        } else if ev.named("a:srgbClr") {
            val
        } else {
            None
        };
        match color {
            Some(v) => {
                let key = attr_value(strip_all(slot.as_slice(), "a:".as_bytes()).as_slice());
                self.theme.color_scheme.insert(key, attr_value(v.as_slice()));
            },
            None => {},
        }
    }

    fn on_start(&mut self, ev: &XmlEvent)
        ensures
            final(self).deep_view() == theme_on_start(old(self).deep_view(), ev.deep_view()),
    {
        if ev.named("a:theme") {
            match last_attr(&ev.attrs, "name") {
                Some(v) => {
                    self.theme.name = attr_value(v.as_slice());
                },
                None => {},
            }
        } else if ev.named("a:clrScheme") {
            self.in_clr_scheme = true;
        } else if ev.named("a:fontScheme") {
            self.in_font_scheme = true;
        } else if ev.named("a:majorFont") {
            if self.in_font_scheme {
                self.in_major_font = true;
            }
        } else if ev.named("a:minorFont") {
            if self.in_font_scheme {
                self.in_minor_font = true;
            }
        } else if ev.named("a:latin") {
            self.with_latin(ev);
        } else if self.in_clr_scheme {
            let slot = self.slot.take();
            match slot {
                Some(open) => {
                    self.take_color(&open, ev);
                    self.slot = Some(open);
                },
                None => {
                    if starts_with(ev.name.as_slice(), "a:".as_bytes()) {
                        self.slot = Some(bytes_to_vec(ev.name.as_slice()));
                    }
                },
            }
        }
    }

    fn with_latin(&mut self, ev: &XmlEvent)
        ensures
            final(self).deep_view() == theme_with_latin(old(self).deep_view(), ev.deep_view()),
    {
        match first_attr(&ev.attrs, "typeface") {
            Some(v) => {
                if self.in_major_font {
                    self.theme.major_font = Some(attr_value(v.as_slice()));
                } else if self.in_minor_font {
                    self.theme.minor_font = Some(attr_value(v.as_slice()));
                }
            },
            None => {},
        }
    }

    fn on_empty(&mut self, ev: &XmlEvent)
        ensures
            final(self).deep_view() == theme_on_empty(old(self).deep_view(), ev.deep_view()),
    {
        if ev.named("a:latin") {
            self.with_latin(ev);
        } else if self.in_clr_scheme {
            let slot = self.slot.take();
            match slot {
                Some(open) => {
                    self.take_color(&open, ev);
                    self.slot = Some(open);
                },
                None => {},
            }
        }
    }

    fn on_end(&mut self, ev: &XmlEvent)
        ensures
            final(self).deep_view() == theme_on_end(old(self).deep_view(), ev.deep_view()),
    {
        if ev.named("a:clrScheme") {
            self.in_clr_scheme = false;
        } else if ev.named("a:fontScheme") {
            self.in_font_scheme = false;
        } else if ev.named("a:majorFont") {
            self.in_major_font = false;
        } else if ev.named("a:minorFont") {
            self.in_minor_font = false;
        } else if self.in_clr_scheme {
            let closes = match &self.slot {
                Some(open) => bytes_eq(open.as_slice(), ev.name.as_slice()),
                None => false,
            };
            if closes {
                self.slot = None;
            }
        }
    }

    /// Takes one event in.
    pub fn step(&mut self, ev: &XmlEvent)
        ensures
            final(self).deep_view() == theme_step(old(self).deep_view(), ev.deep_view()),
    {
        match ev.kind {
            XmlEventKind::Start => self.on_start(ev),
            XmlEventKind::Empty => self.on_empty(ev),
            XmlEventKind::End => self.on_end(ev),
            _ => {},
        }
    }
}

/// The theme of a theme part, given by its events.
pub fn theme_from_events(events: &Vec<XmlEvent>) -> (r: Result<Theme, Error>)
    ensures
        result_view(r) == theme_of_events(events.deep_view()),
{
    let mut state = ThemeState::new();
    let mut i: usize = 0;
    while i < events.len()
        invariant
            i <= events.len(),
            theme_from(events.deep_view(), i as int, state.deep_view()) == theme_of_events(
                events.deep_view(),
            ),
        decreases events.len() - i,
    {
        let ev = &events[i];
        if ev.kind == XmlEventKind::Error {
            return Err(Error::parse_with("XML error: ", ev.detail.as_str()));
        }
        state.step(ev);
        i += 1;
    }
    Ok(state.theme)
}

/// Parses a theme part (usually `theme/theme1.xml`). Fails only on malformed XML.
pub fn parse_theme(content: &[u8]) -> (r: Result<Theme, Error>)
    ensures
        result_view(r) == theme_of_events(xml_events(content@, true)),
{
    let events = read_events(content, true);
    theme_from_events(&events)
}

/// A system colour resolves to its last known colour `lastClr` wherever it has one, whatever
/// its `val` says; only without one does `val` decide.
pub proof fn law_system_color_prefers_last(ev: XmlEventView)
    requires
        ev.name == lit("a:sysClr"),
    ensures
        attr_last(ev.attrs, lit("lastClr")) matches Some(last) ==> theme_color_value(ev) == Some(
            utf8_lossy(last),
        ),
        attr_last(ev.attrs, lit("lastClr")) is None ==> theme_color_value(ev) == match attr_last(
            ev.attrs,
            lit("val"),
        ) {
            Some(v) => Some(utf8_lossy(v)),
            None => None,
        },
{
}

} // verus!
