//! XML events as plain values, and the reader that produces them.

use quick_xml::events::Event;
use quick_xml::reader::Reader;
use vstd::prelude::*;
use vstd::utf8::decode_utf8;
use vstd::utf8::valid_utf8;
use crate::text::concat;
use crate::text::is_lit;
use crate::text::lit;
use crate::text::utf8_text;

verus! {

/// One attribute of an element: its name and its raw (still escaped) value.
pub struct XmlAttr {
    pub key: Vec<u8>,
    pub value: Vec<u8>,
}

pub ghost struct XmlAttrView {
    pub key: Seq<u8>,
    pub value: Seq<u8>,
}

impl DeepView for XmlAttr {
    type V = XmlAttrView;

    open spec fn deep_view(&self) -> XmlAttrView {
        XmlAttrView { key: self.key@, value: self.value@ }
    }
}

/// What kind of markup an event stands for.
#[derive(Clone, Copy, Debug, PartialEq, Eq, Structural)]
pub enum XmlEventKind {
    /// An opening tag.
    Start,
    /// A self-closing tag.
    Empty,
    /// A closing tag.
    End,
    /// Character data between tags.
    Text,
    /// A comment, CDATA section, declaration, processing instruction or doctype.
    Other,
    /// A syntax error; the reader yields nothing after it.
    Error,
    /// The end of the input.
    Eof,
}

/// One event of a streamed XML document.
pub struct XmlEvent {
    pub kind: XmlEventKind,
    /// Element name, for `Start`, `Empty` and `End`.
    pub name: Vec<u8>,
    /// Attributes, for `Start` and `Empty`.
    pub attrs: Vec<XmlAttr>,
    /// Raw character data, for `Text`.
    pub content: Vec<u8>,
    /// Description of the fault, for `Error`.
    pub message: String,
    /// The fault in its debugging form, for `Error`.
    pub detail: String,
    /// Offset in the input just behind this event.
    pub end: usize,
}

pub ghost struct XmlEventView {
    pub kind: XmlEventKind,
    pub name: Seq<u8>,
    pub attrs: Seq<XmlAttrView>,
    pub content: Seq<u8>,
    pub message: Seq<char>,
    pub detail: Seq<char>,
    pub end: nat,
}

impl DeepView for XmlEvent {
    type V = XmlEventView;

    open spec fn deep_view(&self) -> XmlEventView {
        XmlEventView {
            kind: self.kind,
            name: self.name@,
            attrs: self.attrs.deep_view(),
            content: self.content@,
            message: self.message@,
            detail: self.detail@,
            end: self.end as nat,
        }
    }
}

#[verifier::external_type_specification]
#[verifier::external_body]
#[verifier::reject_recursive_types(R)]
pub struct ExReader<R>(Reader<R>);

#[verifier::external_type_specification]
#[verifier::external_body]
pub struct ExEvent<'a>(Event<'a>);

/// The events that a reader yields for `input`, in order and up to the end of the input,
/// with text trimmed of surrounding white space when `trim_text` is set. An error that the
/// reader reports stands among them as an event of the kind `Error`, in its place.
pub uninterp spec fn xml_events(input: Seq<u8>, trim_text: bool) -> Seq<XmlEventView>;

/// The events that a reader has yet to yield.
pub uninterp spec fn reader_pending(reader: Reader<&[u8]>) -> Seq<XmlEventView>;

/// What a reader's event holds: its kind, element name, attributes and character data. The
/// message and the detail are empty and the offset 0, since the event itself carries none.
pub uninterp spec fn event_model(ev: Event) -> XmlEventView;

/// The event that stands for a reader's error.
pub open spec fn error_event(message: Seq<char>, detail: Seq<char>, end: nat) -> XmlEventView {
    XmlEventView {
        kind: XmlEventKind::Error,
        name: Seq::empty(),
        attrs: Seq::empty(),
        content: Seq::empty(),
        message,
        detail,
        end,
    }
}

/// Makes a reader over `xml`. Calls `Reader::from_reader` and `Reader::trim_text`: the new
/// reader has all events of the input before it.
#[verifier::external_body]
fn new_reader<'a>(xml: &'a [u8], trim_text: bool) -> (reader: Reader<&'a [u8]>)
    ensures
        reader_pending(reader) == xml_events(xml@, trim_text),
{
    let mut reader = Reader::from_reader(xml);
    reader.trim_text(trim_text);
    reader
}

/// Takes the next event off the reader, with the offset the reader then stands at. Calls
/// `Reader::read_event` and `Reader::buffer_position`: what comes back is the first pending
/// event, which is then no longer pending, an error (given by its `Display` and its `Debug`
/// text) being the kind `Error`; with nothing pending it is the end of the input, and nothing
/// changes.
#[verifier::external_body]
fn read_event<'a>(reader: &mut Reader<&'a [u8]>) -> (r: (
    Result<Event<'a>, (String, String)>,
    usize,
))
    ensures
        reader_pending(*old(reader)).len() > 0 ==> {
            &&& reader_pending(*final(reader)) == reader_pending(*old(reader)).drop_first()
            &&& r.1 == reader_pending(*old(reader))[0].end
            &&& r.0 matches Ok(ev) ==> {
                &&& event_model(ev) == (XmlEventView { end: 0, ..reader_pending(*old(reader))[0] })
                &&& event_model(ev).kind != XmlEventKind::Eof
                &&& event_model(ev).kind != XmlEventKind::Error
                &&& event_model(ev).message.len() == 0
                &&& event_model(ev).detail.len() == 0
            }
            &&& r.0 matches Err(fault) ==> reader_pending(*old(reader))[0] == error_event(
                fault.0@,
                fault.1@,
                r.1 as nat,
            )
        },
        reader_pending(*old(reader)).len() == 0 ==> {
            &&& reader_pending(*final(reader)).len() == 0
            &&& r.0 matches Ok(ev)
            &&& event_model(ev).kind == XmlEventKind::Eof
        },
{
    let read = reader.read_event().map_err(|e| (e.to_string(), format!("{e:?}")));
    (read, reader.buffer_position())
}

/// The kind of a reader's event, one for each variant of `Event` that the parsers tell apart.
#[verifier::external_body]
fn event_kind(ev: &Event) -> (kind: XmlEventKind)
    ensures
        kind == event_model(*ev).kind,
{
    match ev {
        Event::Start(_) => XmlEventKind::Start,
        Event::Empty(_) => XmlEventKind::Empty,
        Event::End(_) => XmlEventKind::End,
        Event::Text(_) => XmlEventKind::Text,
        Event::Eof => XmlEventKind::Eof,
        _ => XmlEventKind::Other,
    }
}

/// The element name of a tag event, from `BytesStart::name` or `BytesEnd::name`; empty for
/// the other kinds.
#[verifier::external_body]
fn event_name(ev: &Event) -> (name: Vec<u8>)
    ensures
        name@ == event_model(*ev).name,
{
    match ev {
        Event::Start(e) | Event::Empty(e) => e.name().0.to_vec(),
        Event::End(e) => e.name().0.to_vec(),
        _ => Vec::new(),
    }
}

/// The attributes of an opening or self-closing tag that `BytesStart::attributes` reads
/// without fault, in document order; none for the other kinds.
#[verifier::external_body]
fn event_attrs(ev: &Event) -> (attrs: Vec<XmlAttr>)
    ensures
        attrs.deep_view() == event_model(*ev).attrs,
{
    match ev {
        Event::Start(e) | Event::Empty(e) => e.attributes().flatten().map(
            |a| XmlAttr { key: a.key.0.to_vec(), value: a.value.to_vec() },
        ).collect(),
        _ => Vec::new(),
    }
}

/// The raw character data of a text event; empty for the other kinds.
#[verifier::external_body]
fn event_content(ev: &Event) -> (content: Vec<u8>)
    ensures
        content@ == event_model(*ev).content,
{
    match ev {
        Event::Text(e) => e.to_vec(),
        _ => Vec::new(),
    }
}

/// What unescaping makes of character data: `None` where an entity is malformed or unknown.
pub uninterp spec fn xml_unescape(raw: Seq<char>) -> Option<Seq<char>>;

/// Resolves character and predefined entity references. Calls `quick_xml::escape::unescape`,
/// which gives text without an ampersand back as it is.
#[verifier::external_body]
fn unescape_str(raw: &str) -> (r: Option<String>)
    ensures
        r.deep_view() == xml_unescape(raw@),
        !raw@.contains('&') ==> r.deep_view() == Some(raw@),
{
    quick_xml::escape::unescape(raw).ok().map(|c| c.into_owned())
}

/// The raw text that the reader gives for the inside of an element named `name` whose
/// opening tag stood just before `rest`: the source up to the closing tag that balances it,
/// undecoded entities and nested markup included. `None` where there is no such tag, the
/// markup on the way is broken, or the text is not UTF-8.
pub uninterp spec fn raw_span(rest: Seq<u8>, name: Seq<u8>) -> Option<Seq<char>>;

/// Reads the raw text of the inside of an element. Calls `Reader::from_reader` on `rest`,
/// `Reader::check_end_names` to switch the check of closing names off, since the opening tag
/// is not part of `rest`, and `Reader::read_text` with the element's name.
#[verifier::external_body]
pub(crate) fn read_raw_span(rest: &[u8], name: &[u8]) -> (r: Option<String>)
    ensures
        r.deep_view() == raw_span(rest@, name@),
{
    let mut reader = Reader::from_reader(rest);
    reader.check_end_names(false);
    reader.read_text(quick_xml::name::QName(name)).ok().map(|text| text.into_owned())
}

/// The text that a text event's raw bytes stand for: `None` where they are not UTF-8 or do
/// not unescape.
pub open spec fn spec_event_text(raw: Seq<u8>) -> Option<Seq<char>> {
    if valid_utf8(raw) {
        xml_unescape(decode_utf8(raw))
    } else {
        None
    }
}

pub fn event_text(raw: &[u8]) -> (r: Option<String>)
    ensures
        r.deep_view() == spec_event_text(raw@),
{
    match utf8_text(raw) {
        Some(s) => unescape_str(s.as_str()),
        None => None,
    }
}

/// Takes the next event off the reader, as plain values.
fn next_event<'a>(reader: &mut Reader<&'a [u8]>) -> (ev: XmlEvent)
    ensures
        reader_pending(*old(reader)).len() > 0 ==> {
            &&& ev.deep_view() == reader_pending(*old(reader))[0]
            &&& ev.kind != XmlEventKind::Eof
            &&& reader_pending(*final(reader)) == reader_pending(*old(reader)).drop_first()
        },
        reader_pending(*old(reader)).len() == 0 ==> {
            &&& ev.kind == XmlEventKind::Eof
            &&& reader_pending(*final(reader)).len() == 0
        },
{
    let (read, end) = read_event(reader);
    let ev = match read {
        Ok(raw) => XmlEvent {
            kind: event_kind(&raw),
            name: event_name(&raw),
            attrs: event_attrs(&raw),
            content: event_content(&raw),
            message: String::new(),
            detail: String::new(),
            end,
        },
        Err(fault) => XmlEvent {
            kind: XmlEventKind::Error,
            name: Vec::new(),
            attrs: Vec::new(),
            content: Vec::new(),
            message: fault.0,
            detail: fault.1,
            end,
        },
    };
    proof {
        let pending = reader_pending(*old(reader));
        if pending.len() > 0 {
            assert(ev.deep_view().message =~= pending[0].message);
            assert(ev.deep_view().detail =~= pending[0].detail);
            assert(ev.deep_view().attrs =~= pending[0].attrs);
        }
    }
    ev
}

/// Reads all events of `xml`.
pub fn read_events(xml: &[u8], trim_text: bool) -> (events: Vec<XmlEvent>)
    ensures
        events.deep_view() == xml_events(xml@, trim_text),
{
    let mut reader = new_reader(xml, trim_text);
    let mut events: Vec<XmlEvent> = Vec::new();
    loop
        invariant
            events.deep_view() + reader_pending(reader) == xml_events(xml@, trim_text),
        ensures
            events.deep_view() == xml_events(xml@, trim_text),
        decreases reader_pending(reader).len(),
    {
        let ev = next_event(&mut reader);
        if ev.kind == XmlEventKind::Eof {
            break;
        }
        events.push(ev);
    }
    events
}

/// The value of the first attribute named `key` at or behind index `from`.
pub open spec fn attr_first_from(attrs: Seq<XmlAttrView>, key: Seq<u8>, from: int) -> Option<
    Seq<u8>,
>
    decreases attrs.len() - from,
{
    if from < 0 || from >= attrs.len() {
        None
    } else if attrs[from].key == key {
        Some(attrs[from].value)
    } else {
        attr_first_from(attrs, key, from + 1)
    }
}

/// The value of the first attribute named `key`.
pub open spec fn attr_first(attrs: Seq<XmlAttrView>, key: Seq<u8>) -> Option<Seq<u8>> {
    attr_first_from(attrs, key, 0)
}

/// The value of the last attribute named `key` among the first `upto`.
pub open spec fn attr_last_upto(attrs: Seq<XmlAttrView>, key: Seq<u8>, upto: int) -> Option<
    Seq<u8>,
>
    decreases upto,
{
    if upto <= 0 || upto > attrs.len() {
        None
    } else if attrs[upto - 1].key == key {
        Some(attrs[upto - 1].value)
    } else {
        attr_last_upto(attrs, key, upto - 1)
    }
}

/// The value of the last attribute named `key`: the one that decides where a name occurs
/// more than once.
pub open spec fn attr_last(attrs: Seq<XmlAttrView>, key: Seq<u8>) -> Option<Seq<u8>> {
    attr_last_upto(attrs, key, attrs.len() as int)
}

/// The view of an optional borrowed byte string.
pub open spec fn opt_bytes(value: Option<&Vec<u8>>) -> Option<Seq<u8>> {
    match value {
        Some(v) => Some(v@),
        None => None,
    }
}

pub fn first_attr<'a>(attrs: &'a Vec<XmlAttr>, key: &str) -> (r: Option<&'a Vec<u8>>)
    ensures
        opt_bytes(r) == attr_first(attrs.deep_view(), lit(key)),
{
    let mut i: usize = 0;
    while i < attrs.len()
        invariant
            i <= attrs.len(),
            attr_first_from(attrs.deep_view(), lit(key), i as int) == attr_first(
                attrs.deep_view(),
                lit(key),
            ),
        decreases attrs.len() - i,
    {
        if is_lit(attrs[i].key.as_slice(), key) {
            return Some(&attrs[i].value);
        }
        i += 1;
    }
    None
}

pub fn last_attr<'a>(attrs: &'a Vec<XmlAttr>, key: &str) -> (r: Option<&'a Vec<u8>>)
    ensures
        opt_bytes(r) == attr_last(attrs.deep_view(), lit(key)),
{
    let mut i: usize = attrs.len();
    while i > 0
        invariant
            i <= attrs.len(),
            attr_last_upto(attrs.deep_view(), lit(key), i as int) == attr_last(
                attrs.deep_view(),
                lit(key),
            ),
        decreases i,
    {
        if is_lit(attrs[i - 1].key.as_slice(), key) {
            return Some(&attrs[i - 1].value);
        }
        i -= 1;
    }
    None
}

impl XmlEvent {
    /// Whether the event is an opening or a self-closing tag.
    pub open spec fn spec_opens(ev: XmlEventView) -> bool {
        ev.kind == XmlEventKind::Start || ev.kind == XmlEventKind::Empty
    }

    pub fn opens(&self) -> (r: bool)
        ensures
            r == Self::spec_opens(self.deep_view()),
    {
        self.kind == XmlEventKind::Start || self.kind == XmlEventKind::Empty
    }

    /// Whether the element name is exactly `name`.
    pub fn named(&self, name: &str) -> (r: bool)
        ensures
            r == (self.deep_view().name == lit(name)),
    {
        is_lit(self.name.as_slice(), name)
    }
}

/// The view of a result whose error is the library's.
pub open spec fn result_view<T: DeepView>(r: Result<T, crate::error::Error>) -> Result<
    T::V,
    crate::error::ErrorView,
> {
    match r {
        Ok(v) => Ok(v.deep_view()),
        Err(e) => Err(e.deep_view()),
    }
}

/// The message of the first error event at or behind index `from`.
pub open spec fn first_error_from(events: Seq<XmlEventView>, from: int) -> Option<Seq<char>>
    decreases events.len() - from,
{
    if from < 0 || from >= events.len() {
        None
    } else if events[from].kind == XmlEventKind::Error {
        Some(events[from].message)
    } else {
        first_error_from(events, from + 1)
    }
}

/// The message of the syntax error that the events hold, if they hold one.
pub fn find_error(events: &Vec<XmlEvent>) -> (r: Option<&String>)
    ensures
        r.deep_view() == first_error_from(events.deep_view(), 0),
{
    let mut i: usize = 0;
    while i < events.len()
        invariant
            i <= events.len(),
            first_error_from(events.deep_view(), i as int) == first_error_from(
                events.deep_view(),
                0,
            ),
        decreases events.len() - i,
    {
        if events[i].kind == XmlEventKind::Error {
            return Some(&events[i].message);
        }
        i += 1;
    }
    None
}

/// The number of elements that are still open behind the events from index `from` on,
/// where `depth` of them are open before it.
pub open spec fn depth_from(events: Seq<XmlEventView>, from: int, depth: nat) -> nat
    decreases events.len() - from,
{
    if from < 0 || from >= events.len() {
        depth
    } else if events[from].kind == XmlEventKind::Start {
        depth_from(events, from + 1, depth + 1)
    } else if events[from].kind == XmlEventKind::End && depth > 0 {
        depth_from(events, from + 1, (depth - 1) as nat)
    } else {
        depth_from(events, from + 1, depth)
    }
}

/// The number of elements that the events leave open.
pub fn open_elements(events: &Vec<XmlEvent>) -> (r: usize)
    ensures
        r == depth_from(events.deep_view(), 0, 0),
{
    let mut depth: usize = 0;
    let mut i: usize = 0;
    while i < events.len()
        invariant
            i <= events.len(),
            depth <= i,
            depth_from(events.deep_view(), i as int, depth as nat) == depth_from(
                events.deep_view(),
                0,
                0,
            ),
        decreases events.len() - i,
    {
        if events[i].kind == XmlEventKind::Start {
            depth += 1;
        } else if events[i].kind == XmlEventKind::End && depth > 0 {
            depth -= 1;
        }
        i += 1;
    }
    depth
}

/// What makes a part unusable as a whole: a syntax error, or an end of input that leaves an
/// element open.
pub open spec fn part_fault(events: Seq<XmlEventView>) -> Option<Seq<char>> {
    match first_error_from(events, 0) {
        Some(why) => Some("XML error: "@ + why),
        None => if depth_from(events, 0, 0) > 0 {
            Some("unexpected end of input"@)
        } else {
            None
        },
    }
}

/// Judges a part as a whole from the events read from it.
pub fn check_part(events: &Vec<XmlEvent>) -> (r: Option<String>)
    ensures
        r.deep_view() == part_fault(events.deep_view()),
{
    match find_error(events) {
        Some(why) => Some(concat("XML error: ", why.as_str())),
        None => if open_elements(events) > 0 {
            Some(String::from_str("unexpected end of input"))
        } else {
            None
        },
    }
}

} // verus!
