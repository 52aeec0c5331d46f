//! The registry of parsers: at most one parser for each MIME type.
//!
//! A parser is entered under the MIME type of the format that it handles and takes the place
//! of the parser that stood there. The parsers are kept in the order of first entry.

use crate::document::Document;
use crate::document::DocumentView;
use crate::docx::DocxParser;
use crate::error::Error;
use crate::error::ErrorView;
use crate::format::Format;
use crate::format::FormatView;
use crate::html::HtmlParser;
use crate::parser::ParseContext;
use crate::parser::Parser;
use crate::parser::ParserMetadata;
use crate::parser::ParserMetadataView;
use crate::plain::TextParser;
use crate::pptx::PptxParser;
use crate::text::str_eq;
use crate::xlsx::XlsxParser;
use vstd::prelude::*;

verus! {

/// One of the parsers that this library brings.
#[derive(Debug, Clone, Copy)]
pub enum BuiltinParser {
    Docx(DocxParser),
    Pptx(PptxParser),
    Xlsx(XlsxParser),
    Text(TextParser),
    Html(HtmlParser),
}

impl Parser for BuiltinParser {
    open spec fn handled(&self) -> FormatView {
        match self {
            BuiltinParser::Docx(p) => p.handled(),
            BuiltinParser::Pptx(p) => p.handled(),
            BuiltinParser::Xlsx(p) => p.handled(),
            BuiltinParser::Text(p) => p.handled(),
            BuiltinParser::Html(p) => p.handled(),
        }
    }

    open spec fn accepts(&self, data: Seq<u8>) -> bool {
        match self {
            BuiltinParser::Docx(p) => p.accepts(data),
            BuiltinParser::Pptx(p) => p.accepts(data),
            BuiltinParser::Xlsx(p) => p.accepts(data),
            BuiltinParser::Text(p) => p.accepts(data),
            BuiltinParser::Html(p) => p.accepts(data),
        }
    }

    open spec fn outcome(&self, data: Seq<u8>, filename: Option<Seq<char>>) -> Result<
        DocumentView,
        ErrorView,
    > {
        match self {
            BuiltinParser::Docx(p) => p.outcome(data, filename),
            BuiltinParser::Pptx(p) => p.outcome(data, filename),
            BuiltinParser::Xlsx(p) => p.outcome(data, filename),
            BuiltinParser::Text(p) => p.outcome(data, filename),
            BuiltinParser::Html(p) => p.outcome(data, filename),
        }
    }

    open spec fn described(&self) -> ParserMetadataView {
        match self {
            BuiltinParser::Docx(p) => p.described(),
            BuiltinParser::Pptx(p) => p.described(),
            BuiltinParser::Xlsx(p) => p.described(),
            BuiltinParser::Text(p) => p.described(),
            BuiltinParser::Html(p) => p.described(),
        }
    }

    fn format(&self) -> (r: Format) {
        match self {
            BuiltinParser::Docx(p) => p.format(),
            BuiltinParser::Pptx(p) => p.format(),
            BuiltinParser::Xlsx(p) => p.format(),
            BuiltinParser::Text(p) => p.format(),
            BuiltinParser::Html(p) => p.format(),
        }
    }

    fn can_parse(&self, data: &[u8]) -> (r: bool) {
        match self {
            BuiltinParser::Docx(p) => p.can_parse(data),
            BuiltinParser::Pptx(p) => p.can_parse(data),
            BuiltinParser::Xlsx(p) => p.can_parse(data),
            BuiltinParser::Text(p) => p.can_parse(data),
            BuiltinParser::Html(p) => p.can_parse(data),
        }
    }

    fn parse(&self, data: &[u8], context: ParseContext) -> (r: Result<Document, Error>) {
        match self {
            BuiltinParser::Docx(p) => p.parse(data, context),
            BuiltinParser::Pptx(p) => p.parse(data, context),
            BuiltinParser::Xlsx(p) => p.parse(data, context),
            BuiltinParser::Text(p) => Parser::parse(p, data, context),
            BuiltinParser::Html(p) => Parser::parse(p, data, context),
        }
    }

    fn metadata(&self) -> (r: ParserMetadata) {
        match self {
            BuiltinParser::Docx(p) => p.metadata(),
            BuiltinParser::Pptx(p) => p.metadata(),
            BuiltinParser::Xlsx(p) => p.metadata(),
            BuiltinParser::Text(p) => p.metadata(),
            BuiltinParser::Html(p) => p.metadata(),
        }
    }
}

/// A parser with the MIME type that it stands under.
pub struct Slot<P> {
    pub mime: String,
    pub parser: P,
}

pub ghost struct SlotView<P> {
    pub mime: Seq<char>,
    pub parser: P,
}

impl<P> DeepView for Slot<P> {
    type V = SlotView<P>;

    open spec fn deep_view(&self) -> SlotView<P> {
        SlotView { mime: self.mime@, parser: self.parser }
    }
}

/// The index of the first slot at or behind `from` that stands under `mime`.
pub open spec fn slot_index_from<P>(slots: Seq<SlotView<P>>, mime: Seq<char>, from: int) -> Option<
    int,
>
    decreases slots.len() - from,
{
    if from < 0 || from >= slots.len() {
        None
    } else if slots[from].mime == mime {
        Some(from)
    } else {
        slot_index_from(slots, mime, from + 1)
    }
}

/// The parser that stands under `mime`.
pub open spec fn slot_find<P>(slots: Seq<SlotView<P>>, mime: Seq<char>) -> Option<P> {
    match slot_index_from(slots, mime, 0) {
        Some(k) => Some(slots[k].parser),
        None => None,
    }
}

/// The slots after `parser` is entered: it stands under the MIME type of the format that it
/// handles, in the place of the parser that stood there, or last where there was none.
pub open spec fn slot_put<P: Parser>(slots: Seq<SlotView<P>>, parser: P) -> Seq<SlotView<P>> {
    let mime = parser.handled().mime_type;
    match slot_index_from(slots, mime, 0) {
        Some(k) => slots.update(k, SlotView { mime, parser }),
        None => slots.push(SlotView { mime, parser }),
    }
}

/// Whether no two slots stand under one MIME type.
pub open spec fn slots_distinct<P>(slots: Seq<SlotView<P>>) -> bool {
    forall|i: int, j: int|
        0 <= i < j < slots.len() ==> (#[trigger] slots[i]).mime != (#[trigger] slots[j]).mime
}

/// The parsers on offer, one for each MIME type at most.
pub struct ParserRegistry<P> {
    slots: Vec<Slot<P>>,
}

impl<P> DeepView for ParserRegistry<P> {
    type V = Seq<SlotView<P>>;

    closed spec fn deep_view(&self) -> Seq<SlotView<P>> {
        self.slots.deep_view()
    }
}

impl<P: Parser> ParserRegistry<P> {
    /// An empty registry.
    pub fn new() -> (r: Self)
        ensures
            r.deep_view() == Seq::<SlotView<P>>::empty(),
    {
        let r = ParserRegistry { slots: Vec::new() };
        r
    }

    fn index_of(&self, mime: &str) -> (r: Option<usize>)
        ensures
            match r {
                Some(k) => slot_index_from(self.deep_view(), mime@, 0) == Some(k as int) && k
                    < self.slots.len(),
                None => slot_index_from(self.deep_view(), mime@, 0) is None,
            },
    {
        let mut i: usize = 0;
        while i < self.slots.len()
            invariant
                i <= self.slots.len(),
                slot_index_from(self.slots.deep_view(), mime@, i as int) == slot_index_from(
                    self.slots.deep_view(),
                    mime@,
                    0,
                ),
            decreases self.slots.len() - i,
        {
            if str_eq(self.slots[i].mime.as_str(), mime) {
                return Some(i);
            }
            i += 1;
        }
        None
    }

    /// Enters a parser for the format that it handles.
    pub fn register(&mut self, parser: P)
        ensures
            final(self).deep_view() == slot_put(old(self).deep_view(), parser),
    {
        let format = parser.format();
        match self.index_of(format.mime_type.as_str()) {
            Some(k) => {
                self.slots.set(k, Slot { mime: format.mime_type, parser });
            },
            None => {
                self.slots.push(Slot { mime: format.mime_type, parser });
            },
        }
    }

    /// The parser for a format.
    pub fn get_parser(&self, format: &Format) -> (r: Option<&P>)
        ensures
            match slot_find(self.deep_view(), format.mime_type@) {
                Some(p) => r == Some(&p),
                None => r is None,
            },
    {
        match self.index_of(format.mime_type.as_str()) {
            Some(k) => {
                Some(&self.slots[k].parser)
            },
            None => None,
        }
    }

    /// The parser for a format, if its cheap check accepts the data.
    pub fn get_parser_for_data(&self, format: &Format, data: &[u8]) -> (r: Option<&P>)
        ensures
            match slot_find(self.deep_view(), format.mime_type@) {
                Some(p) => if p.accepts(data@) {
                    r == Some(&p)
                } else {
                    r is None
                },
                None => r is None,
            },
    {
        match self.get_parser(format) {
            Some(parser) => if parser.can_parse(data) {
                Some(parser)
            } else {
                None
            },
            None => None,
        }
    }

    /// All parsers, in the order of first entry.
    pub fn all_parsers(&self) -> (r: Vec<&P>)
        ensures
            r@.len() == self.deep_view().len(),
            forall|i: int| 0 <= i < r@.len() ==> *(#[trigger] r@[i]) == self.deep_view()[i].parser,
    {
        let mut all: Vec<&P> = Vec::new();
        let mut i: usize = 0;
        while i < self.slots.len()
            invariant
                i <= self.slots.len(),
                all@.len() == i,
                forall|k: int|
                    0 <= k < i ==> *(#[trigger] all@[k]) == self.slots.deep_view()[k].parser,
            decreases self.slots.len() - i,
        {
            all.push(&self.slots[i].parser);
            i += 1;
        }
        all
    }

    /// Whether a parser is entered for a format.
    pub fn has_parser(&self, format: &Format) -> (r: bool)
        ensures
            r == slot_find(self.deep_view(), format.mime_type@).is_some(),
    {
        self.index_of(format.mime_type.as_str()).is_some()
    }

    /// Number of parsers.
    pub fn count(&self) -> (n: usize)
        ensures
            n == self.deep_view().len(),
    {
        self.slots.len()
    }
}

impl ParserRegistry<BuiltinParser> {
    /// A registry that holds the parsers that this library brings.
    pub fn with_builtin_parsers() -> (r: Self)
        ensures
            r.deep_view() == slot_put(
                slot_put(
                    slot_put(
                        slot_put(
                            slot_put(Seq::empty(), BuiltinParser::Docx(DocxParser)),
                            BuiltinParser::Pptx(PptxParser),
                        ),
                        BuiltinParser::Xlsx(XlsxParser),
                    ),
                    BuiltinParser::Text(TextParser),
                ),
                BuiltinParser::Html(HtmlParser),
            ),
    {
        let mut registry = ParserRegistry::new();
        registry.register(BuiltinParser::Docx(DocxParser::new()));
        registry.register(BuiltinParser::Pptx(PptxParser::new()));
        registry.register(BuiltinParser::Xlsx(XlsxParser::new()));
        registry.register(BuiltinParser::Text(TextParser::new()));
        registry.register(BuiltinParser::Html(HtmlParser::new()));
        registry
    }
}

proof fn lemma_slot_index<P>(slots: Seq<SlotView<P>>, mime: Seq<char>, from: int)
    requires
        0 <= from,
    ensures
        match slot_index_from(slots, mime, from) {
            Some(k) => from <= k < slots.len() && slots[k].mime == mime && forall|i: int|
                from <= i < k ==> (#[trigger] slots[i]).mime != mime,
            None => forall|i: int| from <= i < slots.len() ==> (#[trigger] slots[i]).mime != mime,
        },
    decreases slots.len() - from,
{
    if from < slots.len() && slots[from].mime != mime {
        lemma_slot_index(slots, mime, from + 1);
    }
}

proof fn lemma_slot_index_is<P>(slots: Seq<SlotView<P>>, mime: Seq<char>, from: int, k: int)
    requires
        0 <= from <= k < slots.len(),
        slots[k].mime == mime,
        forall|i: int| from <= i < k ==> (#[trigger] slots[i]).mime != mime,
    ensures
        slot_index_from(slots, mime, from) == Some(k),
    decreases k - from,
{
    if from < k {
        lemma_slot_index_is(slots, mime, from + 1, k);
    }
}

/// A parser that was entered is found under the MIME type of its format.
pub proof fn law_entered_parser_is_found<P: Parser>(slots: Seq<SlotView<P>>, parser: P)
    ensures
        slot_find(slot_put(slots, parser), parser.handled().mime_type) == Some(parser),
{
    let mime = parser.handled().mime_type;
    let after = slot_put(slots, parser);
    lemma_slot_index(slots, mime, 0);
    match slot_index_from(slots, mime, 0) {
        Some(k) => {
            assert forall|i: int| 0 <= i < k implies (#[trigger] after[i]).mime != mime by {
                assert(after[i] == slots[i]);
            }
            lemma_slot_index_is(after, mime, 0, k);
        },
        None => {
            assert forall|i: int| 0 <= i < slots.len() implies (#[trigger] after[i]).mime
                != mime by {
                assert(after[i] == slots[i]);
            }
            lemma_slot_index_is(after, mime, 0, slots.len() as int);
        },
    }
}

/// Entering a parser leaves the parsers for all other MIME types as they were.
pub proof fn law_other_parsers_stay<P: Parser>(
    slots: Seq<SlotView<P>>,
    parser: P,
    mime: Seq<char>,
)
    requires
        mime != parser.handled().mime_type,
    ensures
        slot_find(slot_put(slots, parser), mime) == slot_find(slots, mime),
{
    let own = parser.handled().mime_type;
    let after = slot_put(slots, parser);
    lemma_slot_index(slots, own, 0);
    lemma_slot_index(slots, mime, 0);
    match slot_index_from(slots, mime, 0) {
        Some(k) => {
            assert(after[k] == slots[k]);
            assert forall|i: int| 0 <= i < k implies (#[trigger] after[i]).mime != mime by {
                if i < slots.len() && after[i] != slots[i] {
                    assert(after[i].mime == own);
                }
            }
            lemma_slot_index_is(after, mime, 0, k);
        },
        None => {
            lemma_slot_index(after, mime, 0);
            match slot_index_from(after, mime, 0) {
                Some(k) => {
                    // The slot found is the one entered, or it stood there before.
                    assert(after[k].mime == own || (k < slots.len() && after[k] == slots[k]));
                    assert(false);
                },
                None => {},
            }
        },
    }
}

/// A registry never holds two parsers for one MIME type: entering a parser keeps the MIME
/// types distinct.
pub proof fn law_one_parser_for_each_type<P: Parser>(slots: Seq<SlotView<P>>, parser: P)
    requires
        slots_distinct(slots),
    ensures
        slots_distinct(slot_put(slots, parser)),
{
    let mime = parser.handled().mime_type;
    let after = slot_put(slots, parser);
    lemma_slot_index(slots, mime, 0);
    assert forall|i: int, j: int| 0 <= i < j < after.len() implies (#[trigger] after[i]).mime != (
    #[trigger] after[j]).mime by {
        match slot_index_from(slots, mime, 0) {
            Some(k) => {
                assert(after[i].mime == slots[i].mime);
                assert(after[j].mime == slots[j].mime);
            },
            None => {
                assert(after[i] == slots[i]);
                if j < slots.len() {
                    assert(after[j] == slots[j]);
                }
            },
        }
    }
}

} // verus!
