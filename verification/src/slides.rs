//! Slides of a presentation.

use vstd::prelude::*;
use vstd::string::StringSliceAdditionalSpecFns;
use crate::document::ContentBlock;
use crate::document::ContentBlockView;
use crate::document::Dimensions;
use crate::document::group_document_views;
use crate::document::ImageBlockView;
use crate::document::Page;
use crate::document::page_of;
use crate::document::PageView;
use crate::shapes::parse_background;
use crate::shapes::parse_graphic_frame;
use crate::shapes::parse_picture;
use crate::shapes::parse_shape;
use crate::shapes::resolve_target;
use crate::shapes::resolve_target_of;
use crate::shapes::spec_parse_background;
use crate::shapes::spec_parse_graphic_frame;
use crate::shapes::spec_parse_picture;
use crate::shapes::spec_parse_shape;
use crate::strmap::StrEntryView;
use crate::strmap::StrMap;
use crate::tables::advance;
use crate::tables::no_blocks;
use crate::tables::push_block;
use crate::text::concat;
use crate::text::decimal_string;
use crate::text::decimal_text;
use crate::text::lit;
use crate::xml::read_events;
use crate::xml::xml_events;
use crate::xml::XmlEvent;
use crate::xml::XmlEventKind;
use crate::xml::XmlEventView;

verus! {

broadcast use group_document_views;

/// The parser for single slides.
#[derive(Debug, Clone, Copy)]
pub struct SlideParser;

/// An image block whose resource id is resolved once more against the slide's
/// relationships; any other block as it is.
pub open spec fn resolved_again(block: ContentBlockView, rels: Seq<StrEntryView>) -> ContentBlockView {
    match block {
        ContentBlockView::Image(img) => ContentBlockView::Image(
            ImageBlockView { resource_id: resolve_target(rels, img.resource_id), ..img },
        ),
        _ => block,
    }
}

/// The content after a background: the background comes first, whatever was read before it.
pub open spec fn slide_with_background(
    content: Seq<ContentBlockView>,
    block: Option<ContentBlockView>,
    rels: Seq<StrEntryView>,
) -> Seq<ContentBlockView> {
    match block {
        Some(b) => seq![resolved_again(b, rels)] + content,
        None => content,
    }
}

/// The content after a shape, a picture or a graphic frame: its block comes last.
pub open spec fn slide_with_block(
    content: Seq<ContentBlockView>,
    block: Option<ContentBlockView>,
) -> Seq<ContentBlockView> {
    match block {
        Some(b) => content.push(b),
        None => content,
    }
}

/// The content of a slide, reading from `pos` with `content` gathered so far.
pub open spec fn slide_from(
    events: Seq<XmlEventView>,
    pos: int,
    content: Seq<ContentBlockView>,
    rels: Seq<StrEntryView>,
    dimensions: Dimensions,
) -> Seq<ContentBlockView>
    decreases events.len() - pos,
{
    if pos < 0 || pos >= events.len() {
        content
    } else {
        let ev = events[pos];
        if ev.kind != XmlEventKind::Start {
            slide_from(events, pos + 1, content, rels, dimensions)
        } else if ev.name == lit("p:bg") {
            let inner = spec_parse_background(events, pos + 1, rels, dimensions);
            slide_from(
                events,
                advance(events, pos, inner.1),
                slide_with_background(content, inner.0, rels),
                rels,
                dimensions,
            )
        } else if ev.name == lit("p:sp") {
            let inner = spec_parse_shape(events, pos + 1);
            slide_from(
                events,
                advance(events, pos, inner.1),
                slide_with_block(content, inner.0),
                rels,
                dimensions,
            )
        } else if ev.name == lit("p:pic") {
            let inner = spec_parse_picture(events, pos + 1, rels);
            slide_from(
                events,
                advance(events, pos, inner.1),
                content.push(resolved_again(inner.0, rels)),
                rels,
                dimensions,
            )
        } else if ev.name == lit("p:graphicFrame") {
            let inner = spec_parse_graphic_frame(events, pos + 1);
            slide_from(
                events,
                advance(events, pos, inner.1),
                slide_with_block(content, inner.0),
                rels,
                dimensions,
            )
        } else {
            slide_from(events, pos + 1, content, rels, dimensions)
        }
    }
}

/// The label of a slide.
pub open spec fn slide_label(slide_num: u32) -> Seq<char> {
    "Slide "@ + decimal_text(slide_num as nat)
}

/// The page of a slide, given by its events: the blocks in document order, but for a
/// background, which comes first.
pub open spec fn slide_page(
    events: Seq<XmlEventView>,
    slide_num: u32,
    rels: Seq<StrEntryView>,
    dimensions: Dimensions,
) -> PageView {
    page_of(
        slide_num,
        dimensions,
        slide_from(events, 0, Seq::empty(), rels, dimensions),
        Some(slide_label(slide_num)),
    )
}

fn resolve_again(block: ContentBlock, rels: &StrMap) -> (r: ContentBlock)
    ensures
        r.deep_view() == resolved_again(block.deep_view(), rels.deep_view()),
{
    match block {
        ContentBlock::Image(img) => {
            let mut image = img;
            image.resource_id = resolve_target_of(rels, image.resource_id.as_str());
            ContentBlock::Image(image)
        },
        other => other,
    }
}

impl SlideParser {
    /// The page of a slide, given by its events.
    pub fn parse_events(
        events: &Vec<XmlEvent>,
        slide_num: u32,
        rels: &StrMap,
        dimensions: Dimensions,
    ) -> (r: Page)
        ensures
            r.deep_view() == slide_page(
                events.deep_view(),
                slide_num,
                rels.deep_view(),
                dimensions,
            ),
    {
        let mut content = no_blocks();
        let mut i: usize = 0;
        while i < events.len()
            invariant
                i <= events.len(),
                slide_from(
                    events.deep_view(),
                    i as int,
                    content.deep_view(),
                    rels.deep_view(),
                    dimensions,
                ) == slide_from(
                    events.deep_view(),
                    0,
                    Seq::empty(),
                    rels.deep_view(),
                    dimensions,
                ),
            decreases events.len() - i,
        {
            let ev = &events[i];
            if ev.kind != XmlEventKind::Start {
                i += 1;
            } else if ev.named("p:bg") {
                let (block, next) = parse_background(events, i + 1, rels, dimensions);
                match block {
                    Some(b) => {
                        let ghost before = content.deep_view();
                        let first = resolve_again(b, rels);
                        content.insert(0, first);
                        assert(content.deep_view() =~= seq![first.deep_view()] + before);
                    },
                    None => {},
                }
                i = next;
            } else if ev.named("p:sp") {
                let (block, next) = parse_shape(events, i + 1);
                match block {
                    Some(b) => {
                        push_block(&mut content, b);
                    },
                    None => {},
                }
                i = next;
            } else if ev.named("p:pic") {
                let (block, next) = parse_picture(events, i + 1, rels);
                match block {
                    Some(b) => {
                        push_block(&mut content, resolve_again(b, rels));
                    },
                    None => {},
                }
                i = next;
            } else if ev.named("p:graphicFrame") {
                let (block, next) = parse_graphic_frame(events, i + 1);
                match block {
                    Some(b) => {
                        push_block(&mut content, b);
                    },
                    None => {},
                }
                i = next;
            } else {
                i += 1;
            }
        }
        let number = decimal_string(slide_num as u64);
        Page::with_content(
            slide_num,
            dimensions,
            content,
            Some(concat("Slide ", number.as_str())),
        )
    }

    /// Parses the XML of one slide into a page.
    pub fn parse(xml: &str, slide_num: u32, rels: &StrMap, dimensions: Dimensions) -> (r: Page)
        ensures
            r.deep_view() == slide_page(
                xml_events(xml.spec_bytes(), true),
                slide_num,
                rels.deep_view(),
                dimensions,
            ),
    {
        let events = read_events(xml.as_bytes(), true);
        SlideParser::parse_events(&events, slide_num, rels, dimensions)
    }
}

} // verus!
