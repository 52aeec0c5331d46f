//! What a renderer is handed and what it says of itself.

use crate::format::Format;
use vstd::prelude::*;

verus! {

/// A range of pages to render.
#[derive(Debug, Clone, PartialEq, Eq)]
pub enum PageRange {
    /// All pages.
    All,
    /// The listed pages, counted from 1.
    Pages(Vec<u32>),
    /// The pages from `start` to `end`, both included and counted from 1.
    Range { start: u32, end: u32 },
}

pub ghost enum PageRangeView {
    All,
    Pages(Seq<u32>),
    Range { start: u32, end: u32 },
}

impl DeepView for PageRange {
    type V = PageRangeView;

    open spec fn deep_view(&self) -> PageRangeView {
        match self {
            PageRange::All => PageRangeView::All,
            PageRange::Pages(p) => PageRangeView::Pages(p@),
            PageRange::Range { start, end } => PageRangeView::Range { start: *start, end: *end },
        }
    }
}

/// Options for rendering documents.
#[derive(Debug, Clone)]
pub struct RenderOptions {
    /// The format to render to.
    pub format: Option<Format>,
    pub include_images: bool,
    pub preserve_formatting: bool,
    /// The pages to render; all where nothing is given.
    pub page_range: Option<PageRange>,
    /// Resolution for raster formats, in dots per inch.
    pub dpi: Option<u32>,
    /// Quality for lossy formats, from 0 to 100.
    pub quality: Option<u8>,
}

impl Default for RenderOptions {
    fn default() -> (r: RenderOptions)
        ensures
            r.format is None,
            !r.include_images,
            !r.preserve_formatting,
            r.page_range is None,
            r.dpi is None,
            r.quality is None,
    {
        RenderOptions {
            format: None,
            include_images: false,
            preserve_formatting: false,
            page_range: None,
            dpi: None,
            quality: None,
        }
    }
}

/// What a renderer is told about the rendering at hand.
#[derive(Debug, Clone)]
pub struct RenderContext {
    pub options: RenderOptions,
    /// File name of the target, as a hint.
    pub filename: Option<String>,
}

/// Features that a renderer may support.
#[derive(Debug, Clone, Copy, PartialEq, Eq, Structural)]
pub enum RenderFeature {
    TextRendering,
    ImageRendering,
    TableRendering,
    VectorRendering,
    PageRangeSupport,
    StreamingSupport,
}

/// What a renderer says of itself.
#[derive(Debug, Clone)]
pub struct RendererMetadata {
    pub name: String,
    pub version: String,
    pub features: Vec<RenderFeature>,
}

impl Default for RendererMetadata {
    fn default() -> (r: RendererMetadata)
        ensures
            r.name@.len() == 0,
            r.version@.len() == 0,
            r.features@.len() == 0,
    {
        RendererMetadata { name: String::new(), version: String::new(), features: Vec::new() }
    }
}

} // verus!
