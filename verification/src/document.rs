//! The unified document model: the format-independent structure that every parser fills.
//!
//! Lengths are whole English Metric Units (12,700 to the point), font sizes hundredths of a
//! point, rotations 60,000ths of a degree.

use vstd::prelude::*;
use vstd::string::StringSliceAdditionalSpecFns;
use crate::format::Format;
use crate::metadata::empty_metadata;
use crate::metadata::Metadata;
use crate::metadata::MetadataView;
use crate::text::concat;

verus! {

/// English Metric Units in one point.
pub const EMU_PER_POINT: i64 = 12700;

/// English Metric Units in one inch.
pub const EMU_PER_INCH: i64 = 914400;

/// English Metric Units in one millimetre.
pub const EMU_PER_MM: i64 = 36000;

/// Rotation units in one degree.
pub const ROTATION_PER_DEGREE: i64 = 60000;

/// Page dimensions, in EMU.
#[derive(Debug, Clone, Copy, PartialEq, Eq, Structural)]
pub struct Dimensions {
    pub width: i64,
    pub height: i64,
}

/// A rectangle (bounding box), in EMU.
#[derive(Debug, Clone, Copy, PartialEq, Eq, Structural)]
pub struct Rect {
    pub x: i64,
    pub y: i64,
    pub width: i64,
    pub height: i64,
}

/// A point, in EMU.
#[derive(Debug, Clone, Copy, PartialEq, Eq, Structural)]
pub struct Point {
    pub x: i64,
    pub y: i64,
}

/// Fill and outline of a shape or block.
#[derive(Debug, Clone)]
pub struct ShapeStyle {
    pub fill_color: Option<String>,
    pub stroke_color: Option<String>,
    /// Stroke width in EMU.
    pub stroke_width: Option<i64>,
}

pub ghost struct ShapeStyleView {
    pub fill_color: Option<Seq<char>>,
    pub stroke_color: Option<Seq<char>>,
    pub stroke_width: Option<i64>,
}

impl DeepView for ShapeStyle {
    type V = ShapeStyleView;

    open spec fn deep_view(&self) -> ShapeStyleView {
        ShapeStyleView {
            fill_color: self.fill_color.deep_view(),
            stroke_color: self.stroke_color.deep_view(),
            stroke_width: self.stroke_width,
        }
    }
}

/// Resolved character formatting of a run.
#[derive(Debug, Clone)]
pub struct TextStyle {
    pub font_family: Option<String>,
    /// Font size in hundredths of a point.
    pub font_size: Option<i64>,
    pub bold: bool,
    pub italic: bool,
    pub underline: bool,
    pub strikethrough: bool,
    pub color: Option<String>,
    pub background_color: Option<String>,
}

pub ghost struct TextStyleView {
    pub font_family: Option<Seq<char>>,
    pub font_size: Option<i64>,
    pub bold: bool,
    pub italic: bool,
    pub underline: bool,
    pub strikethrough: bool,
    pub color: Option<Seq<char>>,
    pub background_color: Option<Seq<char>>,
}

impl DeepView for TextStyle {
    type V = TextStyleView;

    open spec fn deep_view(&self) -> TextStyleView {
        TextStyleView {
            font_family: self.font_family.deep_view(),
            font_size: self.font_size,
            bold: self.bold,
            italic: self.italic,
            underline: self.underline,
            strikethrough: self.strikethrough,
            color: self.color.deep_view(),
            background_color: self.background_color.deep_view(),
        }
    }
}

/// A run of text with one style.
#[derive(Debug, Clone)]
pub struct TextRun {
    pub text: String,
    pub style: TextStyle,
    pub bounds: Option<Rect>,
    pub char_positions: Option<Vec<Point>>,
}

pub ghost struct TextRunView {
    pub text: Seq<char>,
    pub style: TextStyleView,
    pub bounds: Option<Rect>,
    pub char_positions: Option<Seq<Point>>,
}

impl DeepView for TextRun {
    type V = TextRunView;

    open spec fn deep_view(&self) -> TextRunView {
        TextRunView {
            text: self.text@,
            style: self.style.deep_view(),
            bounds: self.bounds,
            char_positions: match self.char_positions {
                Some(v) => Some(v@),
                None => None,
            },
        }
    }
}

/// A block of text: a paragraph or the text of a shape.
#[derive(Debug, Clone)]
pub struct TextBlock {
    pub bounds: Rect,
    pub runs: Vec<TextRun>,
    pub paragraph_style: Option<String>,
    pub style: ShapeStyle,
    pub rotation: i64,
}

pub ghost struct TextBlockView {
    pub bounds: Rect,
    pub runs: Seq<TextRunView>,
    pub paragraph_style: Option<Seq<char>>,
    pub style: ShapeStyleView,
    pub rotation: i64,
}

impl DeepView for TextBlock {
    type V = TextBlockView;

    open spec fn deep_view(&self) -> TextBlockView {
        TextBlockView {
            bounds: self.bounds,
            runs: self.runs.deep_view(),
            paragraph_style: self.paragraph_style.deep_view(),
            style: self.style.deep_view(),
            rotation: self.rotation,
        }
    }
}

/// A placed image, referring to a resource by id.
#[derive(Debug, Clone)]
pub struct ImageBlock {
    pub bounds: Rect,
    pub resource_id: String,
    pub alt_text: Option<String>,
    pub format: Option<String>,
    pub original_size: Option<Dimensions>,
    pub style: ShapeStyle,
    pub rotation: i64,
}

pub ghost struct ImageBlockView {
    pub bounds: Rect,
    pub resource_id: Seq<char>,
    pub alt_text: Option<Seq<char>>,
    pub format: Option<Seq<char>>,
    pub original_size: Option<Dimensions>,
    pub style: ShapeStyleView,
    pub rotation: i64,
}

impl DeepView for ImageBlock {
    type V = ImageBlockView;

    open spec fn deep_view(&self) -> ImageBlockView {
        ImageBlockView {
            bounds: self.bounds,
            resource_id: self.resource_id@,
            alt_text: self.alt_text.deep_view(),
            format: self.format.deep_view(),
            original_size: self.original_size,
            style: self.style.deep_view(),
            rotation: self.rotation,
        }
    }
}

/// Path drawing commands.
#[derive(Debug, Clone, Copy, PartialEq, Eq, Structural)]
pub enum PathCommand {
    MoveTo(Point),
    LineTo(Point),
    CurveTo { cp1: Point, cp2: Point, end: Point },
    QuadTo { cp: Point, end: Point },
    Close,
}

/// One path of a vector drawing.
#[derive(Debug, Clone)]
pub struct VectorPath {
    pub commands: Vec<PathCommand>,
    pub fill: Option<String>,
    pub stroke: Option<String>,
    pub stroke_width: Option<i64>,
}

pub ghost struct VectorPathView {
    pub commands: Seq<PathCommand>,
    pub fill: Option<Seq<char>>,
    pub stroke: Option<Seq<char>>,
    pub stroke_width: Option<i64>,
}

impl DeepView for VectorPath {
    type V = VectorPathView;

    open spec fn deep_view(&self) -> VectorPathView {
        VectorPathView {
            commands: self.commands@,
            fill: self.fill.deep_view(),
            stroke: self.stroke.deep_view(),
            stroke_width: self.stroke_width,
        }
    }
}

/// A vector drawing.
#[derive(Debug, Clone)]
pub struct VectorBlock {
    pub bounds: Rect,
    pub paths: Vec<VectorPath>,
}

pub ghost struct VectorBlockView {
    pub bounds: Rect,
    pub paths: Seq<VectorPathView>,
}

impl DeepView for VectorBlock {
    type V = VectorBlockView;

    open spec fn deep_view(&self) -> VectorBlockView {
        VectorBlockView { bounds: self.bounds, paths: self.paths.deep_view() }
    }
}

/// A table cell.
#[derive(Debug)]
pub struct TableCell {
    pub content: Vec<ContentBlock>,
    pub col_span: usize,
    pub row_span: usize,
    pub background_color: Option<String>,
}

/// A table row.
#[derive(Debug)]
pub struct TableRow {
    pub cells: Vec<TableCell>,
    /// Row height in EMU, where given.
    pub height: Option<i64>,
}

/// A table, stored as rows of cells.
#[derive(Debug)]
pub struct TableBlock {
    pub bounds: Rect,
    pub rows: Vec<TableRow>,
    pub column_count: usize,
    pub style: ShapeStyle,
    pub rotation: i64,
}

/// A group of nested blocks.
#[derive(Debug)]
pub struct ContainerBlock {
    pub bounds: Rect,
    pub children: Vec<ContentBlock>,
    pub container_type: Option<String>,
}

/// A content block of a page.
#[derive(Debug)]
pub enum ContentBlock {
    Text(TextBlock),
    Image(ImageBlock),
    Table(TableBlock),
    Vector(VectorBlock),
    Container(ContainerBlock),
}

pub ghost struct TableCellView {
    pub content: Seq<ContentBlockView>,
    pub col_span: nat,
    pub row_span: nat,
    pub background_color: Option<Seq<char>>,
}

pub ghost struct TableRowView {
    pub cells: Seq<TableCellView>,
    pub height: Option<i64>,
}

pub ghost struct TableBlockView {
    pub bounds: Rect,
    pub rows: Seq<TableRowView>,
    pub column_count: nat,
    pub style: ShapeStyleView,
    pub rotation: i64,
}

pub ghost struct ContainerBlockView {
    pub bounds: Rect,
    pub children: Seq<ContentBlockView>,
    pub container_type: Option<Seq<char>>,
}

pub ghost enum ContentBlockView {
    Text(TextBlockView),
    Image(ImageBlockView),
    Table(TableBlockView),
    Vector(VectorBlockView),
    Container(ContainerBlockView),
}

impl DeepView for TableCell {
    type V = TableCellView;

    open spec fn deep_view(&self) -> TableCellView
        decreases self,
    {
        TableCellView {
            content: Seq::new(
                self.content.len() as nat,
                |k: int|
                    if 0 <= k < self.content.len() {
                        self.content[k].deep_view()
                    } else {
                        arbitrary()
                    },
            ),
            col_span: self.col_span as nat,
            row_span: self.row_span as nat,
            background_color: self.background_color.deep_view(),
        }
    }
}

impl DeepView for TableRow {
    type V = TableRowView;

    open spec fn deep_view(&self) -> TableRowView
        decreases self,
    {
        TableRowView {
            cells: Seq::new(
                self.cells.len() as nat,
                |k: int|
                    if 0 <= k < self.cells.len() {
                        self.cells[k].deep_view()
                    } else {
                        arbitrary()
                    },
            ),
            height: self.height,
        }
    }
}

impl DeepView for TableBlock {
    type V = TableBlockView;

    open spec fn deep_view(&self) -> TableBlockView
        decreases self,
    {
        TableBlockView {
            bounds: self.bounds,
            rows: Seq::new(
                self.rows.len() as nat,
                |k: int|
                    if 0 <= k < self.rows.len() {
                        self.rows[k].deep_view()
                    } else {
                        arbitrary()
                    },
            ),
            column_count: self.column_count as nat,
            style: self.style.deep_view(),
            rotation: self.rotation,
        }
    }
}

impl DeepView for ContainerBlock {
    type V = ContainerBlockView;

    open spec fn deep_view(&self) -> ContainerBlockView
        decreases self,
    {
        ContainerBlockView {
            bounds: self.bounds,
            children: Seq::new(
                self.children.len() as nat,
                |k: int|
                    if 0 <= k < self.children.len() {
                        self.children[k].deep_view()
                    } else {
                        arbitrary()
                    },
            ),
            container_type: self.container_type.deep_view(),
        }
    }
}

impl DeepView for ContentBlock {
    type V = ContentBlockView;

    open spec fn deep_view(&self) -> ContentBlockView
        decreases self,
    {
        match self {
            ContentBlock::Text(b) => ContentBlockView::Text(b.deep_view()),
            ContentBlock::Image(b) => ContentBlockView::Image(b.deep_view()),
            ContentBlock::Table(b) => ContentBlockView::Table(b.deep_view()),
            ContentBlock::Vector(b) => ContentBlockView::Vector(b.deep_view()),
            ContentBlock::Container(b) => ContentBlockView::Container(b.deep_view()),
        }
    }
}

/// The nested views above are those that `Vec` gives element by element.
pub broadcast proof fn lemma_cell_view(cell: TableCell)
    ensures
        #[trigger] cell.deep_view() == (TableCellView {
            content: cell.content.deep_view(),
            col_span: cell.col_span as nat,
            row_span: cell.row_span as nat,
            background_color: cell.background_color.deep_view(),
        }),
{
    reveal_with_fuel(<TableCell as DeepView>::deep_view, 2);
    assert(cell.deep_view().content =~= cell.content.deep_view());
}

pub broadcast proof fn lemma_row_view(row: TableRow)
    ensures
        #[trigger] row.deep_view() == (TableRowView {
            cells: row.cells.deep_view(),
            height: row.height,
        }),
{
    reveal_with_fuel(<TableRow as DeepView>::deep_view, 2);
    assert(row.deep_view().cells =~= row.cells.deep_view());
}

pub broadcast proof fn lemma_table_view(table: TableBlock)
    ensures
        #[trigger] table.deep_view() == (TableBlockView {
            bounds: table.bounds,
            rows: table.rows.deep_view(),
            column_count: table.column_count as nat,
            style: table.style.deep_view(),
            rotation: table.rotation,
        }),
{
    reveal_with_fuel(<TableBlock as DeepView>::deep_view, 2);
    assert(table.deep_view().rows =~= table.rows.deep_view());
}

pub broadcast proof fn lemma_container_view(block: ContainerBlock)
    ensures
        #[trigger] block.deep_view() == (ContainerBlockView {
            bounds: block.bounds,
            children: block.children.deep_view(),
            container_type: block.container_type.deep_view(),
        }),
{
    reveal_with_fuel(<ContainerBlock as DeepView>::deep_view, 2);
    assert(block.deep_view().children =~= block.children.deep_view());
}

pub broadcast proof fn lemma_block_view(block: ContentBlock)
    ensures
        #[trigger] block.deep_view() == match block {
            ContentBlock::Text(b) => ContentBlockView::Text(b.deep_view()),
            ContentBlock::Image(b) => ContentBlockView::Image(b.deep_view()),
            ContentBlock::Table(b) => ContentBlockView::Table(b.deep_view()),
            ContentBlock::Vector(b) => ContentBlockView::Vector(b.deep_view()),
            ContentBlock::Container(b) => ContentBlockView::Container(b.deep_view()),
        },
{
    reveal_with_fuel(<ContentBlock as DeepView>::deep_view, 2);
}

pub broadcast group group_document_views {
    lemma_cell_view,
    lemma_row_view,
    lemma_table_view,
    lemma_container_view,
    lemma_block_view,
}

/// The rectangle at the origin with no extent: "let the consumer lay it out".
pub open spec fn zero_rect() -> Rect {
    Rect { x: 0, y: 0, width: 0, height: 0 }
}

/// The style that sets nothing.
pub open spec fn plain_text_style() -> TextStyleView {
    TextStyleView {
        font_family: None,
        font_size: None,
        bold: false,
        italic: false,
        underline: false,
        strikethrough: false,
        color: None,
        background_color: None,
    }
}

/// The shape style that sets nothing.
pub open spec fn plain_shape_style() -> ShapeStyleView {
    ShapeStyleView { fill_color: None, stroke_color: None, stroke_width: None }
}

/// A run of `text` in `style`, without geometry.
pub open spec fn run_of(text: Seq<char>, style: TextStyleView) -> TextRunView {
    TextRunView { text, style, bounds: None, char_positions: None }
}

/// A text block of `runs` in `bounds`, with nothing else set.
pub open spec fn text_block_of(bounds: Rect, runs: Seq<TextRunView>) -> TextBlockView {
    TextBlockView {
        bounds,
        runs,
        paragraph_style: None,
        style: plain_shape_style(),
        rotation: 0,
    }
}

/// A copy of an optional string.
pub fn copy_opt_string(value: &Option<String>) -> (r: Option<String>)
    ensures
        r.deep_view() == value.deep_view(),
{
    match value {
        Some(s) => Some(s.clone()),
        None => None,
    }
}

impl Default for Rect {
    fn default() -> (r: Rect)
        ensures
            r == zero_rect(),
    {
        Rect { x: 0, y: 0, width: 0, height: 0 }
    }
}

impl Rect {
    pub fn new(x: i64, y: i64, width: i64, height: i64) -> (r: Rect)
        ensures
            r == (Rect { x, y, width, height }),
    {
        Rect { x, y, width, height }
    }

    /// Whether `point` lies in the rectangle, its edges included.
    pub open spec fn spec_contains(&self, point: Point) -> bool {
        self.x <= point.x <= self.x + self.width && self.y <= point.y <= self.y + self.height
    }

    pub fn contains(&self, point: Point) -> (r: bool)
        ensures
            r == self.spec_contains(point),
    {
        let right: i128 = self.x as i128 + self.width as i128;
        let bottom: i128 = self.y as i128 + self.height as i128;
        point.x >= self.x && point.x as i128 <= right && point.y >= self.y && point.y as i128
            <= bottom
    }
}

impl Point {
    pub fn new(x: i64, y: i64) -> (p: Point)
        ensures
            p == (Point { x, y }),
    {
        Point { x, y }
    }
}

impl Default for TextStyle {
    fn default() -> (r: TextStyle)
        ensures
            r.deep_view() == plain_text_style(),
    {
        TextStyle {
            font_family: None,
            font_size: None,
            bold: false,
            italic: false,
            underline: false,
            strikethrough: false,
            color: None,
            background_color: None,
        }
    }
}

impl TextStyle {
    /// A copy of the style.
    pub fn copy(&self) -> (r: TextStyle)
        ensures
            r.deep_view() == self.deep_view(),
    {
        TextStyle {
            font_family: copy_opt_string(&self.font_family),
            font_size: self.font_size,
            bold: self.bold,
            italic: self.italic,
            underline: self.underline,
            strikethrough: self.strikethrough,
            color: copy_opt_string(&self.color),
            background_color: copy_opt_string(&self.background_color),
        }
    }
}

impl Default for ShapeStyle {
    fn default() -> (r: ShapeStyle)
        ensures
            r.deep_view() == plain_shape_style(),
    {
        ShapeStyle { fill_color: None, stroke_color: None, stroke_width: None }
    }
}

impl TextRun {
    /// A run with the style that sets nothing.
    pub fn new(text: &str) -> (r: TextRun)
        ensures
            r.deep_view() == run_of(text@, plain_text_style()),
    {
        TextRun {
            text: text.to_owned(),
            style: TextStyle::default(),
            bounds: None,
            char_positions: None,
        }
    }

    /// A run with the given style.
    pub fn with_style(text: &str, style: TextStyle) -> (r: TextRun)
        ensures
            r.deep_view() == run_of(text@, style.deep_view()),
    {
        TextRun { text: text.to_owned(), style, bounds: None, char_positions: None }
    }

    /// A run that takes over an owned text.
    pub fn from_parts(text: String, style: TextStyle) -> (r: TextRun)
        ensures
            r.deep_view() == run_of(text@, style.deep_view()),
    {
        TextRun { text, style, bounds: None, char_positions: None }
    }
}

impl TextBlock {
    /// An empty text block.
    pub fn new(bounds: Rect) -> (r: TextBlock)
        ensures
            r.deep_view() == text_block_of(bounds, Seq::empty()),
    {
        let r = TextBlock {
            bounds,
            runs: Vec::new(),
            paragraph_style: None,
            style: ShapeStyle::default(),
            rotation: 0,
        };
        assert(r.runs.deep_view() =~= Seq::<TextRunView>::empty());
        r
    }

    /// Appends a run.
    pub fn add_run(&mut self, run: TextRun)
        ensures
            final(self).deep_view() == (TextBlockView {
                runs: old(self).deep_view().runs.push(run.deep_view()),
                ..old(self).deep_view()
            }),
    {
        let ghost before = self.runs.deep_view();
        self.runs.push(run);
        assert(self.runs.deep_view() =~= before.push(run.deep_view()));
    }

    /// A text block of the given runs, with nothing else set.
    pub fn of_runs(bounds: Rect, runs: Vec<TextRun>) -> (r: TextBlock)
        ensures
            r.deep_view() == text_block_of(bounds, runs.deep_view()),
    {
        TextBlock { bounds, runs, paragraph_style: None, style: ShapeStyle::default(), rotation: 0 }
    }
}

/// Text alignment options.
#[derive(Debug, Clone, Copy, PartialEq, Eq, Structural)]
pub enum TextAlignment {
    Left,
    Center,
    Right,
    Justify,
}

impl Default for TextAlignment {
    fn default() -> (r: TextAlignment)
        ensures
            r == TextAlignment::Left,
    {
        TextAlignment::Left
    }
}

/// Paragraph formatting. Spacing and indents are in EMU, the line height in hundredths of
/// the font's own.
#[derive(Debug, Clone, Copy, PartialEq, Eq, Structural)]
pub struct ParagraphStyle {
    pub alignment: TextAlignment,
    pub line_height: Option<i64>,
    pub space_before: Option<i64>,
    pub space_after: Option<i64>,
    pub first_line_indent: Option<i64>,
    pub left_indent: Option<i64>,
    pub right_indent: Option<i64>,
}

/// The paragraph style that sets nothing: left-aligned.
pub open spec fn plain_paragraph_style() -> ParagraphStyle {
    ParagraphStyle {
        alignment: TextAlignment::Left,
        line_height: None,
        space_before: None,
        space_after: None,
        first_line_indent: None,
        left_indent: None,
        right_indent: None,
    }
}

impl Default for ParagraphStyle {
    fn default() -> (r: ParagraphStyle)
        ensures
            r == plain_paragraph_style(),
    {
        ParagraphStyle {
            alignment: TextAlignment::Left,
            line_height: None,
            space_before: None,
            space_after: None,
            first_line_indent: None,
            left_indent: None,
            right_indent: None,
        }
    }
}

/// Types of annotations.
#[derive(Debug, Clone)]
pub enum AnnotationType {
    Highlight,
    Underline,
    Strikeout,
    Comment,
    Redaction,
    Stamp,
    Ink,
    Link { url: String },
}

pub ghost enum AnnotationTypeView {
    Highlight,
    Underline,
    Strikeout,
    Comment,
    Redaction,
    Stamp,
    Ink,
    Link { url: Seq<char> },
}

impl DeepView for AnnotationType {
    type V = AnnotationTypeView;

    open spec fn deep_view(&self) -> AnnotationTypeView {
        match self {
            AnnotationType::Highlight => AnnotationTypeView::Highlight,
            AnnotationType::Underline => AnnotationTypeView::Underline,
            AnnotationType::Strikeout => AnnotationTypeView::Strikeout,
            AnnotationType::Comment => AnnotationTypeView::Comment,
            AnnotationType::Redaction => AnnotationTypeView::Redaction,
            AnnotationType::Stamp => AnnotationTypeView::Stamp,
            AnnotationType::Ink => AnnotationTypeView::Ink,
            AnnotationType::Link { url } => AnnotationTypeView::Link { url: url@ },
        }
    }
}

/// An annotation on a page.
#[derive(Debug, Clone)]
pub struct Annotation {
    /// Identifier, unique within the document.
    pub id: u128,
    pub annotation_type: AnnotationType,
    pub bounds: Rect,
    pub content: Option<String>,
    pub author: Option<String>,
    /// Creation time, in seconds since the Unix epoch.
    pub created: Option<i64>,
    pub color: Option<String>,
}

pub ghost struct AnnotationView {
    pub id: u128,
    pub annotation_type: AnnotationTypeView,
    pub bounds: Rect,
    pub content: Option<Seq<char>>,
    pub author: Option<Seq<char>>,
    pub created: Option<i64>,
    pub color: Option<Seq<char>>,
}

impl DeepView for Annotation {
    type V = AnnotationView;

    open spec fn deep_view(&self) -> AnnotationView {
        AnnotationView {
            id: self.id,
            annotation_type: self.annotation_type.deep_view(),
            bounds: self.bounds,
            content: self.content.deep_view(),
            author: self.author.deep_view(),
            created: self.created,
            color: self.color.deep_view(),
        }
    }
}

/// Page-specific metadata.
#[derive(Debug, Clone)]
pub struct PageMetadata {
    /// Page label, such as `ii` or `Slide 3`.
    pub label: Option<String>,
    /// Rotation in degrees: 0, 90, 180 or 270.
    pub rotation: i32,
}

pub ghost struct PageMetadataView {
    pub label: Option<Seq<char>>,
    pub rotation: i32,
}

impl DeepView for PageMetadata {
    type V = PageMetadataView;

    open spec fn deep_view(&self) -> PageMetadataView {
        PageMetadataView { label: self.label.deep_view(), rotation: self.rotation }
    }
}

/// The page metadata that sets nothing.
pub open spec fn plain_page_metadata() -> PageMetadataView {
    PageMetadataView { label: None, rotation: 0 }
}

impl Default for PageMetadata {
    fn default() -> (r: PageMetadata)
        ensures
            r.deep_view() == plain_page_metadata(),
    {
        PageMetadata { label: None, rotation: 0 }
    }
}

/// US Letter, 8.5 by 11 inches.
pub open spec fn letter_size() -> Dimensions {
    Dimensions { width: 7772400, height: 10058400 }
}

/// A4, 595.28 by 841.89 points.
pub open spec fn a4_size() -> Dimensions {
    Dimensions { width: 7560056, height: 10692003 }
}

impl Dimensions {
    pub fn new(width: i64, height: i64) -> (r: Dimensions)
        ensures
            r == (Dimensions { width, height }),
    {
        Dimensions { width, height }
    }

    /// US Letter, 8.5 by 11 inches (612 by 792 points).
    pub fn letter() -> (r: Dimensions)
        ensures
            r == letter_size(),
            r.width == 612 * EMU_PER_POINT,
            r.height == 792 * EMU_PER_POINT,
    {
        Dimensions { width: 7772400, height: 10058400 }
    }

    /// A4 (595.28 by 841.89 points).
    pub fn a4() -> (r: Dimensions)
        ensures
            r == a4_size(),
    {
        Dimensions { width: 7560056, height: 10692003 }
    }

    /// Dimensions given in hundredths of an inch.
    pub fn from_inches(width: i32, height: i32) -> (r: Dimensions)
        ensures
            r.width * 100 == width * EMU_PER_INCH,
            r.height * 100 == height * EMU_PER_INCH,
    {
        Dimensions { width: width as i64 * 9144, height: height as i64 * 9144 }
    }

    /// Dimensions given in whole millimetres.
    pub fn from_mm(width: i32, height: i32) -> (r: Dimensions)
        ensures
            r.width == width * EMU_PER_MM,
            r.height == height * EMU_PER_MM,
    {
        Dimensions { width: width as i64 * 36000, height: height as i64 * 36000 }
    }
}

impl Default for Dimensions {
    fn default() -> (r: Dimensions)
        ensures
            r == letter_size(),
    {
        Dimensions::letter()
    }
}

/// A single page of a document.
#[derive(Debug)]
pub struct Page {
    /// Page number, counted from 1.
    pub number: u32,
    pub dimensions: Dimensions,
    pub content: Vec<ContentBlock>,
    pub annotations: Vec<Annotation>,
    pub metadata: PageMetadata,
}

pub ghost struct PageView {
    pub number: u32,
    pub dimensions: Dimensions,
    pub content: Seq<ContentBlockView>,
    pub annotations: Seq<AnnotationView>,
    pub metadata: PageMetadataView,
}

impl DeepView for Page {
    type V = PageView;

    open spec fn deep_view(&self) -> PageView {
        PageView {
            number: self.number,
            dimensions: self.dimensions,
            content: self.content.deep_view(),
            annotations: self.annotations.deep_view(),
            metadata: self.metadata.deep_view(),
        }
    }
}

/// Whether the pages bear numbers from 1 upwards that rise strictly in the order of the
/// pages, as far as the largest number that a page can bear allows.
pub open spec fn pages_rise(pages: Seq<PageView>) -> bool {
    &&& forall|i: int| 0 <= i < pages.len() ==> (#[trigger] pages[i]).number >= 1
    &&& forall|i: int, j: int|
        0 <= i < j < pages.len() ==> (#[trigger] pages[i]).number < (#[trigger] pages[j]).number
            || pages[j].number == u32::MAX
}

/// The page of the given number, size and content, without annotations.
pub open spec fn page_of(
    number: u32,
    dimensions: Dimensions,
    content: Seq<ContentBlockView>,
    label: Option<Seq<char>>,
) -> PageView {
    PageView {
        number,
        dimensions,
        content,
        annotations: Seq::empty(),
        metadata: PageMetadataView { label, rotation: 0 },
    }
}

impl Page {
    /// An empty page.
    pub fn new(number: u32, dimensions: Dimensions) -> (r: Page)
        ensures
            r.deep_view() == page_of(number, dimensions, Seq::empty(), None),
    {
        let r = Page {
            number,
            dimensions,
            content: Vec::new(),
            annotations: Vec::new(),
            metadata: PageMetadata::default(),
        };
        assert(r.content.deep_view() =~= Seq::<ContentBlockView>::empty());
        assert(r.annotations.deep_view() =~= Seq::<AnnotationView>::empty());
        r
    }

    /// A page with the given content and label, without annotations.
    pub fn with_content(
        number: u32,
        dimensions: Dimensions,
        content: Vec<ContentBlock>,
        label: Option<String>,
    ) -> (r: Page)
        ensures
            r.deep_view() == page_of(number, dimensions, content.deep_view(), label.deep_view()),
    {
        let r = Page {
            number,
            dimensions,
            content,
            annotations: Vec::new(),
            metadata: PageMetadata { label, rotation: 0 },
        };
        assert(r.annotations.deep_view() =~= Seq::<AnnotationView>::empty());
        r
    }

    /// Appends a content block.
    pub fn add_content(&mut self, block: ContentBlock)
        ensures
            final(self).deep_view() == (PageView {
                content: old(self).deep_view().content.push(block.deep_view()),
                ..old(self).deep_view()
            }),
    {
        let ghost before = self.content.deep_view();
        self.content.push(block);
        assert(self.content.deep_view() =~= before.push(block.deep_view()));
    }
}

/// An embedded image.
#[derive(Debug, Clone)]
pub struct ImageResource {
    /// Identifier by which image blocks refer to the resource.
    pub id: String,
    pub mime_type: String,
    pub data: Option<Vec<u8>>,
    /// Where the image lives, if it is not embedded.
    pub url: Option<String>,
    /// Width in pixels.
    pub width: u32,
    /// Height in pixels.
    pub height: u32,
}

pub ghost struct ImageResourceView {
    pub id: Seq<char>,
    pub mime_type: Seq<char>,
    pub data: Option<Seq<u8>>,
    pub url: Option<Seq<char>>,
    pub width: u32,
    pub height: u32,
}

impl DeepView for ImageResource {
    type V = ImageResourceView;

    open spec fn deep_view(&self) -> ImageResourceView {
        ImageResourceView {
            id: self.id@,
            mime_type: self.mime_type@,
            data: match self.data {
                Some(d) => Some(d@),
                None => None,
            },
            url: self.url.deep_view(),
            width: self.width,
            height: self.height,
        }
    }
}

/// Information on a font.
#[derive(Debug, Clone)]
pub struct FontResource {
    pub family: String,
    /// Regular, Bold, Italic and the like.
    pub style: String,
    pub embedded: bool,
    pub data: Option<Vec<u8>>,
}

/// The images and fonts of a document.
#[derive(Debug, Clone)]
pub struct ResourceStore {
    pub images: Vec<ImageResource>,
    pub fonts: Vec<FontResource>,
}

/// A style under a name.
#[derive(Debug, Clone)]
pub struct NamedStyle<T> {
    pub name: String,
    pub style: T,
}

/// The named styles of a document.
#[derive(Debug, Clone)]
pub struct StyleSheet {
    pub text_styles: Vec<NamedStyle<TextStyle>>,
    pub paragraph_styles: Vec<NamedStyle<ParagraphStyle>>,
}

/// An entry of the outline (bookmarks).
#[derive(Debug)]
pub struct OutlineItem {
    pub title: String,
    pub page: u32,
    /// Vertical position on the page, in EMU.
    pub y_position: Option<i64>,
    pub children: Vec<OutlineItem>,
}

/// An entry of the table of contents.
#[derive(Debug, Clone)]
pub struct TocEntry {
    pub title: String,
    pub page: u32,
    /// Heading level, from 1 to 6.
    pub level: u8,
}

/// A heading.
#[derive(Debug, Clone)]
pub struct Heading {
    pub text: String,
    /// Heading level, from 1 to 6.
    pub level: u8,
    pub page: u32,
    pub bounds: Option<Rect>,
}

/// Outline, table of contents and headings.
#[derive(Debug)]
pub struct DocumentStructure {
    pub outline: Vec<OutlineItem>,
    pub toc: Vec<TocEntry>,
    pub headings: Vec<Heading>,
}

/// An embedded file.
#[derive(Debug, Clone)]
pub struct Attachment {
    pub filename: String,
    pub mime_type: Option<String>,
    pub description: Option<String>,
    pub data: Vec<u8>,
    /// Creation time, in seconds since the Unix epoch.
    pub created: Option<i64>,
    /// Time of the last change, in seconds since the Unix epoch.
    pub modified: Option<i64>,
}

/// Where a document came from.
#[derive(Debug, Clone)]
pub struct SourceInfo {
    pub filename: Option<String>,
    pub format: Option<Format>,
    /// File size in bytes.
    pub size: Option<u64>,
    /// Hash of the source content.
    pub hash: Option<String>,
    /// When the document was parsed, in seconds since the Unix epoch.
    pub parsed_at: Option<i64>,
}

pub ghost struct SourceInfoView {
    pub filename: Option<Seq<char>>,
    pub format: Option<crate::format::FormatView>,
    pub size: Option<u64>,
    pub hash: Option<Seq<char>>,
    pub parsed_at: Option<i64>,
}

impl DeepView for SourceInfo {
    type V = SourceInfoView;

    open spec fn deep_view(&self) -> SourceInfoView {
        SourceInfoView {
            filename: self.filename.deep_view(),
            format: self.format.deep_view(),
            size: self.size,
            hash: self.hash.deep_view(),
            parsed_at: self.parsed_at,
        }
    }
}

/// The source of which nothing is known.
pub open spec fn unknown_source() -> SourceInfoView {
    SourceInfoView { filename: None, format: None, size: None, hash: None, parsed_at: None }
}

impl Default for SourceInfo {
    fn default() -> (r: SourceInfo)
        ensures
            r.deep_view() == unknown_source(),
    {
        SourceInfo { filename: None, format: None, size: None, hash: None, parsed_at: None }
    }
}

/// A parsed document.
#[derive(Debug)]
pub struct Document {
    /// Identifier of this document instance.
    pub id: u128,
    pub source: SourceInfo,
    pub metadata: Metadata,
    pub pages: Vec<Page>,
    pub styles: StyleSheet,
    pub resources: ResourceStore,
    pub structure: DocumentStructure,
    pub attachments: Vec<Attachment>,
}

/// What a document holds, apart from its identifier. `bare` says that the document has
/// nothing besides its source, metadata, pages and images: no named styles, fonts, structure
/// or attachments.
pub ghost struct DocumentView {
    pub source: SourceInfoView,
    pub metadata: MetadataView,
    pub pages: Seq<PageView>,
    pub images: Seq<ImageResourceView>,
    pub bare: bool,
}

impl DeepView for Document {
    type V = DocumentView;

    open spec fn deep_view(&self) -> DocumentView {
        DocumentView {
            source: self.source.deep_view(),
            metadata: self.metadata.deep_view(),
            pages: self.pages.deep_view(),
            images: self.resources.images.deep_view(),
            bare: self.styles.text_styles.len() == 0
                && self.styles.paragraph_styles.len() == 0 && self.resources.fonts.len() == 0
                && self.structure.outline.len() == 0 && self.structure.toc.len() == 0
                && self.structure.headings.len() == 0 && self.attachments.len() == 0,
        }
    }
}

/// The document that holds nothing.
pub open spec fn empty_document() -> DocumentView {
    DocumentView {
        source: unknown_source(),
        metadata: empty_metadata(),
        pages: Seq::empty(),
        images: Seq::empty(),
        bare: true,
    }
}

/// A new identifier for a document. Calls `Uuid::new_v4`, which draws it at random, so
/// nothing is promised of the value.
#[verifier::external_body]
fn fresh_id() -> u128 {
    uuid::Uuid::new_v4().as_u128()
}

impl Document {
    /// An empty document under a fresh identifier.
    pub fn new() -> (r: Document)
        ensures
            r.deep_view() == empty_document(),
    {
        let r = Document {
            id: fresh_id(),
            source: SourceInfo::default(),
            metadata: Metadata::new(),
            pages: Vec::new(),
            styles: StyleSheet { text_styles: Vec::new(), paragraph_styles: Vec::new() },
            resources: ResourceStore { images: Vec::new(), fonts: Vec::new() },
            structure: DocumentStructure {
                outline: Vec::new(),
                toc: Vec::new(),
                headings: Vec::new(),
            },
            attachments: Vec::new(),
        };
        assert(r.pages.deep_view() =~= Seq::<PageView>::empty());
        assert(r.resources.images.deep_view() =~= Seq::<ImageResourceView>::empty());
        r
    }

    /// A document of the given metadata, pages and images, and nothing else.
    pub fn assemble(metadata: Metadata, pages: Vec<Page>, images: Vec<ImageResource>) -> (r:
        Document)
        ensures
            r.deep_view() == (DocumentView {
                source: unknown_source(),
                metadata: metadata.deep_view(),
                pages: pages.deep_view(),
                images: images.deep_view(),
                bare: true,
            }),
    {
        let mut r = Document::new();
        r.metadata = metadata;
        r.pages = pages;
        r.resources.images = images;
        r
    }

    /// Number of pages.
    pub fn page_count(&self) -> (n: usize)
        ensures
            n == self.deep_view().pages.len(),
    {
        self.pages.len()
    }

    /// The page with the given number, counted from 1.
    pub fn page(&self, number: usize) -> (r: Option<&Page>)
        ensures
            match r {
                Some(p) => 1 <= number <= self.pages.len() && *p == self.pages[number - 1],
                None => number == 0 || number > self.pages.len(),
            },
    {
        if number == 0 || number > self.pages.len() {
            None
        } else {
            Some(&self.pages[number - 1])
        }
    }
}

impl TextRun {
    /// A copy of the run.
    pub fn copy(&self) -> (r: TextRun)
        ensures
            r.deep_view() == self.deep_view(),
    {
        let positions = match &self.char_positions {
            Some(points) => {
                let mut out: Vec<Point> = Vec::new();
                let mut i: usize = 0;
                while i < points.len()
                    invariant
                        i <= points.len(),
                        out@ == points@.take(i as int),
                    decreases points.len() - i,
                {
                    out.push(points[i]);
                    i += 1;
                }
                assert(points@.take(i as int) =~= points@);
                Some(out)
            },
            None => None,
        };
        TextRun {
            text: self.text.clone(),
            style: self.style.copy(),
            bounds: self.bounds,
            char_positions: positions,
        }
    }
}

/// A copy of a list of runs.
pub fn copy_runs(runs: &Vec<TextRun>) -> (r: Vec<TextRun>)
    ensures
        r.deep_view() == runs.deep_view(),
{
    let mut out: Vec<TextRun> = Vec::new();
    let mut i: usize = 0;
    while i < runs.len()
        invariant
            i <= runs.len(),
            out.deep_view() == runs.deep_view().take(i as int),
        decreases runs.len() - i,
    {
        let ghost before = out.deep_view();
        let run = runs[i].copy();
        out.push(run);
        assert(out.deep_view() =~= before.push(run.deep_view()));
        i += 1;
    }
    out
}

/// The texts from index `from` on, each behind `sep` but the very first, behind `acc`.
pub open spec fn join_from(parts: Seq<Seq<char>>, sep: Seq<char>, from: int, acc: Seq<char>) -> Seq<
    char,
>
    decreases parts.len() - from,
{
    if from < 0 || from >= parts.len() {
        acc
    } else if from == 0 {
        join_from(parts, sep, from + 1, acc + parts[from])
    } else {
        join_from(parts, sep, from + 1, acc + sep + parts[from])
    }
}

/// The texts joined with `sep` between them.
pub open spec fn joined(parts: Seq<Seq<char>>, sep: Seq<char>) -> Seq<char> {
    join_from(parts, sep, 0, Seq::empty())
}

/// Joins texts with `sep` between them.
pub fn join(parts: &Vec<String>, sep: &str) -> (r: String)
    ensures
        r@ == joined(parts.deep_view(), sep@),
{
    let mut out = String::new();
    let mut i: usize = 0;
    while i < parts.len()
        invariant
            i <= parts.len(),
            join_from(parts.deep_view(), sep@, i as int, out@) == joined(parts.deep_view(), sep@),
        decreases parts.len() - i,
    {
        if i != 0 {
            out = concat(out.as_str(), sep);
        }
        out = concat(out.as_str(), parts[i].as_str());
        i += 1;
    }
    out
}

/// The texts of the runs from index `from` on, behind `acc`.
pub open spec fn runs_text_from(runs: Seq<TextRunView>, from: int, acc: Seq<char>) -> Seq<char>
    decreases runs.len() - from,
{
    if from < 0 || from >= runs.len() {
        acc
    } else {
        runs_text_from(runs, from + 1, acc + runs[from].text)
    }
}

/// The plain text of a text block: the texts of its runs, strung together.
pub open spec fn text_block_text(block: TextBlockView) -> Seq<char> {
    runs_text_from(block.runs, 0, Seq::empty())
}

impl TextBlock {
    /// The plain text of the block.
    pub fn extract_text(&self) -> (r: String)
        ensures
            r@ == text_block_text(self.deep_view()),
    {
        let mut out = String::new();
        let mut i: usize = 0;
        while i < self.runs.len()
            invariant
                i <= self.runs.len(),
                runs_text_from(self.runs.deep_view(), i as int, out@) == text_block_text(
                    self.deep_view(),
                ),
            decreases self.runs.len() - i,
        {
            out = concat(out.as_str(), self.runs[i].text.as_str());
            i += 1;
        }
        out
    }
}

/// The texts of the text blocks among the blocks from index `from` on, behind `acc`.
pub open spec fn text_parts_from(
    blocks: Seq<ContentBlockView>,
    from: int,
    acc: Seq<Seq<char>>,
) -> Seq<Seq<char>>
    decreases blocks.len() - from,
{
    if from < 0 || from >= blocks.len() {
        acc
    } else {
        match blocks[from] {
            ContentBlockView::Text(t) => text_parts_from(
                blocks,
                from + 1,
                acc.push(text_block_text(t)),
            ),
            _ => text_parts_from(blocks, from + 1, acc),
        }
    }
}

/// The plain text of a cell: the texts of its text blocks, with a space between them.
pub open spec fn cell_text(cell: TableCellView) -> Seq<char> {
    joined(text_parts_from(cell.content, 0, Seq::empty()), " "@)
}

impl TableCell {
    /// The plain text of the cell.
    pub fn extract_text(&self) -> (r: String)
        ensures
            r@ == cell_text(self.deep_view()),
    {
        broadcast use group_document_views;

        let mut parts: Vec<String> = Vec::new();
        assert(parts.deep_view() =~= Seq::<Seq<char>>::empty());
        let mut i: usize = 0;
        while i < self.content.len()
            invariant
                i <= self.content.len(),
                text_parts_from(self.content.deep_view(), i as int, parts.deep_view())
                    == text_parts_from(self.content.deep_view(), 0, Seq::empty()),
            decreases self.content.len() - i,
        {
            match &self.content[i] {
                ContentBlock::Text(t) => {
                    let ghost before = parts.deep_view();
                    let text = t.extract_text();
                    parts.push(text);
                    assert(parts.deep_view() =~= before.push(text@));
                },
                _ => {},
            }
            i += 1;
        }
        join(&parts, " ")
    }
}

/// The texts of the cells from index `from` on, behind `acc`.
pub open spec fn cell_texts_from(cells: Seq<TableCellView>, from: int, acc: Seq<Seq<char>>) -> Seq<
    Seq<char>,
>
    decreases cells.len() - from,
{
    if from < 0 || from >= cells.len() {
        acc
    } else {
        cell_texts_from(cells, from + 1, acc.push(cell_text(cells[from])))
    }
}

/// The texts of the rows from index `from` on, each row's cells joined with tabs, behind
/// `acc`.
pub open spec fn row_texts_from(rows: Seq<TableRowView>, from: int, acc: Seq<Seq<char>>) -> Seq<
    Seq<char>,
>
    decreases rows.len() - from,
{
    if from < 0 || from >= rows.len() {
        acc
    } else {
        row_texts_from(
            rows,
            from + 1,
            acc.push(joined(cell_texts_from(rows[from].cells, 0, Seq::empty()), "\t"@)),
        )
    }
}

/// The plain text of a table: one line for each row, the cells of a row set apart by tabs.
pub open spec fn table_text(table: TableBlockView) -> Seq<char> {
    joined(row_texts_from(table.rows, 0, Seq::empty()), "\n"@)
}

impl TableRow {
    /// The plain text of the row: the texts of its cells, set apart by tabs.
    pub fn extract_text(&self) -> (r: String)
        ensures
            r@ == joined(cell_texts_from(self.deep_view().cells, 0, Seq::empty()), "\t"@),
    {
        broadcast use group_document_views;

        let mut parts: Vec<String> = Vec::new();
        assert(parts.deep_view() =~= Seq::<Seq<char>>::empty());
        let mut i: usize = 0;
        while i < self.cells.len()
            invariant
                i <= self.cells.len(),
                cell_texts_from(self.cells.deep_view(), i as int, parts.deep_view())
                    == cell_texts_from(self.cells.deep_view(), 0, Seq::empty()),
            decreases self.cells.len() - i,
        {
            let ghost before = parts.deep_view();
            let text = self.cells[i].extract_text();
            parts.push(text);
            assert(parts.deep_view() =~= before.push(text@));
            i += 1;
        }
        join(&parts, "\t")
    }
}

impl TableBlock {
    /// An empty table of the given number of columns.
    pub fn new(bounds: Rect, column_count: usize) -> (r: TableBlock)
        ensures
            r.deep_view() == (TableBlockView {
                bounds,
                rows: Seq::empty(),
                column_count: column_count as nat,
                style: plain_shape_style(),
                rotation: 0,
            }),
    {
        broadcast use group_document_views;

        let r = TableBlock {
            bounds,
            rows: Vec::new(),
            column_count,
            style: ShapeStyle::default(),
            rotation: 0,
        };
        assert(r.rows.deep_view() =~= Seq::<TableRowView>::empty());
        r
    }

    /// Appends a row.
    pub fn add_row(&mut self, row: TableRow)
        ensures
            final(self).deep_view() == (TableBlockView {
                rows: old(self).deep_view().rows.push(row.deep_view()),
                ..old(self).deep_view()
            }),
    {
        broadcast use group_document_views;

        let ghost before = self.rows.deep_view();
        self.rows.push(row);
        assert(self.rows.deep_view() =~= before.push(row.deep_view()));
    }

    /// The plain text of the table.
    pub fn extract_text(&self) -> (r: String)
        ensures
            r@ == table_text(self.deep_view()),
    {
        broadcast use group_document_views;

        let mut parts: Vec<String> = Vec::new();
        assert(parts.deep_view() =~= Seq::<Seq<char>>::empty());
        let mut i: usize = 0;
        while i < self.rows.len()
            invariant
                i <= self.rows.len(),
                row_texts_from(self.rows.deep_view(), i as int, parts.deep_view())
                    == row_texts_from(self.rows.deep_view(), 0, Seq::empty()),
            decreases self.rows.len() - i,
        {
            let ghost before = parts.deep_view();
            let text = self.rows[i].extract_text();
            parts.push(text);
            assert(parts.deep_view() =~= before.push(text@));
            i += 1;
        }
        join(&parts, "\n")
    }
}

/// The texts of the text blocks and tables among the blocks from index `from` on, behind
/// `acc`.
pub open spec fn block_texts_from(
    blocks: Seq<ContentBlockView>,
    from: int,
    acc: Seq<Seq<char>>,
) -> Seq<Seq<char>>
    decreases blocks.len() - from,
{
    if from < 0 || from >= blocks.len() {
        acc
    } else {
        match blocks[from] {
            ContentBlockView::Text(t) => block_texts_from(
                blocks,
                from + 1,
                acc.push(text_block_text(t)),
            ),
            ContentBlockView::Table(t) => block_texts_from(blocks, from + 1, acc.push(table_text(t))),
            _ => block_texts_from(blocks, from + 1, acc),
        }
    }
}

/// The plain text of a page: the texts of its text blocks and tables, one to a line.
pub open spec fn page_text(page: PageView) -> Seq<char> {
    joined(block_texts_from(page.content, 0, Seq::empty()), "\n"@)
}

/// The texts of the pages from index `from` on, behind `acc`.
pub open spec fn page_texts_from(pages: Seq<PageView>, from: int, acc: Seq<Seq<char>>) -> Seq<
    Seq<char>,
>
    decreases pages.len() - from,
{
    if from < 0 || from >= pages.len() {
        acc
    } else {
        page_texts_from(pages, from + 1, acc.push(page_text(pages[from])))
    }
}

/// The plain text of a document: the texts of its pages, an empty line between them.
pub open spec fn document_text(doc: DocumentView) -> Seq<char> {
    joined(page_texts_from(doc.pages, 0, Seq::empty()), "\n\n"@)
}

impl Page {
    /// The plain text of the page.
    pub fn extract_text(&self) -> (r: String)
        ensures
            r@ == page_text(self.deep_view()),
    {
        broadcast use group_document_views;

        let mut parts: Vec<String> = Vec::new();
        assert(parts.deep_view() =~= Seq::<Seq<char>>::empty());
        let mut i: usize = 0;
        while i < self.content.len()
            invariant
                i <= self.content.len(),
                block_texts_from(self.content.deep_view(), i as int, parts.deep_view())
                    == block_texts_from(self.content.deep_view(), 0, Seq::empty()),
            decreases self.content.len() - i,
        {
            match &self.content[i] {
                ContentBlock::Text(t) => {
                    let ghost before = parts.deep_view();
                    let text = t.extract_text();
                    parts.push(text);
                    assert(parts.deep_view() =~= before.push(text@));
                },
                ContentBlock::Table(t) => {
                    let ghost before = parts.deep_view();
                    let text = t.extract_text();
                    parts.push(text);
                    assert(parts.deep_view() =~= before.push(text@));
                },
                _ => {},
            }
            i += 1;
        }
        join(&parts, "\n")
    }
}

impl Document {
    /// A builder that starts from an empty document.
    pub fn builder() -> (r: DocumentBuilder)
        ensures
            r.deep_view() == empty_document(),
    {
        DocumentBuilder::new()
    }

    /// The plain text of the document.
    pub fn extract_text(&self) -> (r: String)
        ensures
            r@ == document_text(self.deep_view()),
    {
        let mut parts: Vec<String> = Vec::new();
        assert(parts.deep_view() =~= Seq::<Seq<char>>::empty());
        let mut i: usize = 0;
        while i < self.pages.len()
            invariant
                i <= self.pages.len(),
                page_texts_from(self.pages.deep_view(), i as int, parts.deep_view())
                    == page_texts_from(self.pages.deep_view(), 0, Seq::empty()),
            decreases self.pages.len() - i,
        {
            let ghost before = parts.deep_view();
            let text = self.pages[i].extract_text();
            parts.push(text);
            assert(parts.deep_view() =~= before.push(text@));
            i += 1;
        }
        join(&parts, "\n\n")
    }
}

/// Builds a document step by step.
#[derive(Debug)]
pub struct DocumentBuilder {
    document: Document,
}

impl DeepView for DocumentBuilder {
    type V = DocumentView;

    closed spec fn deep_view(&self) -> DocumentView {
        self.document.deep_view()
    }
}

impl DocumentBuilder {
    pub fn new() -> (r: DocumentBuilder)
        ensures
            r.deep_view() == empty_document(),
    {
        DocumentBuilder { document: Document::new() }
    }

    /// Sets the metadata.
    pub fn metadata(self, metadata: Metadata) -> (r: DocumentBuilder)
        ensures
            r.deep_view() == (DocumentView { metadata: metadata.deep_view(), ..self.deep_view() }),
    {
        let mut b = self;
        b.document.metadata = metadata;
        b
    }

    /// Appends a page.
    pub fn page(self, page: Page) -> (r: DocumentBuilder)
        ensures
            r.deep_view() == (DocumentView {
                pages: self.deep_view().pages.push(page.deep_view()),
                ..self.deep_view()
            }),
    {
        let mut b = self;
        let ghost before = b.document.pages.deep_view();
        b.document.pages.push(page);
        assert(b.document.pages.deep_view() =~= before.push(page.deep_view()));
        b
    }

    /// Sets the source information.
    pub fn source(self, source: SourceInfo) -> (r: DocumentBuilder)
        ensures
            r.deep_view() == (DocumentView { source: source.deep_view(), ..self.deep_view() }),
    {
        let mut b = self;
        b.document.source = source;
        b
    }

    /// The document built.
    pub fn build(self) -> (r: Document)
        ensures
            r.deep_view() == self.deep_view(),
    {
        self.document
    }
}

/// The length in bytes of the white space character that stands at index `at` of UTF-8
/// text, or 0 where none stands there.
pub open spec fn space_len(s: Seq<u8>, at: int) -> int {
    if at < 0 || at >= s.len() {
        0
    } else if s[at] == 0x20 || (0x09 <= s[at] <= 0x0D) {
        1
    } else if at + 1 < s.len() && s[at] == 0xC2 && (s[at + 1] == 0x85 || s[at + 1] == 0xA0) {
        2
    } else if at + 2 < s.len() && ((s[at] == 0xE1 && s[at + 1] == 0x9A && s[at + 2] == 0x80) || (
    s[at] == 0xE2 && s[at + 1] == 0x80 && ((0x80 <= s[at + 2] <= 0x8A) || s[at + 2] == 0xA8
        || s[at + 2] == 0xA9 || s[at + 2] == 0xAF)) || (s[at] == 0xE2 && s[at + 1] == 0x81
        && s[at + 2] == 0x9F) || (s[at] == 0xE3 && s[at + 1] == 0x80 && s[at + 2] == 0x80)) {
        3
    } else {
        0
    }
}

/// The number of words that begin at or behind index `from` of UTF-8 text, a word being a
/// stretch without white space; `in_word` says that a word is under way at `from`.
pub open spec fn words_from(s: Seq<u8>, from: int, in_word: bool) -> nat
    decreases s.len() - from,
{
    if from < 0 || from >= s.len() {
        0
    } else if space_len(s, from) > 0 {
        words_from(s, from + space_len(s, from), false)
    } else if in_word {
        words_from(s, from + 1, true)
    } else {
        1 + words_from(s, from + 1, true)
    }
}

/// Counts the words of a text.
pub fn count_words(text: &str) -> (n: usize)
    ensures
        n == words_from(text.spec_bytes(), 0, false),
{
    let s = text.as_bytes();
    let mut n: usize = 0;
    let mut in_word = false;
    let mut i: usize = 0;
    while i < s.len()
        invariant
            i <= s.len(),
            n <= i,
            n + words_from(s@, i as int, in_word) == words_from(s@, 0, false),
        decreases s.len() - i,
    {
        let b = s[i];
        let k: usize = if b == 0x20 || (0x09 <= b && b <= 0x0D) {
            1
        } else if s.len() - i > 1 && b == 0xC2 && (s[i + 1] == 0x85 || s[i + 1] == 0xA0) {
            2
        } else if s.len() - i > 2 && ((b == 0xE1 && s[i + 1] == 0x9A && s[i + 2] == 0x80) || (b
            == 0xE2 && s[i + 1] == 0x80 && ((0x80 <= s[i + 2] && s[i + 2] <= 0x8A) || s[i + 2]
            == 0xA8 || s[i + 2] == 0xA9 || s[i + 2] == 0xAF)) || (b == 0xE2 && s[i + 1] == 0x81
            && s[i + 2] == 0x9F) || (b == 0xE3 && s[i + 1] == 0x80 && s[i + 2] == 0x80)) {
            3
        } else {
            0
        };
        if k > 0 {
            in_word = false;
            i += k;
        } else {
            if !in_word {
                n += 1;
            }
            in_word = true;
            i += 1;
        }
    }
    n
}

impl Document {
    /// Number of words in the text of the document.
    pub fn word_count(&self) -> (n: usize)
        ensures
            n == words_from(vstd::utf8::encode_utf8(document_text(self.deep_view())), 0, false),
    {
        let text = self.extract_text();
        count_words(text.as_str())
    }
}

/// The length in EMU of a length in hundredths of a point.
pub open spec fn spec_points_to_emu(hundredths: int) -> int {
    hundredths * 127
}

/// The length in hundredths of a point of a length in EMU, rounded towards zero.
pub open spec fn spec_emu_to_points(emu: int) -> int {
    if emu >= 0 {
        emu / 127
    } else {
        -((-emu) / 127)
    }
}

/// Converts a length in hundredths of a point to EMU; `None` where the result does not fit.
pub fn points_to_emu(hundredths: i64) -> (r: Option<i64>)
    ensures
        r == (if i64::MIN <= spec_points_to_emu(hundredths as int) <= i64::MAX {
            Some(spec_points_to_emu(hundredths as int) as i64)
        } else {
            None
        }),
{
    let wide: i128 = hundredths as i128 * 127;
    if wide < i64::MIN as i128 || wide > i64::MAX as i128 {
        None
    } else {
        Some(wide as i64)
    }
}

/// Converts a length in EMU to hundredths of a point, rounding towards zero.
pub fn emu_to_points(emu: i64) -> (r: i64)
    ensures
        r == spec_emu_to_points(emu as int),
{
    let wide: i128 = emu as i128;
    if wide >= 0 {
        (wide / 127) as i64
    } else {
        let back: i128 = (-wide) / 127;
        (-back) as i64
    }
}

/// A length in hundredths of a point comes back unchanged from a conversion to EMU and
/// back.
pub proof fn law_points_round_trip(hundredths: int)
    ensures
        spec_emu_to_points(spec_points_to_emu(hundredths)) == hundredths,
{
    if hundredths >= 0 {
        assert((hundredths * 127) / 127 == hundredths) by (nonlinear_arith);
    } else {
        assert(-(hundredths * 127) == (-hundredths) * 127) by (nonlinear_arith);
        assert(((-hundredths) * 127) / 127 == -hundredths) by (nonlinear_arith);
    }
}

/// A length in EMU comes back from a conversion to hundredths of a point and back less
/// than one hundredth of a point nearer to zero.
pub proof fn law_emu_round_trip_is_close(emu: int)
    ensures
        emu >= 0 ==> emu - 127 < spec_points_to_emu(spec_emu_to_points(emu)) <= emu,
        emu < 0 ==> emu <= spec_points_to_emu(spec_emu_to_points(emu)) < emu + 127,
{
    if emu >= 0 {
        assert(emu - 127 < (emu / 127) * 127 <= emu) by (nonlinear_arith)
            requires
                emu >= 0,
        ;
    } else {
        let m = -emu;
        assert(m - 127 < (m / 127) * 127 <= m) by (nonlinear_arith)
            requires
                m >= 0,
        ;
        assert((-(m / 127)) * 127 == -((m / 127) * 127)) by (nonlinear_arith);
    }
}

} // verus!
