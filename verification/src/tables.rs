//! Tables of word-processing documents (`w:tbl`) and of DrawingML (`a:tbl`).

use vstd::prelude::*;
use crate::document::ContentBlock;
use crate::document::ContentBlockView;
use crate::document::group_document_views;
use crate::document::plain_shape_style;
use crate::document::plain_text_style;
use crate::document::Rect;
use crate::document::run_of;
use crate::document::ShapeStyle;
use crate::document::TableBlock;
use crate::document::TableBlockView;
use crate::document::TableCell;
use crate::document::TableCellView;
use crate::document::TableRow;
use crate::document::TableRowView;
use crate::document::text_block_of;
use crate::document::TextBlock;
use crate::document::TextRun;
use crate::document::TextRunView;
use crate::document::TextStyle;
use crate::document::zero_rect;
use crate::error::Error;
use crate::error::ErrorView;
use crate::shapes::parse_text_body;
use crate::shapes::spec_parse_text_body;
use crate::text::lit;
use crate::text::parse_usize;
use crate::text::spec_parse_usize;
use crate::utils::hash_color;
use crate::utils::spec_hash_color;
use crate::xml::attr_last;
use crate::xml::event_text;
use crate::xml::last_attr;
use crate::xml::result_view;
use crate::xml::spec_event_text;
use crate::xml::XmlAttrView;
use crate::xml::XmlEvent;
use crate::xml::XmlEventKind;
use crate::xml::XmlEventView;

verus! {

broadcast use group_document_views;

/// The position behind a nested element that opens at `pos` and was read up to `next`:
/// always beyond `pos` and within the events.
pub open spec fn advance(events: Seq<XmlEventView>, pos: int, next: int) -> int {
    if pos < next <= events.len() {
        next
    } else {
        pos + 1
    }
}

/// The text of an element whose opening tag stands just before `pos`, and the position
/// behind it. Character data is unescaped and strung together; data that does not unescape
/// is left out. The element ends with the closing tag that balances the opening tags seen,
/// with an error event, or with the input.
pub open spec fn text_from(events: Seq<XmlEventView>, pos: int, depth: nat, acc: Seq<char>) -> (
    Seq<char>,
    int,
)
    decreases events.len() - pos,
{
    if pos < 0 || pos >= events.len() {
        (acc, pos)
    } else {
        let ev = events[pos];
        if ev.kind == XmlEventKind::Text {
            text_from(
                events,
                pos + 1,
                depth,
                match spec_event_text(ev.content) {
                    Some(t) => acc + t,
                    None => acc,
                },
            )
        } else if ev.kind == XmlEventKind::Start {
            text_from(events, pos + 1, depth + 1, acc)
        } else if ev.kind == XmlEventKind::End {
            if depth <= 1 {
                (acc, pos + 1)
            } else {
                text_from(events, pos + 1, (depth - 1) as nat, acc)
            }
        } else if ev.kind == XmlEventKind::Error {
            (acc, pos + 1)
        } else {
            text_from(events, pos + 1, depth, acc)
        }
    }
}

/// The text of the element that opens just before `pos`.
pub open spec fn element_text(events: Seq<XmlEventView>, pos: int) -> (Seq<char>, int) {
    text_from(events, pos, 1, Seq::empty())
}

/// Reads the text of the element whose opening tag stands just before `pos`.
pub fn read_element_text(events: &Vec<XmlEvent>, pos: usize) -> (r: (String, usize))
    ensures
        (r.0@, r.1 as int) == element_text(events.deep_view(), pos as int),
        pos <= r.1,
        pos < events.len() ==> pos < r.1 <= events.len(),
{
    let mut text = String::new();
    let mut depth: u128 = 1;
    let mut i: usize = pos;
    while i < events.len()
        invariant
            pos <= i,
            pos < events.len() ==> i <= events.len(),
            1 <= depth <= 1 + (i - pos),
            text_from(events.deep_view(), i as int, depth as nat, text@) == element_text(
                events.deep_view(),
                pos as int,
            ),
        decreases events.len() - i,
    {
        let ev = &events[i];
        match ev.kind {
            XmlEventKind::Text => {
                match event_text(ev.content.as_slice()) {
                    Some(t) => {
                        text.append(t.as_str());
                    },
                    None => {},
                }
            },
            XmlEventKind::Start => {
                depth = depth + 1;
            },
            XmlEventKind::End => {
                if depth <= 1 {
                    return (text, i + 1);
                }
                depth = depth - 1;
            },
            XmlEventKind::Error => {
                return (text, i + 1);
            },
            _ => {},
        }
        i += 1;
    }
    (text, i)
}

/// Where the walk through a table stands.
pub struct TableState {
    /// The rows closed so far.
    pub rows: Vec<TableRow>,
    /// How many `w:tbl` elements are open, the table itself included.
    pub depth: u128,
    /// The open row.
    pub row: Option<TableRow>,
    /// The open cell.
    pub cell: Option<TableCell>,
    /// The blocks gathered for the open cell.
    pub content: Vec<ContentBlock>,
    /// The column span announced for the open cell.
    pub grid_span: usize,
}

pub ghost struct TableStateView {
    pub rows: Seq<TableRowView>,
    pub depth: nat,
    pub row: Option<TableRowView>,
    pub cell: Option<TableCellView>,
    pub content: Seq<ContentBlockView>,
    pub grid_span: nat,
}

impl DeepView for TableState {
    type V = TableStateView;

    open spec fn deep_view(&self) -> TableStateView {
        TableStateView {
            rows: self.rows.deep_view(),
            depth: self.depth as nat,
            row: self.row.deep_view(),
            cell: self.cell.deep_view(),
            content: self.content.deep_view(),
            grid_span: self.grid_span as nat,
        }
    }
}

/// The state just behind the table's opening tag.
pub open spec fn table_start() -> TableStateView {
    TableStateView {
        rows: Seq::empty(),
        depth: 1,
        row: None,
        cell: None,
        content: Seq::empty(),
        grid_span: 1,
    }
}

/// A cell without content that spans one column and one row.
pub open spec fn blank_cell() -> TableCellView {
    TableCellView { content: Seq::empty(), col_span: 1, row_span: 1, background_color: None }
}

/// A row without cells.
pub open spec fn blank_row() -> TableRowView {
    TableRowView { cells: Seq::empty(), height: None }
}

/// The table of the given rows, with nothing else set.
pub open spec fn table_of(rows: Seq<TableRowView>, column_count: nat) -> TableBlockView {
    TableBlockView {
        bounds: zero_rect(),
        rows,
        column_count,
        style: plain_shape_style(),
        rotation: 0,
    }
}

/// The block that holds one unstyled run of `text`.
pub open spec fn plain_text_block(text: Seq<char>) -> ContentBlockView {
    ContentBlockView::Text(text_block_of(zero_rect(), seq![run_of(text, plain_text_style())]))
}

/// The state after the text of a `w:t` element: a text block for it joins the open cell's
/// content, unless the text is empty.
pub open spec fn table_with_text(s: TableStateView, text: Seq<char>) -> TableStateView {
    if text.len() == 0 {
        s
    } else {
        TableStateView { content: s.content.push(plain_text_block(text)), ..s }
    }
}

/// The state after the closing tag of a cell: the open cell takes the gathered content and
/// the announced span and joins the open row; without an open row it is dropped.
pub open spec fn table_close_cell(s: TableStateView) -> TableStateView {
    match s.cell {
        Some(cell) => {
            let done = TableCellView { content: s.content, col_span: s.grid_span, ..cell };
            TableStateView {
                row: match s.row {
                    Some(row) => Some(TableRowView { cells: row.cells.push(done), ..row }),
                    None => None,
                },
                cell: None,
                content: Seq::empty(),
                ..s
            }
        },
        None => s,
    }
}

/// The state after a cell property, which may stand as an opening or as a self-closing tag:
/// `w:gridSpan` announces the column span of the open cell, if it is 1 or more, and `w:shd`
/// gives the open cell its background.
pub open spec fn table_on_property(s: TableStateView, ev: XmlEventView) -> TableStateView {
    if ev.name == lit("w:gridSpan") {
        match attr_last(ev.attrs, lit("w:val")) {
            Some(v) => match spec_parse_usize(v) {
                Some(n) => if n >= 1 {
                    TableStateView { grid_span: n as nat, ..s }
                } else {
                    s
                },
                None => s,
            },
            None => s,
        }
    } else if ev.name == lit("w:shd") {
        match attr_last(ev.attrs, lit("w:fill")) {
            Some(v) => match spec_hash_color(v) {
                Some(c) => match s.cell {
                    Some(cell) => TableStateView {
                        cell: Some(TableCellView { background_color: Some(c), ..cell }),
                        ..s
                    },
                    None => s,
                },
                None => s,
            },
            None => s,
        }
    } else {
        s
    }
}

/// The state after an opening tag other than `w:t`.
pub open spec fn table_on_start(s: TableStateView, ev: XmlEventView) -> TableStateView {
    if ev.name == lit("w:tbl") {
        TableStateView { depth: s.depth + 1, ..s }
    } else if ev.name == lit("w:tr") {
        TableStateView { row: Some(blank_row()), ..s }
    } else if ev.name == lit("w:tc") {
        TableStateView { cell: Some(blank_cell()), content: Seq::empty(), grid_span: 1, ..s }
    } else {
        table_on_property(s, ev)
    }
}

/// The state after a closing tag other than the table's own.
pub open spec fn table_on_end(s: TableStateView, ev: XmlEventView) -> TableStateView {
    if ev.name == lit("w:tbl") {
        TableStateView { depth: (s.depth - 1) as nat, ..s }
    } else if ev.name == lit("w:tr") {
        match s.row {
            Some(row) => TableStateView { rows: s.rows.push(row), row: None, ..s },
            None => s,
        }
    } else if ev.name == lit("w:tc") {
        table_close_cell(s)
    } else {
        s
    }
}

/// `a + b`, kept within `usize`.
pub open spec fn capped_sum(a: nat, b: nat) -> nat {
    if a + b > usize::MAX {
        usize::MAX as nat
    } else {
        a + b
    }
}

/// The columns that the cells from index `from` on take, behind the `acc` that the cells
/// before them take: each cell takes as many as it spans.
pub open spec fn columns_from(cells: Seq<TableCellView>, from: int, acc: nat) -> nat
    decreases cells.len() - from,
{
    if from < 0 || from >= cells.len() {
        acc
    } else {
        columns_from(cells, from + 1, capped_sum(acc, cells[from].col_span))
    }
}

/// The columns that a row takes: the sum of the column spans of its cells, kept within
/// `usize`.
pub open spec fn row_columns(row: TableRowView) -> nat {
    columns_from(row.cells, 0, 0)
}

/// The most columns that a row from index `from` on takes, or `acc` if that is more.
pub open spec fn widest_from(rows: Seq<TableRowView>, from: int, acc: nat) -> nat
    decreases rows.len() - from,
{
    if from < 0 || from >= rows.len() {
        acc
    } else if row_columns(rows[from]) > acc {
        widest_from(rows, from + 1, row_columns(rows[from]))
    } else {
        widest_from(rows, from + 1, acc)
    }
}

/// The columns of a table: those of its widest row.
pub open spec fn table_columns(rows: Seq<TableRowView>) -> nat {
    widest_from(rows, 0, 0)
}

/// The message of an error that ends a table early.
pub open spec fn table_eof() -> ErrorView {
    ErrorView::ParseError("Unexpected EOF in table"@)
}

/// The table that the events from `pos` on complete, starting in state `s`, and the position
/// behind it. The table ends with the `w:tbl` closing tag that balances the opening tags; an
/// error event or the end of the input before that fails it.
pub open spec fn table_from(events: Seq<XmlEventView>, pos: int, s: TableStateView) -> (
    Result<TableBlockView, ErrorView>,
    int,
)
    decreases events.len() - pos,
{
    if pos < 0 || pos >= events.len() {
        (Err(table_eof()), pos)
    } else {
        let ev = events[pos];
        if ev.kind == XmlEventKind::Error {
            (Err(ErrorView::ParseError("XML error in table: "@ + ev.message)), pos + 1)
        } else if ev.kind == XmlEventKind::Start && ev.name == lit("w:t") {
            let inner = element_text(events, pos + 1);
            table_from(events, advance(events, pos, inner.1), table_with_text(s, inner.0))
        } else if ev.kind == XmlEventKind::Start {
            table_from(events, pos + 1, table_on_start(s, ev))
        } else if ev.kind == XmlEventKind::Empty {
            table_from(events, pos + 1, table_on_property(s, ev))
        } else if ev.kind == XmlEventKind::End {
            if ev.name == lit("w:tbl") && s.depth <= 1 {
                (Ok(table_of(s.rows, table_columns(s.rows))), pos + 1)
            } else {
                table_from(events, pos + 1, table_on_end(s, ev))
            }
        } else {
            table_from(events, pos + 1, s)
        }
    }
}

/// The word-processing table whose opening tag stands just before `pos`.
pub open spec fn spec_parse_table(events: Seq<XmlEventView>, pos: int) -> (
    Result<TableBlockView, ErrorView>,
    int,
) {
    table_from(events, pos, table_start())
}

impl TableCell {
    /// A cell without content that spans one column and one row.
    pub fn blank() -> (r: TableCell)
        ensures
            r.deep_view() == blank_cell(),
    {
        let r = TableCell {
            content: Vec::new(),
            col_span: 1,
            row_span: 1,
            background_color: None,
        };
        assert(r.deep_view().content =~= Seq::<ContentBlockView>::empty());
        r
    }
}

impl TableRow {
    /// A row without cells.
    pub fn blank() -> (r: TableRow)
        ensures
            r.deep_view() == blank_row(),
    {
        let r = TableRow { cells: Vec::new(), height: None };
        assert(r.deep_view().cells =~= Seq::<TableCellView>::empty());
        r
    }

    /// Appends a cell.
    pub fn push_cell(&mut self, cell: TableCell)
        ensures
            final(self).deep_view() == (TableRowView {
                cells: old(self).deep_view().cells.push(cell.deep_view()),
                ..old(self).deep_view()
            }),
    {
        let ghost before = self.cells.deep_view();
        self.cells.push(cell);
        assert(self.cells.deep_view() =~= before.push(cell.deep_view()));
    }
}

/// The block that holds one unstyled run of `text`.
pub fn make_plain_text_block(text: String) -> (r: ContentBlock)
    ensures
        r.deep_view() == plain_text_block(text@),
{
    let mut runs: Vec<TextRun> = Vec::new();
    runs.push(TextRun::from_parts(text, TextStyle::default()));
    assert(runs.deep_view() =~= seq![run_of(text@, plain_text_style())]);
    ContentBlock::Text(TextBlock::of_runs(Rect::default(), runs))
}

/// An empty list of blocks.
pub fn no_blocks() -> (r: Vec<ContentBlock>)
    ensures
        r.deep_view() == Seq::<ContentBlockView>::empty(),
{
    let r: Vec<ContentBlock> = Vec::new();
    r
}

/// Appends a block.
pub fn push_block(blocks: &mut Vec<ContentBlock>, block: ContentBlock)
    ensures
        final(blocks).deep_view() == old(blocks).deep_view().push(block.deep_view()),
{
    blocks.push(block);
}

impl TableState {
    pub fn new() -> (s: TableState)
        ensures
            s.deep_view() == table_start(),
    {
        let s = TableState {
            rows: Vec::new(),
            depth: 1,
            row: None,
            cell: None,
            content: no_blocks(),
            grid_span: 1,
        };
        assert(s.rows.deep_view() =~= Seq::<TableRowView>::empty());
        s
    }

    fn add_text(&mut self, text: String)
        ensures
            final(self).deep_view() == table_with_text(old(self).deep_view(), text@),
    {
        if text.as_str().unicode_len() != 0 {
            push_block(&mut self.content, make_plain_text_block(text));
        }
    }

    fn close_cell(&mut self)
        ensures
            final(self).deep_view() == table_close_cell(old(self).deep_view()),
    {
        match self.cell.take() {
            Some(mut cell) => {
                let mut content = no_blocks();
                std::mem::swap(&mut content, &mut self.content);
                cell.content = content;
                cell.col_span = self.grid_span;
                match self.row.take() {
                    Some(mut row) => {
                        row.push_cell(cell);
                        self.row = Some(row);
                    },
                    None => {},
                }
            },
            None => {},
        }
    }

    fn on_property(&mut self, ev: &XmlEvent)
        ensures
            final(self).deep_view() == table_on_property(old(self).deep_view(), ev.deep_view()),
            final(self).depth == old(self).depth,
    {
        if ev.named("w:gridSpan") {
            match last_attr(&ev.attrs, "w:val") {
                Some(v) => match parse_usize(v.as_slice()) {
                    Some(n) => {
                        if n >= 1 {
                            self.grid_span = n;
                        }
                    },
                    None => {},
                },
                None => {},
            }
        } else if ev.named("w:shd") {
            match last_attr(&ev.attrs, "w:fill") {
                Some(v) => match hash_color(v.as_slice()) {
                    Some(c) => match self.cell.take() {
                        Some(mut cell) => {
                            cell.background_color = Some(c);
                            self.cell = Some(cell);
                        },
                        None => {},
                    },
                    None => {},
                },
                None => {},
            }
        }
    }

    fn on_start(&mut self, ev: &XmlEvent)
        requires
            old(self).depth <= usize::MAX,
        ensures
            final(self).deep_view() == table_on_start(old(self).deep_view(), ev.deep_view()),
            final(self).depth <= old(self).depth + 1,
    {
        if ev.named("w:tbl") {
            self.depth = self.depth + 1;
        } else if ev.named("w:tr") {
            self.row = Some(TableRow::blank());
        } else if ev.named("w:tc") {
            self.cell = Some(TableCell::blank());
            self.content = no_blocks();
            self.grid_span = 1;
        } else {
            self.on_property(ev);
        }
    }

    fn on_end(&mut self, ev: &XmlEvent)
        requires
            old(self).depth >= 1,
            ev.deep_view().name == lit("w:tbl") ==> old(self).depth > 1,
        ensures
            final(self).deep_view() == table_on_end(old(self).deep_view(), ev.deep_view()),
            1 <= final(self).depth <= old(self).depth,
    {
        if ev.named("w:tbl") {
            self.depth = self.depth - 1;
        } else if ev.named("w:tr") {
            match self.row.take() {
                Some(row) => {
                    let ghost before = self.rows.deep_view();
                    self.rows.push(row);
                    assert(self.rows.deep_view() =~= before.push(row.deep_view()));
                },
                None => {},
            }
        } else if ev.named("w:tc") {
            self.close_cell();
        }
    }
}

impl TableBlock {
    /// A table of the given rows, with nothing else set.
    pub fn of_rows(rows: Vec<TableRow>, column_count: usize) -> (r: TableBlock)
        ensures
            r.deep_view() == table_of(rows.deep_view(), column_count as nat),
    {
        TableBlock {
            bounds: Rect::default(),
            rows,
            column_count,
            style: ShapeStyle::default(),
            rotation: 0,
        }
    }
}

fn count_row_columns(row: &TableRow) -> (n: usize)
    ensures
        n == row_columns(row.deep_view()),
{
    let mut n: usize = 0;
    let mut j: usize = 0;
    while j < row.cells.len()
        invariant
            j <= row.cells.len(),
            columns_from(row.deep_view().cells, j as int, n as nat) == row_columns(
                row.deep_view(),
            ),
        decreases row.cells.len() - j,
    {
        assert(row.deep_view().cells[j as int] == row.cells[j as int].deep_view());
        let span = row.cells[j].col_span;
        n = if span > usize::MAX - n {
            usize::MAX
        } else {
            n + span
        };
        j += 1;
    }
    n
}

/// The table of the given rows, as wide as its widest row.
fn finish_table(rows: Vec<TableRow>) -> (r: TableBlock)
    ensures
        r.deep_view() == table_of(rows.deep_view(), table_columns(rows.deep_view())),
{
    let mut widest: usize = 0;
    let mut i: usize = 0;
    while i < rows.len()
        invariant
            i <= rows.len(),
            widest_from(rows.deep_view(), i as int, widest as nat) == table_columns(
                rows.deep_view(),
            ),
        decreases rows.len() - i,
    {
        assert(rows.deep_view()[i as int] == rows[i as int].deep_view());
        let n = count_row_columns(&rows[i]);
        if n > widest {
            widest = n;
        }
        i += 1;
    }
    TableBlock::of_rows(rows, widest)
}

/// Parses the word-processing table whose opening tag `w:tbl` stands just before `pos`, and
/// gives the position behind the table.
pub fn parse_table(events: &Vec<XmlEvent>, pos: usize) -> (r: (Result<TableBlock, Error>, usize))
    ensures
        result_view(r.0) == spec_parse_table(events.deep_view(), pos as int).0,
        r.1 == spec_parse_table(events.deep_view(), pos as int).1,
        pos <= r.1,
        pos < events.len() ==> pos < r.1 <= events.len(),
{
    let mut state = TableState::new();
    let mut i: usize = pos;
    while i < events.len()
        invariant
            pos <= i,
            pos < events.len() ==> i <= events.len(),
            1 <= state.depth <= 1 + (i - pos),
            table_from(events.deep_view(), i as int, state.deep_view()) == spec_parse_table(
                events.deep_view(),
                pos as int,
            ),
        decreases events.len() - i,
    {
        let ev = &events[i];
        match ev.kind {
            XmlEventKind::Error => {
                return (
                    Err(Error::parse_with("XML error in table: ", ev.message.as_str())),
                    i + 1,
                );
            },
            XmlEventKind::Start => {
                if ev.named("w:t") {
                    let (text, next) = read_element_text(events, i + 1);
                    state.add_text(text);
                    i = next;
                } else {
                    state.on_start(ev);
                    i += 1;
                }
            },
            XmlEventKind::Empty => {
                state.on_property(ev);
                i += 1;
            },
            XmlEventKind::End => {
                if ev.named("w:tbl") && state.depth <= 1 {
                    return (Ok(finish_table(state.rows)), i + 1);
                }
                state.on_end(ev);
                i += 1;
            },
            _ => {
                i += 1;
            },
        }
    }
    (Err(Error::parse("Unexpected EOF in table")), i)
}

/// The state after the text body of a DrawingML cell: a text block of its runs joins the
/// open cell's content, unless there are no runs.
pub open spec fn dml_with_runs(s: TableStateView, runs: Seq<TextRunView>) -> TableStateView {
    if runs.len() == 0 {
        s
    } else {
        TableStateView {
            content: s.content.push(ContentBlockView::Text(text_block_of(zero_rect(), runs))),
            ..s
        }
    }
}

/// The column span that the `gridSpan` attribute of a DrawingML cell announces: 1 where
/// there is none or it is no number of 1 or more.
pub open spec fn dml_cell_span(attrs: Seq<XmlAttrView>) -> nat {
    match attr_last(attrs, lit("gridSpan")) {
        Some(v) => match spec_parse_usize(v) {
            Some(n) => if n >= 1 {
                n as nat
            } else {
                1
            },
            None => 1,
        },
        None => 1,
    }
}

/// The state after an opening tag of a DrawingML table other than a text body's.
pub open spec fn dml_on_start(s: TableStateView, ev: XmlEventView) -> TableStateView {
    if ev.name == lit("a:tbl") {
        TableStateView { depth: s.depth + 1, ..s }
    } else if ev.name == lit("a:tr") {
        TableStateView { row: Some(blank_row()), ..s }
    } else if ev.name == lit("a:tc") {
        TableStateView {
            cell: Some(blank_cell()),
            content: Seq::empty(),
            grid_span: dml_cell_span(ev.attrs),
            ..s
        }
    } else {
        s
    }
}

/// The state after a closing tag of a DrawingML table other than the table's own.
pub open spec fn dml_on_end(s: TableStateView, ev: XmlEventView) -> TableStateView {
    if ev.name == lit("a:tbl") {
        TableStateView { depth: (s.depth - 1) as nat, ..s }
    } else if ev.name == lit("a:tr") {
        match s.row {
            Some(row) => TableStateView { rows: s.rows.push(row), row: None, ..s },
            None => s,
        }
    } else if ev.name == lit("a:tc") {
        table_close_cell(s)
    } else {
        s
    }
}

/// The DrawingML table that the events from `pos` on complete, starting in state `s`, and
/// the position behind it. The table ends with the `a:tbl` closing tag that balances the
/// opening tags; an error event or the end of the input before that fails it.
pub open spec fn dml_from(events: Seq<XmlEventView>, pos: int, s: TableStateView) -> (
    Result<TableBlockView, ErrorView>,
    int,
)
    decreases events.len() - pos,
{
    if pos < 0 || pos >= events.len() {
        (Err(table_eof()), pos)
    } else {
        let ev = events[pos];
        if ev.kind == XmlEventKind::Error {
            (Err(ErrorView::ParseError("XML error in table: "@ + ev.message)), pos + 1)
        } else if ev.kind == XmlEventKind::Start && ev.name == lit("a:txBody") {
            let inner = spec_parse_text_body(events, pos + 1, lit("a:txBody"));
            dml_from(events, advance(events, pos, inner.1), dml_with_runs(s, inner.0))
        } else if ev.kind == XmlEventKind::Start {
            dml_from(events, pos + 1, dml_on_start(s, ev))
        } else if ev.kind == XmlEventKind::End {
            if ev.name == lit("a:tbl") && s.depth <= 1 {
                (Ok(table_of(s.rows, table_columns(s.rows))), pos + 1)
            } else {
                dml_from(events, pos + 1, dml_on_end(s, ev))
            }
        } else {
            dml_from(events, pos + 1, s)
        }
    }
}

/// The DrawingML table whose opening tag stands just before `pos`.
pub open spec fn spec_parse_drawingml_table(events: Seq<XmlEventView>, pos: int) -> (
    Result<TableBlockView, ErrorView>,
    int,
) {
    dml_from(events, pos, TableStateView { grid_span: 1, ..table_start() })
}

impl TableState {
    fn add_runs(&mut self, runs: Vec<TextRun>)
        ensures
            final(self).deep_view() == dml_with_runs(old(self).deep_view(), runs.deep_view()),
    {
        if runs.len() != 0 {
            push_block(
                &mut self.content,
                ContentBlock::Text(TextBlock::of_runs(Rect::default(), runs)),
            );
        }
    }

    fn dml_start(&mut self, ev: &XmlEvent)
        requires
            old(self).depth <= usize::MAX,
        ensures
            final(self).deep_view() == dml_on_start(old(self).deep_view(), ev.deep_view()),
            final(self).depth <= old(self).depth + 1,
    {
        if ev.named("a:tbl") {
            self.depth = self.depth + 1;
        } else if ev.named("a:tr") {
            self.row = Some(TableRow::blank());
        } else if ev.named("a:tc") {
            self.cell = Some(TableCell::blank());
            self.content = no_blocks();
            self.grid_span = 1;
            match last_attr(&ev.attrs, "gridSpan") {
                Some(v) => match parse_usize(v.as_slice()) {
                    Some(n) => {
                        if n >= 1 {
                            self.grid_span = n;
                        }
                    },
                    None => {},
                },
                None => {},
            }
        }
    }

    fn dml_end(&mut self, ev: &XmlEvent)
        requires
            old(self).depth >= 1,
            ev.deep_view().name == lit("a:tbl") ==> old(self).depth > 1,
        ensures
            final(self).deep_view() == dml_on_end(old(self).deep_view(), ev.deep_view()),
            1 <= final(self).depth <= old(self).depth,
    {
        if ev.named("a:tbl") {
            self.depth = self.depth - 1;
        } else if ev.named("a:tr") {
            match self.row.take() {
                Some(row) => {
                    let ghost before = self.rows.deep_view();
                    self.rows.push(row);
                    assert(self.rows.deep_view() =~= before.push(row.deep_view()));
                },
                None => {},
            }
        } else if ev.named("a:tc") {
            self.close_cell();
        }
    }
}

/// Parses the DrawingML table whose opening tag `a:tbl` stands just before `pos`, and gives
/// the position behind the table.
pub fn parse_drawingml_table(events: &Vec<XmlEvent>, pos: usize) -> (r: (
    Result<TableBlock, Error>,
    usize,
))
    ensures
        result_view(r.0) == spec_parse_drawingml_table(events.deep_view(), pos as int).0,
        r.1 == spec_parse_drawingml_table(events.deep_view(), pos as int).1,
        pos <= r.1,
        pos < events.len() ==> pos < r.1 <= events.len(),
{
    let mut state = TableState::new();
    let mut i: usize = pos;
    while i < events.len()
        invariant
            pos <= i,
            pos < events.len() ==> i <= events.len(),
            1 <= state.depth <= 1 + (i - pos),
            dml_from(events.deep_view(), i as int, state.deep_view())
                == spec_parse_drawingml_table(events.deep_view(), pos as int),
        decreases events.len() - i,
    {
        let ev = &events[i];
        match ev.kind {
            XmlEventKind::Error => {
                return (
                    Err(Error::parse_with("XML error in table: ", ev.message.as_str())),
                    i + 1,
                );
            },
            XmlEventKind::Start => {
                if ev.named("a:txBody") {
                    let (runs, next) = parse_text_body(events, i + 1, "a:txBody");
                    state.add_runs(runs);
                    i = next;
                } else {
                    state.dml_start(ev);
                    i += 1;
                }
            },
            XmlEventKind::End => {
                if ev.named("a:tbl") && state.depth <= 1 {
                    return (Ok(finish_table(state.rows)), i + 1);
                }
                state.dml_end(ev);
                i += 1;
            },
            _ => {
                i += 1;
            },
        }
    }
    (Err(Error::parse("Unexpected EOF in table")), i)
}

/// Whether every cell spans one column and one row at least.
pub open spec fn cells_span(cells: Seq<TableCellView>) -> bool {
    forall|j: int|
        0 <= j < cells.len() ==> (#[trigger] cells[j]).col_span >= 1 && cells[j].row_span >= 1
}

/// Whether every cell of every row spans one column and one row at least.
pub open spec fn rows_span(rows: Seq<TableRowView>) -> bool {
    forall|i: int| 0 <= i < rows.len() ==> cells_span((#[trigger] rows[i]).cells)
}

/// Whether the cells that a walk has gathered, and the one it is gathering, span one column
/// and one row at least.
pub open spec fn state_spans(s: TableStateView) -> bool {
    &&& rows_span(s.rows)
    &&& s.row matches Some(row) ==> cells_span(row.cells)
    &&& s.cell matches Some(cell) ==> cell.row_span >= 1
    &&& s.grid_span >= 1
}

proof fn lemma_close_cell_spans(s: TableStateView)
    requires
        state_spans(s),
    ensures
        state_spans(table_close_cell(s)),
{
    match s.cell {
        Some(cell) => match s.row {
            Some(row) => {
                let done = TableCellView { content: s.content, col_span: s.grid_span, ..cell };
                let cells = row.cells.push(done);
                assert forall|j: int| 0 <= j < cells.len() implies (#[trigger] cells[j]).col_span
                    >= 1 && cells[j].row_span >= 1 by {
                    if j < row.cells.len() {
                        assert(cells[j] == row.cells[j]);
                    }
                }
            },
            None => {},
        },
        None => {},
    }
}

proof fn lemma_close_row_spans(s: TableStateView)
    requires
        state_spans(s),
    ensures
        s.row matches Some(row) ==> rows_span(s.rows.push(row)),
{
    match s.row {
        Some(row) => {
            let rows = s.rows.push(row);
            assert forall|i: int| 0 <= i < rows.len() implies cells_span(
                (#[trigger] rows[i]).cells,
            ) by {
                if i < s.rows.len() {
                    assert(rows[i] == s.rows[i]);
                }
            }
        },
        None => {},
    }
}

proof fn lemma_table_spans(events: Seq<XmlEventView>, pos: int, s: TableStateView)
    requires
        state_spans(s),
    ensures
        table_from(events, pos, s).0 matches Ok(table) ==> rows_span(table.rows),
    decreases events.len() - pos,
{
    if 0 <= pos < events.len() {
        let ev = events[pos];
        if ev.kind == XmlEventKind::Error {
        } else if ev.kind == XmlEventKind::Start && ev.name == lit("w:t") {
            let inner = element_text(events, pos + 1);
            lemma_table_spans(events, advance(events, pos, inner.1), table_with_text(s, inner.0));
        } else if ev.kind == XmlEventKind::Start {
            lemma_table_spans(events, pos + 1, table_on_start(s, ev));
        } else if ev.kind == XmlEventKind::Empty {
            lemma_table_spans(events, pos + 1, table_on_property(s, ev));
        } else if ev.kind == XmlEventKind::End {
            if ev.name == lit("w:tbl") && s.depth <= 1 {
            } else {
                lemma_close_cell_spans(s);
                lemma_close_row_spans(s);
                lemma_table_spans(events, pos + 1, table_on_end(s, ev));
            }
        } else {
            lemma_table_spans(events, pos + 1, s);
        }
    }
}

proof fn lemma_dml_spans(events: Seq<XmlEventView>, pos: int, s: TableStateView)
    requires
        state_spans(s),
    ensures
        dml_from(events, pos, s).0 matches Ok(table) ==> rows_span(table.rows),
    decreases events.len() - pos,
{
    if 0 <= pos < events.len() {
        let ev = events[pos];
        if ev.kind == XmlEventKind::Error {
        } else if ev.kind == XmlEventKind::Start && ev.name == lit("a:txBody") {
            let inner = spec_parse_text_body(events, pos + 1, lit("a:txBody"));
            lemma_dml_spans(events, advance(events, pos, inner.1), dml_with_runs(s, inner.0));
        } else if ev.kind == XmlEventKind::Start {
            lemma_dml_spans(events, pos + 1, dml_on_start(s, ev));
        } else if ev.kind == XmlEventKind::End {
            if ev.name == lit("a:tbl") && s.depth <= 1 {
            } else {
                lemma_close_cell_spans(s);
                lemma_close_row_spans(s);
                lemma_dml_spans(events, pos + 1, dml_on_end(s, ev));
            }
        } else {
            lemma_dml_spans(events, pos + 1, s);
        }
    }
}

/// Every cell of a table that parses spans one column and one row at least, whatever the
/// markup announces.
pub proof fn law_table_cells_span(events: Seq<XmlEventView>, pos: int)
    ensures
        spec_parse_table(events, pos).0 matches Ok(table) ==> rows_span(table.rows),
        spec_parse_drawingml_table(events, pos).0 matches Ok(table) ==> rows_span(table.rows),
{
    lemma_table_spans(events, pos, table_start());
    lemma_dml_spans(events, pos, TableStateView { grid_span: 1, ..table_start() });
}

proof fn lemma_widest_holds(rows: Seq<TableRowView>, from: int, acc: nat, i: int)
    requires
        0 <= from,
    ensures
        widest_from(rows, from, acc) >= acc,
        from <= i < rows.len() ==> widest_from(rows, from, acc) >= row_columns(rows[i]),
    decreases rows.len() - from,
{
    if from < rows.len() {
        if row_columns(rows[from]) > acc {
            lemma_widest_holds(rows, from + 1, row_columns(rows[from]), i);
        } else {
            lemma_widest_holds(rows, from + 1, acc, i);
        }
    }
}

proof fn lemma_widest_is_reached(rows: Seq<TableRowView>, from: int, acc: nat)
    requires
        0 <= from,
    ensures
        widest_from(rows, from, acc) == acc || exists|i: int|
            from <= i < rows.len() && widest_from(rows, from, acc) == row_columns(
                #[trigger] rows[i],
            ),
    decreases rows.len() - from,
{
    if from < rows.len() {
        if row_columns(rows[from]) > acc {
            lemma_widest_is_reached(rows, from + 1, row_columns(rows[from]));
        } else {
            lemma_widest_is_reached(rows, from + 1, acc);
        }
    }
}

/// A table is as wide as its widest row: no row takes more columns than the table counts,
/// where a cell takes as many columns as it spans, and a table with rows has a row that takes
/// them all.
pub proof fn law_table_is_as_wide_as_its_rows(rows: Seq<TableRowView>)
    ensures
        forall|i: int|
            0 <= i < rows.len() ==> row_columns(#[trigger] rows[i]) <= table_columns(rows),
        rows.len() > 0 ==> exists|i: int|
            0 <= i < rows.len() && row_columns(#[trigger] rows[i]) == table_columns(rows),
{
    assert forall|i: int| 0 <= i < rows.len() implies row_columns(#[trigger] rows[i])
        <= table_columns(rows) by {
        lemma_widest_holds(rows, 0, 0, i);
    }
    if rows.len() > 0 {
        lemma_widest_is_reached(rows, 0, 0);
        lemma_widest_holds(rows, 0, 0, 0);
        if table_columns(rows) == 0 {
            assert(row_columns(rows[0]) == table_columns(rows));
        }
    }
}

/// A table that parses counts the columns of its widest row.
pub proof fn law_parsed_table_counts_its_columns(events: Seq<XmlEventView>, pos: int)
    ensures
        spec_parse_table(events, pos).0 matches Ok(table) ==> table.column_count == table_columns(
            table.rows,
        ),
        spec_parse_drawingml_table(events, pos).0 matches Ok(table) ==> table.column_count
            == table_columns(table.rows),
{
    lemma_table_counts(events, pos, table_start());
    lemma_dml_counts(events, pos, TableStateView { grid_span: 1, ..table_start() });
}

proof fn lemma_table_counts(events: Seq<XmlEventView>, pos: int, s: TableStateView)
    ensures
        table_from(events, pos, s).0 matches Ok(table) ==> table.column_count == table_columns(
            table.rows,
        ),
    decreases events.len() - pos,
{
    if 0 <= pos < events.len() {
        let ev = events[pos];
        if ev.kind == XmlEventKind::Error {
        } else if ev.kind == XmlEventKind::Start && ev.name == lit("w:t") {
            let inner = element_text(events, pos + 1);
            lemma_table_counts(events, advance(events, pos, inner.1), table_with_text(s, inner.0));
        } else if ev.kind == XmlEventKind::Start {
            lemma_table_counts(events, pos + 1, table_on_start(s, ev));
        } else if ev.kind == XmlEventKind::Empty {
            lemma_table_counts(events, pos + 1, table_on_property(s, ev));
        } else if ev.kind == XmlEventKind::End {
            if !(ev.name == lit("w:tbl") && s.depth <= 1) {
                lemma_table_counts(events, pos + 1, table_on_end(s, ev));
            }
        } else {
            lemma_table_counts(events, pos + 1, s);
        }
    }
}

proof fn lemma_dml_counts(events: Seq<XmlEventView>, pos: int, s: TableStateView)
    ensures
        dml_from(events, pos, s).0 matches Ok(table) ==> table.column_count == table_columns(
            table.rows,
        ),
    decreases events.len() - pos,
{
    if 0 <= pos < events.len() {
        let ev = events[pos];
        if ev.kind == XmlEventKind::Error {
        } else if ev.kind == XmlEventKind::Start && ev.name == lit("a:txBody") {
            let inner = spec_parse_text_body(events, pos + 1, lit("a:txBody"));
            lemma_dml_counts(events, advance(events, pos, inner.1), dml_with_runs(s, inner.0));
        } else if ev.kind == XmlEventKind::Start {
            lemma_dml_counts(events, pos + 1, dml_on_start(s, ev));
        } else if ev.kind == XmlEventKind::End {
            if !(ev.name == lit("a:tbl") && s.depth <= 1) {
                lemma_dml_counts(events, pos + 1, dml_on_end(s, ev));
            }
        } else {
            lemma_dml_counts(events, pos + 1, s);
        }
    }
}

} // verus!
