//! Spreadsheet packages (XLSX). Each worksheet becomes a page that holds one table.

use vstd::prelude::*;
use vstd::slice::slice_subrange;
use vstd::string::StringSliceAdditionalSpecFns;
use vstd::utf8::encode_utf8;
use crate::archive::text_entry;
use crate::archive::zip_check;
use crate::archive::zip_entry;
use crate::archive::zip_open_error;
use crate::archive::zip_read;
use crate::archive::zip_read_text;
use crate::archive::ZipEntry;
use crate::archive::ZipEntryView;
use crate::document::ContentBlock;
use crate::document::ContentBlockView;
use crate::document::Dimensions;
use crate::document::Document;
use crate::document::DocumentView;
use crate::document::group_document_views;
use crate::document::ImageResource;
use crate::document::ImageResourceView;
use crate::document::letter_size;
use crate::document::Page;
use crate::document::page_of;
use crate::document::pages_rise;
use crate::document::PageView;
use crate::document::plain_text_style;
use crate::document::Rect;
use crate::document::run_of;
use crate::document::TableBlock;
use crate::document::TableBlockView;
use crate::document::TableCell;
use crate::document::TableCellView;
use crate::document::TableRow;
use crate::document::TableRowView;
use crate::document::text_block_of;
use crate::document::TextBlock;
use crate::document::TextRun;
use crate::document::TextStyle;
use crate::document::TextStyleView;
use crate::document::zero_rect;
use crate::docx::next_page_number;
use crate::docx::page_number;
use crate::error::Error;
use crate::error::ErrorView;
use crate::excel_styles::excel_styles_of_events;
use crate::excel_styles::ExcelStyles;
use crate::excel_styles::ExcelStylesView;
use crate::excel_styles::index_attr;
use crate::excel_styles::read_index_attr;
use crate::excel_styles::spec_get_style;
use crate::format::Format;
use crate::format::FormatView;
use crate::format::xlsx_format;
use crate::metadata::custom_insert;
use crate::metadata::empty_metadata;
use crate::metadata::Metadata;
use crate::metadata::MetadataValue;
use crate::metadata::MetadataValueView;
use crate::metadata::MetadataView;
use crate::parser::ParseContext;
use crate::parser::Parser;
use crate::parser::ParserFeature;
use crate::parser::ParserMetadata;
use crate::parser::ParserMetadataView;
use crate::pptx::count_of;
use crate::pptx::count_value;
use crate::strmap::map_get;
use crate::strmap::map_insert;
use crate::strmap::StrEntryView;
use crate::strmap::StrMap;
use crate::styles::text_or_empty;
use crate::tables::advance;
use crate::tables::blank_cell;
use crate::tables::cells_span;
use crate::tables::no_blocks;
use crate::tables::rows_span;
use crate::tables::table_of;
use crate::text::attr_value;
use crate::text::concat;
use crate::text::is_digit;
use crate::text::lit;
use crate::text::parse_digits;
use crate::text::parse_usize;
use crate::text::spec_parse_digits;
use crate::text::spec_parse_usize;
use crate::text::str_eq;
use crate::text::utf8_lossy;
use crate::theme::parse_theme;
use crate::theme::Theme;
use crate::theme::theme_of_events;
use crate::theme::ThemeView;
use crate::xml::attr_last;
use crate::xml::depth_from;
use crate::xml::find_error;
use crate::xml::first_error_from;
use crate::xml::last_attr;
use crate::xml::open_elements;
use crate::xml::opt_bytes;
use crate::xml::raw_span;
use crate::xml::read_events;
use crate::xml::read_raw_span;
use crate::xml::result_view;
use crate::xml::xml_events;
use crate::xml::XmlEvent;
use crate::xml::XmlEventKind;
use crate::xml::XmlEventView;

verus! {

broadcast use {group_document_views, crate::text::lemma_bytes_deep_view};

/// Whether a byte is an ASCII letter.
pub open spec fn is_alpha(b: u8) -> bool {
    (0x41 <= b <= 0x5A) || (0x61 <= b <= 0x7A)
}

/// The place of an ASCII letter of either case in the alphabet, counted from 1.
pub open spec fn alpha_rank(b: u8) -> nat {
    if b >= 0x61 {
        (b - 0x60) as nat
    } else {
        (b - 0x40) as nat
    }
}

/// The number of the column that the letters at the start of a cell reference name, from
/// index `from` on with `acc` read so far, counted from 1 and kept within `usize`.
pub open spec fn ref_column_from(r: Seq<u8>, from: int, acc: nat) -> nat
    decreases r.len() - from,
{
    if from < 0 || from >= r.len() || !is_alpha(r[from]) {
        acc
    } else {
        let next = acc * 26 + alpha_rank(r[from]);
        ref_column_from(
            r,
            from + 1,
            if next > usize::MAX {
                usize::MAX as nat
            } else {
                next
            },
        )
    }
}

/// The zero-based index of the column that a cell reference names by its leading letters,
/// of either case: 0 for `A`, 25 for `Z`, 26 for `AA`; 0 where it begins with no letter.
pub open spec fn spec_col_index_from_ref(r: Seq<u8>) -> usize {
    let number = ref_column_from(r, 0, 0);
    if number > 0 {
        (number - 1) as usize
    } else {
        0
    }
}

/// The rows and columns that a merge covers, counted from 0.
#[derive(Debug, Clone, Copy, PartialEq, Eq, Structural)]
pub struct MergeRange {
    pub r1: usize,
    pub c1: usize,
    pub r2: usize,
    pub c2: usize,
}

/// The index of the first `:` at or behind `from`, or the length where there is none.
pub open spec fn colon_from(s: Seq<u8>, from: int) -> int
    decreases s.len() - from,
{
    if from < 0 || from >= s.len() {
        s.len() as int
    } else if s[from] == 0x3A {
        from
    } else {
        colon_from(s, from + 1)
    }
}

/// The decimal digits among the bytes from index `from` on, behind `acc`.
pub open spec fn digits_from(s: Seq<u8>, from: int, acc: Seq<u8>) -> Seq<u8>
    decreases s.len() - from,
{
    if from < 0 || from >= s.len() {
        acc
    } else if is_digit(s[from]) {
        digits_from(s, from + 1, acc.push(s[from]))
    } else {
        digits_from(s, from + 1, acc)
    }
}

/// The zero-based row that a cell reference names: its digits, read as a number from 1.
pub open spec fn ref_row(s: Seq<u8>) -> Option<usize> {
    match spec_parse_digits(digits_from(s, 0, Seq::empty())) {
        Some(v) => if v > usize::MAX {
            None
        } else if v > 0 {
            Some((v - 1) as usize)
        } else {
            Some(0usize)
        },
        None => None,
    }
}

/// The merge that a range such as `A1:B2` names; `None` where it holds no colon or one of
/// its corners names no row.
pub open spec fn spec_parse_merge(text: Seq<u8>) -> Option<MergeRange> {
    let k = colon_from(text, 0);
    if k >= text.len() {
        None
    } else {
        let first = text.take(k);
        let second = text.skip(k + 1);
        match (ref_row(first), ref_row(second)) {
            (Some(r1), Some(r2)) => Some(
                MergeRange {
                    r1,
                    c1: spec_col_index_from_ref(first),
                    r2,
                    c2: spec_col_index_from_ref(second),
                },
            ),
            _ => None,
        }
    }
}

fn row_of_ref(s: &[u8]) -> (r: Option<usize>)
    ensures
        r == ref_row(s@),
{
    let mut digits: Vec<u8> = Vec::new();
    let mut i: usize = 0;
    while i < s.len()
        invariant
            i <= s.len(),
            digits_from(s@, i as int, digits@) == digits_from(s@, 0, Seq::empty()),
        decreases s.len() - i,
    {
        if 0x30 <= s[i] && s[i] <= 0x39 {
            digits.push(s[i]);
        }
        i += 1;
    }
    match parse_digits(digits.as_slice()) {
        Some(v) => if v > usize::MAX as u64 {
            None
        } else if v > 0 {
            Some((v - 1) as usize)
        } else {
            Some(0)
        },
        None => None,
    }
}

/// The parser for spreadsheet packages.
#[derive(Debug, Clone, Copy)]
pub struct XlsxParser;

/// The index of the closing tag that balances an opening tag named `name`, looking from
/// `pos` with `depth` further elements of that name open. `None` where there is no such tag.
pub open spec fn raw_end_from(events: Seq<XmlEventView>, pos: int, name: Seq<u8>, depth: nat) -> Option<
    int,
>
    decreases events.len() - pos,
{
    if pos < 0 || pos >= events.len() {
        None
    } else {
        let ev = events[pos];
        if ev.kind == XmlEventKind::Error {
            None
        } else if ev.kind == XmlEventKind::Start && ev.name == name {
            raw_end_from(events, pos + 1, name, depth + 1)
        } else if ev.kind == XmlEventKind::End && ev.name == name {
            if depth == 0 {
                Some(pos)
            } else {
                raw_end_from(events, pos + 1, name, (depth - 1) as nat)
            }
        } else {
            raw_end_from(events, pos + 1, name, depth)
        }
    }
}

/// The length of the byte order mark at the start of a source, which the reader passes
/// over without counting it in its offsets.
pub open spec fn mark_len(source: Seq<u8>) -> int {
    if source.len() >= 3 && source[0] == 0xEF && source[1] == 0xBB && source[2] == 0xBF {
        3
    } else {
        0
    }
}

/// The raw text of the element whose opening tag stands at `pos - 1`, which the reader
/// gives for the source behind that tag, and the position behind the element. Without a
/// closing tag that balances the opening one there is no text, and nothing is left to read.
pub open spec fn raw_text(source: Seq<u8>, events: Seq<XmlEventView>, pos: int) -> (
    Option<Seq<char>>,
    int,
) {
    if pos < 1 || pos > events.len() {
        (None, events.len() as int)
    } else {
        match raw_end_from(events, pos, events[pos - 1].name, 0) {
            Some(j) => {
                let a = events[pos - 1].end + mark_len(source);
                if a <= source.len() {
                    (raw_span(source.subrange(a, source.len() as int), events[pos - 1].name), j + 1)
                } else {
                    (None, j + 1)
                }
            },
            None => (None, events.len() as int),
        }
    }
}

/// Reads the raw text of the element whose opening tag stands at `pos - 1`.
pub fn read_raw_text(source: &[u8], events: &Vec<XmlEvent>, pos: usize) -> (r: (
    Option<String>,
    usize,
))
    ensures
        (r.0.deep_view(), r.1 as int) == raw_text(source@, events.deep_view(), pos as int),
        pos <= events.len() ==> pos <= r.1 <= events.len(),
{
    if pos < 1 || pos > events.len() {
        return (None, events.len());
    }
    let mark: usize = if source.len() >= 3 && source[0] == 0xEF && source[1] == 0xBB && source[2]
        == 0xBF {
        3
    } else {
        0
    };
    let name = &events[pos - 1].name;
    let mut depth: u128 = 0;
    let mut i: usize = pos;
    while i < events.len()
        invariant
            1 <= pos <= i <= events.len(),
            depth <= i - pos,
            mark == mark_len(source@),
            name@ == events.deep_view()[pos - 1].name,
            raw_end_from(events.deep_view(), i as int, name@, depth as nat) == raw_end_from(
                events.deep_view(),
                pos as int,
                name@,
                0,
            ),
        decreases events.len() - i,
    {
        let ev = &events[i];
        if ev.kind == XmlEventKind::Error {
            return (None, events.len());
        }
        let same = crate::text::bytes_eq(ev.name.as_slice(), name.as_slice());
        if ev.kind == XmlEventKind::Start && same {
            depth = depth + 1;
        } else if ev.kind == XmlEventKind::End && same {
            if depth == 0 {
                let a = events[pos - 1].end;
                if a <= source.len() - mark {
                    let rest = slice_subrange(source, a + mark, source.len());
                    return (read_raw_span(rest, name.as_slice()), i + 1);
                }
                return (None, i + 1);
            }
            depth = depth - 1;
        }
        i += 1;
    }
    (None, events.len())
}

/// The value of a cell and the position behind the cell, reading from `pos` with the value
/// `val` found so far: the raw text of its last `v` or `is` element. The cell ends with the
/// closing tag `c`; the end of the input before that fails the sheet.
pub open spec fn cell_value_from(
    source: Seq<u8>,
    events: Seq<XmlEventView>,
    pos: int,
    val: Seq<char>,
) -> (Option<Seq<char>>, int)
    decreases events.len() - pos,
{
    if pos < 0 || pos >= events.len() {
        (None, pos)
    } else {
        let ev = events[pos];
        if ev.kind == XmlEventKind::Start && (ev.name == lit("v") || ev.name == lit("is")) {
            let inner = raw_text(source, events, pos + 1);
            cell_value_from(
                source,
                events,
                advance(events, pos, inner.1),
                match inner.0 {
                    Some(t) => t,
                    None => val,
                },
            )
        } else if ev.kind == XmlEventKind::End && ev.name == lit("c") {
            (Some(val), pos + 1)
        } else {
            cell_value_from(source, events, pos + 1, val)
        }
    }
}

fn read_cell_value(source: &[u8], events: &Vec<XmlEvent>, pos: usize) -> (r: (
    Option<String>,
    usize,
))
    ensures
        (r.0.deep_view(), r.1 as int) == cell_value_from(
            source@,
            events.deep_view(),
            pos as int,
            Seq::empty(),
        ),
        pos <= r.1,
        pos < events.len() ==> pos < r.1 <= events.len(),
{
    let mut val = String::new();
    let mut i: usize = pos;
    while i < events.len()
        invariant
            pos <= i,
            pos < events.len() ==> i <= events.len(),
            cell_value_from(source@, events.deep_view(), i as int, val@) == cell_value_from(
                source@,
                events.deep_view(),
                pos as int,
                Seq::empty(),
            ),
        decreases events.len() - i,
    {
        let ev = &events[i];
        if ev.kind == XmlEventKind::Start && (ev.named("v") || ev.named("is")) {
            let (text, next) = read_raw_text(source, events, i + 1);
            match text {
                Some(t) => {
                    val = t;
                },
                None => {},
            }
            if next > i {
                i = next;
            } else {
                i += 1;
            }
        } else if ev.kind == XmlEventKind::End && ev.named("c") {
            return (Some(val), i + 1);
        } else {
            i += 1;
        }
    }
    (None, i)
}

/// The text that a cell shows: for the type `s` the shared string of the index that the
/// value names, or nothing where the index is out of range; else the value itself.
pub open spec fn display_text(val: Seq<char>, cell_type: Seq<char>, shared: Seq<Seq<char>>) -> Seq<
    char,
> {
    if cell_type == "s"@ {
        match spec_parse_usize(encode_utf8(val)) {
            Some(idx) => if idx < shared.len() {
                shared[idx as int]
            } else {
                Seq::empty()
            },
            None => val,
        }
    } else {
        val
    }
}

/// The style and the background of the cell format of index `s_idx`.
pub open spec fn cell_style(styles: Option<ExcelStylesView>, s_idx: usize) -> (
    TextStyleView,
    Option<Seq<char>>,
) {
    match styles {
        Some(st) => spec_get_style(st, s_idx as nat),
        None => (plain_text_style(), None),
    }
}

/// A cell with a value: one text block of one run, or no content where the text is empty.
pub open spec fn value_cell(
    text: Seq<char>,
    style: TextStyleView,
    background: Option<Seq<char>>,
) -> TableCellView {
    TableCellView {
        content: if text.len() == 0 {
            Seq::empty()
        } else {
            seq![ContentBlockView::Text(text_block_of(zero_rect(), seq![run_of(text, style)]))]
        },
        col_span: 1,
        row_span: 1,
        background_color: background,
    }
}

/// The cells of a row after the gap before the column `col` is filled with blank cells.
pub open spec fn fill_gap(cells: Seq<TableCellView>, col: nat) -> Seq<TableCellView> {
    if cells.len() >= col {
        cells
    } else {
        cells + Seq::new((col - cells.len()) as nat, |i: int| blank_cell())
    }
}

/// The cells of a row before a cell with the reference `r_ref` joins them.
pub open spec fn cells_before(cells: Seq<TableCellView>, r_ref: Option<Seq<u8>>) -> Seq<
    TableCellView,
> {
    match r_ref {
        Some(r) => if utf8_lossy(r).len() == 0 {
            cells
        } else {
            fill_gap(cells, spec_col_index_from_ref(r) as nat)
        },
        None => cells,
    }
}

/// Where the walk through a worksheet stands.
pub ghost struct SheetStateView {
    pub rows: Seq<TableRowView>,
    pub max_col: nat,
    pub in_row: bool,
    pub cells: Seq<TableCellView>,
    pub merges: Seq<MergeRange>,
}

/// The state before the first event.
pub open spec fn sheet_start() -> SheetStateView {
    SheetStateView {
        rows: Seq::empty(),
        max_col: 0,
        in_row: false,
        cells: Seq::empty(),
        merges: Seq::empty(),
    }
}

/// The state after a self-closing tag.
pub open spec fn sheet_on_empty(
    s: SheetStateView,
    ev: XmlEventView,
    styles: Option<ExcelStylesView>,
) -> SheetStateView {
    if ev.name == lit("mergeCell") {
        match attr_last(ev.attrs, lit("ref")) {
            Some(v) => match spec_parse_merge(v) {
                Some(m) => SheetStateView { merges: s.merges.push(m), ..s },
                None => s,
            },
            None => s,
        }
    } else if s.in_row && ev.name == lit("c") {
        SheetStateView {
            cells: cells_before(s.cells, attr_last(ev.attrs, lit("r"))).push(
                value_cell(
                    Seq::empty(),
                    plain_text_style(),
                    cell_style(styles, index_attr(ev.attrs, lit("s"))).1,
                ),
            ),
            ..s
        }
    } else {
        s
    }
}

/// The state after the closing tag of a row: the row's cells become a row of the table.
pub open spec fn sheet_close_row(s: SheetStateView) -> SheetStateView {
    SheetStateView {
        rows: s.rows.push(TableRowView { cells: s.cells, height: None }),
        max_col: if s.cells.len() > s.max_col {
            s.cells.len()
        } else {
            s.max_col
        },
        in_row: false,
        cells: Seq::empty(),
        ..s
    }
}

/// The cell that a `c` element with a value gives.
pub open spec fn cell_of_value(
    ev: XmlEventView,
    val: Seq<char>,
    shared: Seq<Seq<char>>,
    styles: Option<ExcelStylesView>,
) -> TableCellView {
    let look = cell_style(styles, index_attr(ev.attrs, lit("s")));
    value_cell(
        display_text(val, text_or_empty(attr_last(ev.attrs, lit("t"))), shared),
        look.0,
        look.1,
    )
}

/// The message of the error that a sheet which ends inside a cell gives.
pub open spec fn sheet_eof() -> ErrorView {
    ErrorView::ParseError("Unexpected EOF in sheet"@)
}

/// The state that the events from `pos` on lead to, starting in state `s`. The end of the
/// input inside a cell fails the sheet.
pub open spec fn sheet_from(
    source: Seq<u8>,
    events: Seq<XmlEventView>,
    pos: int,
    s: SheetStateView,
    shared: Seq<Seq<char>>,
    styles: Option<ExcelStylesView>,
) -> Result<SheetStateView, ErrorView>
    decreases events.len() - pos,
{
    if pos < 0 || pos >= events.len() {
        Ok(s)
    } else {
        let ev = events[pos];
        if ev.kind == XmlEventKind::Start && ev.name == lit("row") {
            sheet_from(
                source,
                events,
                pos + 1,
                SheetStateView { in_row: true, cells: Seq::empty(), ..s },
                shared,
                styles,
            )
        } else if ev.kind == XmlEventKind::Start && ev.name == lit("c") && s.in_row {
            let inner = cell_value_from(source, events, pos + 1, Seq::empty());
            match inner.0 {
                None => Err(sheet_eof()),
                Some(val) => sheet_from(
                    source,
                    events,
                    advance(events, pos, inner.1),
                    SheetStateView {
                        cells: cells_before(s.cells, attr_last(ev.attrs, lit("r"))).push(
                            cell_of_value(ev, val, shared, styles),
                        ),
                        ..s
                    },
                    shared,
                    styles,
                ),
            }
        } else if ev.kind == XmlEventKind::Empty {
            sheet_from(source, events, pos + 1, sheet_on_empty(s, ev, styles), shared, styles)
        } else if ev.kind == XmlEventKind::End && ev.name == lit("row") {
            sheet_from(source, events, pos + 1, sheet_close_row(s), shared, styles)
        } else {
            sheet_from(source, events, pos + 1, s, shared, styles)
        }
    }
}

/// Whether a merge is taken in: its first row is in the table, and it is not turned round.
pub open spec fn merge_applies(m: MergeRange, rows: nat) -> bool {
    m.r1 < rows && m.r1 <= m.r2 && m.c1 <= m.c2
}

/// The number of rows or columns from `a` to `b`, kept within `usize`.
pub open spec fn span_of(a: usize, b: usize) -> nat {
    if b - a + 1 > usize::MAX {
        usize::MAX as nat
    } else {
        (b - a + 1) as nat
    }
}

/// The rows after the top-left cell of a merge takes the merge's spans.
pub open spec fn with_span(rows: Seq<TableRowView>, m: MergeRange) -> Seq<TableRowView> {
    if merge_applies(m, rows.len()) && m.c1 < rows[m.r1 as int].cells.len() {
        let row = rows[m.r1 as int];
        rows.update(
            m.r1 as int,
            TableRowView {
                cells: row.cells.update(
                    m.c1 as int,
                    TableCellView {
                        row_span: span_of(m.r1, m.r2),
                        col_span: span_of(m.c1, m.c2),
                        ..row.cells[m.c1 as int]
                    },
                ),
                ..row
            },
        )
    } else {
        rows
    }
}

/// The rows after the merges from index `from` on have set their spans.
pub open spec fn spans_from(rows: Seq<TableRowView>, merges: Seq<MergeRange>, from: int) -> Seq<
    TableRowView,
>
    decreases merges.len() - from,
{
    if from < 0 || from >= merges.len() {
        rows
    } else {
        spans_from(with_span(rows, merges[from]), merges, from + 1)
    }
}

/// Whether a merge at or behind index `from` covers the cell at row `r` and column `c`
/// without it being the merge's top-left cell.
pub open spec fn covered_from(merges: Seq<MergeRange>, rows: nat, r: nat, c: nat, from: int) -> bool
    decreases merges.len() - from,
{
    if from < 0 || from >= merges.len() {
        false
    } else {
        let m = merges[from];
        if merge_applies(m, rows) && m.r1 <= r <= m.r2 && m.c1 <= c <= m.c2 && !(r == m.r1 && c
            == m.c1) {
            true
        } else {
            covered_from(merges, rows, r, c, from + 1)
        }
    }
}

/// The cells of row `r` from column `c` on that no merge covers, behind `acc`.
pub open spec fn kept_from(
    cells: Seq<TableCellView>,
    merges: Seq<MergeRange>,
    rows: nat,
    r: nat,
    c: int,
    acc: Seq<TableCellView>,
) -> Seq<TableCellView>
    decreases cells.len() - c,
{
    if c < 0 || c >= cells.len() {
        acc
    } else if covered_from(merges, rows, r, c as nat, 0) {
        kept_from(cells, merges, rows, r, c + 1, acc)
    } else {
        kept_from(cells, merges, rows, r, c + 1, acc.push(cells[c]))
    }
}

/// The rows from index `r` on, each without its covered cells, behind `acc`.
pub open spec fn pruned_from(
    rows: Seq<TableRowView>,
    merges: Seq<MergeRange>,
    r: int,
    acc: Seq<TableRowView>,
) -> Seq<TableRowView>
    decreases rows.len() - r,
{
    if r < 0 || r >= rows.len() {
        acc
    } else {
        pruned_from(
            rows,
            merges,
            r + 1,
            acc.push(
                TableRowView {
                    cells: kept_from(rows[r].cells, merges, rows.len(), r as nat, 0, Seq::empty()),
                    ..rows[r]
                },
            ),
        )
    }
}

/// The rows of a sheet after its merges are taken in: the top-left cell of each merge takes
/// the merge's spans, and every other cell that a merge covers leaves its row. Cells are
/// told by the column they stood at before any cell left.
pub open spec fn merged_rows(rows: Seq<TableRowView>, merges: Seq<MergeRange>) -> Seq<TableRowView> {
    pruned_from(spans_from(rows, merges, 0), merges, 0, Seq::empty())
}

/// The table of a worksheet, given by its source and the events read from it. Markup that
/// is broken, or that ends inside an element, gives no table.
pub open spec fn sheet_table(
    source: Seq<u8>,
    events: Seq<XmlEventView>,
    shared: Seq<Seq<char>>,
    styles: Option<ExcelStylesView>,
) -> Result<TableBlockView, ErrorView> {
    match first_error_from(events, 0) {
        Some(why) => Err(ErrorView::ParseError("XML error in sheet: "@ + why)),
        None => match sheet_from(source, events, 0, sheet_start(), shared, styles) {
            Ok(s) => if depth_from(events, 0, 0) > 0 {
                Err(sheet_eof())
            } else {
                Ok(table_of(merged_rows(s.rows, s.merges), s.max_col))
            },
            Err(e) => Err(e),
        },
    }
}

/// Takes the cell at `index` out of a row's cells; a blank cell takes its place.
fn take_cell(cells: &mut Vec<TableCell>, index: usize) -> (r: TableCell)
    requires
        index < old(cells).len(),
    ensures
        r.deep_view() == old(cells).deep_view()[index as int],
        final(cells).deep_view() == old(cells).deep_view().update(index as int, blank_cell()),
        final(cells).len() == old(cells).len(),
{
    let blank = TableCell::blank();
    cells.push(blank);
    let taken = cells.swap_remove(index);
    taken
}

/// Takes the row at `index` out of the rows; a row without cells takes its place.
fn take_row(rows: &mut Vec<TableRow>, index: usize) -> (r: TableRow)
    requires
        index < old(rows).len(),
    ensures
        r.deep_view() == old(rows).deep_view()[index as int],
        final(rows).deep_view() == old(rows).deep_view().update(
            index as int,
            crate::tables::blank_row(),
        ),
        final(rows).len() == old(rows).len(),
{
    let blank = TableRow::blank();
    rows.push(blank);
    let taken = rows.swap_remove(index);
    taken
}

fn span(a: usize, b: usize) -> (r: usize)
    requires
        a <= b,
    ensures
        r == span_of(a, b),
{
    let d: usize = b - a;
    if d == usize::MAX {
        usize::MAX
    } else {
        d + 1
    }
}

fn apply_span(rows: &mut Vec<TableRow>, m: MergeRange)
    ensures
        final(rows).deep_view() == with_span(old(rows).deep_view(), m),
{
    if m.r1 < rows.len() && m.r1 <= m.r2 && m.c1 <= m.c2 {
        let mut row = take_row(rows, m.r1);
        if m.c1 < row.cells.len() {
            let ghost cells_before = row.cells.deep_view();
            let mut cell = take_cell(&mut row.cells, m.c1);
            cell.row_span = span(m.r1, m.r2);
            cell.col_span = span(m.c1, m.c2);
            let ghost mid = row.cells.deep_view();
            row.cells.set(m.c1, cell);
            assert(row.cells.deep_view() =~= mid.update(m.c1 as int, cell.deep_view()));
            assert(row.cells.deep_view() =~= cells_before.update(m.c1 as int, cell.deep_view()));
        }
        let ghost taken = rows.deep_view();
        rows.set(m.r1, row);
        assert(rows.deep_view() =~= taken.update(m.r1 as int, row.deep_view()));
    }
}

fn is_covered(merges: &Vec<MergeRange>, rows: usize, r: usize, c: usize) -> (covered: bool)
    ensures
        covered == covered_from(merges@, rows as nat, r as nat, c as nat, 0),
{
    let mut k: usize = 0;
    while k < merges.len()
        invariant
            k <= merges.len(),
            covered_from(merges@, rows as nat, r as nat, c as nat, k as int) == covered_from(
                merges@,
                rows as nat,
                r as nat,
                c as nat,
                0,
            ),
        decreases merges.len() - k,
    {
        let m = merges[k];
        if m.r1 < rows && m.r1 <= m.r2 && m.c1 <= m.c2 && m.r1 <= r && r <= m.r2 && m.c1 <= c
            && c <= m.c2 && !(r == m.r1 && c == m.c1) {
            return true;
        }
        k += 1;
    }
    false
}

fn prune_row(row: TableRow, merges: &Vec<MergeRange>, rows: usize, r: usize) -> (out: TableRow)
    ensures
        out.deep_view() == (TableRowView {
            cells: kept_from(
                row.deep_view().cells,
                merges@,
                rows as nat,
                r as nat,
                0,
                Seq::empty(),
            ),
            ..row.deep_view()
        }),
{
    let mut cells = row.cells;
    let ghost all = cells.deep_view();
    let mut kept: Vec<TableCell> = Vec::new();
    assert(kept.deep_view() =~= Seq::<TableCellView>::empty());
    let mut c: usize = 0;
    while c < cells.len()
        invariant
            c <= cells.len(),
            cells.len() == all.len(),
            forall|j: int| c <= j < all.len() ==> cells.deep_view()[j] == all[j],
            kept_from(all, merges@, rows as nat, r as nat, c as int, kept.deep_view())
                == kept_from(all, merges@, rows as nat, r as nat, 0, Seq::empty()),
        decreases cells.len() - c,
    {
        if !is_covered(merges, rows, r, c) {
            let ghost before = kept.deep_view();
            let cell = take_cell(&mut cells, c);
            kept.push(cell);
            assert(kept.deep_view() =~= before.push(all[c as int]));
        }
        c += 1;
    }
    TableRow { cells: kept, height: row.height }
}

/// Takes the merges of a sheet into its rows.
pub fn apply_merges(rows: Vec<TableRow>, merges: &Vec<MergeRange>) -> (out: Vec<TableRow>)
    ensures
        out.deep_view() == merged_rows(rows.deep_view(), merges@),
{
    let mut rows = rows;
    let ghost start = rows.deep_view();
    let mut k: usize = 0;
    while k < merges.len()
        invariant
            k <= merges.len(),
            spans_from(rows.deep_view(), merges@, k as int) == spans_from(start, merges@, 0),
        decreases merges.len() - k,
    {
        apply_span(&mut rows, merges[k]);
        k += 1;
    }
    let ghost spanned = rows.deep_view();
    let count = rows.len();
    let mut out: Vec<TableRow> = Vec::new();
    assert(out.deep_view() =~= Seq::<TableRowView>::empty());
    let mut r: usize = 0;
    while r < count
        invariant
            r <= count,
            count == rows.len(),
            count == spanned.len(),
            spanned == spans_from(start, merges@, 0),
            forall|j: int| r <= j < count ==> rows.deep_view()[j] == spanned[j],
            pruned_from(spanned, merges@, r as int, out.deep_view()) == pruned_from(
                spanned,
                merges@,
                0,
                Seq::empty(),
            ),
        decreases count - r,
    {
        let ghost before = out.deep_view();
        let row = take_row(&mut rows, r);
        let pruned = prune_row(row, merges, count, r);
        out.push(pruned);
        assert(out.deep_view() =~= before.push(pruned.deep_view()));
        r += 1;
    }
    out
}

fn col_index_of(r: &[u8]) -> (idx: usize)
    ensures
        idx == spec_col_index_from_ref(r@),
{
    let mut number: usize = 0;
    let mut i: usize = 0;
    while i < r.len()
        invariant
            i <= r.len(),
            ref_column_from(r@, i as int, number as nat) == ref_column_from(r@, 0, 0),
        decreases r.len() - i,
    {
        let b = r[i];
        let rank: usize = if 0x41 <= b && b <= 0x5A {
            (b - 0x40) as usize
        } else if 0x61 <= b && b <= 0x7A {
            (b - 0x60) as usize
        } else {
            return if number > 0 {
                number - 1
            } else {
                0
            };
        };
        number = match number.checked_mul(26) {
            Some(m) => match m.checked_add(rank) {
                Some(v) => v,
                None => usize::MAX,
            },
            None => usize::MAX,
        };
        i += 1;
    }
    if number > 0 {
        number - 1
    } else {
        0
    }
}

fn parse_merge(text: &[u8]) -> (r: Option<MergeRange>)
    ensures
        r == spec_parse_merge(text@),
{
    let mut k: usize = 0;
    while k < text.len()
        invariant
            k <= text.len(),
            colon_from(text@, k as int) == colon_from(text@, 0),
        decreases text.len() - k,
    {
        if text[k] == 0x3A {
            let first = slice_subrange(text, 0, k);
            let second = slice_subrange(text, k + 1, text.len());
            return match (row_of_ref(first), row_of_ref(second)) {
                (Some(r1), Some(r2)) => Some(
                    MergeRange { r1, c1: col_index_of(first), r2, c2: col_index_of(second) },
                ),
                _ => None,
            };
        }
        k += 1;
    }
    None
}

fn fill_cells(cells: &mut Vec<TableCell>, col: usize)
    ensures
        final(cells).deep_view() == fill_gap(old(cells).deep_view(), col as nat),
{
    let ghost before = cells.deep_view();
    if cells.len() >= col {
        return ;
    }
    let start = cells.len();
    while cells.len() < col
        invariant
            start == before.len(),
            start <= cells.len() <= col,
            cells.deep_view() == before + Seq::new(
                (cells.len() - start) as nat,
                |i: int| blank_cell(),
            ),
        decreases col - cells.len(),
    {
        let ghost mid = cells.deep_view();
        let blank = TableCell::blank();
        cells.push(blank);
        assert(cells.deep_view() =~= mid.push(blank_cell()));
        assert(cells.deep_view() =~= before + Seq::new(
            (cells.len() - start) as nat,
            |i: int| blank_cell(),
        ));
    }
}

fn prepare_cells(cells: &mut Vec<TableCell>, r_ref: Option<&Vec<u8>>)
    ensures
        final(cells).deep_view() == cells_before(old(cells).deep_view(), opt_bytes(r_ref)),
{
    match r_ref {
        Some(r) => {
            let text = attr_value(r.as_slice());
            if text.as_str().unicode_len() != 0 {
                fill_cells(cells, col_index_of(r.as_slice()));
            }
        },
        None => {},
    }
}

fn make_value_cell(text: String, style: TextStyle, background: Option<String>) -> (r: TableCell)
    ensures
        r.deep_view() == value_cell(text@, style.deep_view(), background.deep_view()),
{
    let mut content = no_blocks();
    if text.as_str().unicode_len() != 0 {
        let mut runs: Vec<TextRun> = Vec::new();
        let run = TextRun::from_parts(text, style);
        runs.push(run);
        assert(runs.deep_view() =~= seq![run.deep_view()]);
        let block = ContentBlock::Text(TextBlock::of_runs(Rect::default(), runs));
        content.push(block);
        assert(content.deep_view() =~= seq![block.deep_view()]);
    }
    TableCell { content, col_span: 1, row_span: 1, background_color: background }
}

fn look_of(styles: &Option<ExcelStyles>, s_idx: usize) -> (r: (TextStyle, Option<String>))
    ensures
        (r.0.deep_view(), r.1.deep_view()) == cell_style(styles.deep_view(), s_idx),
{
    match styles {
        Some(st) => st.get_style(s_idx),
        None => (TextStyle::default(), None),
    }
}

fn show_text(val: String, cell_type: &str, shared: &Vec<String>) -> (r: String)
    ensures
        r@ == display_text(val@, cell_type@, shared.deep_view()),
{
    if str_eq(cell_type, "s") {
        match parse_usize(val.as_str().as_bytes()) {
            Some(idx) => {
                if idx < shared.len() {
                    shared[idx].clone()
                } else {
                    String::new()
                }
            },
            None => val,
        }
    } else {
        val
    }
}

fn text_of_attr(value: Option<&Vec<u8>>) -> (r: String)
    ensures
        r@ == text_or_empty(opt_bytes(value)),
{
    match value {
        Some(v) => attr_value(v.as_slice()),
        None => String::new(),
    }
}

/// The view of a sheet's rows and merges, or of the error in their place.
pub open spec fn walk_view(
    r: Result<(Vec<TableRow>, usize, Vec<MergeRange>), Error>,
    source: Seq<u8>,
    events: Seq<XmlEventView>,
    shared: Seq<Seq<char>>,
    styles: Option<ExcelStylesView>,
) -> bool {
    match (r, sheet_from(source, events, 0, sheet_start(), shared, styles)) {
        (Ok(found), Ok(s)) => found.0.deep_view() == s.rows && found.1 == s.max_col && found.2@
            == s.merges,
        (Err(e), Err(want)) => e.deep_view() == want,
        _ => false,
    }
}

fn walk_sheet(
    source: &[u8],
    events: &Vec<XmlEvent>,
    shared: &Vec<String>,
    styles: &Option<ExcelStyles>,
) -> (r: Result<(Vec<TableRow>, usize, Vec<MergeRange>), Error>)
    ensures
        walk_view(r, source@, events.deep_view(), shared.deep_view(), styles.deep_view()),
{
    let mut rows: Vec<TableRow> = Vec::new();
    let mut max_col: usize = 0;
    let mut in_row = false;
    let mut cells: Vec<TableCell> = Vec::new();
    let mut merges: Vec<MergeRange> = Vec::new();
    assert(rows.deep_view() =~= Seq::<TableRowView>::empty());
    assert(cells.deep_view() =~= Seq::<TableCellView>::empty());
    let mut i: usize = 0;
    while i < events.len()
        invariant
            i <= events.len(),
            sheet_from(
                source@,
                events.deep_view(),
                i as int,
                SheetStateView {
                    rows: rows.deep_view(),
                    max_col: max_col as nat,
                    in_row,
                    cells: cells.deep_view(),
                    merges: merges@,
                },
                shared.deep_view(),
                styles.deep_view(),
            ) == sheet_from(
                source@,
                events.deep_view(),
                0,
                sheet_start(),
                shared.deep_view(),
                styles.deep_view(),
            ),
        decreases events.len() - i,
    {
        let ev = &events[i];
        if ev.kind == XmlEventKind::Start && ev.named("row") {
            in_row = true;
            cells = Vec::new();
            assert(cells.deep_view() =~= Seq::<TableCellView>::empty());
            i += 1;
        } else if ev.kind == XmlEventKind::Start && ev.named("c") && in_row {
            let (value, next) = read_cell_value(source, events, i + 1);
            match value {
                None => {
                    return Err(Error::parse("Unexpected EOF in sheet"));
                },
                Some(val) => {
                    prepare_cells(&mut cells, last_attr(&ev.attrs, "r"));
                    let look = look_of(styles, read_index_attr(&ev.attrs, "s"));
                    let cell_type = text_of_attr(last_attr(&ev.attrs, "t"));
                    let text = show_text(val, cell_type.as_str(), shared);
                    let ghost before = cells.deep_view();
                    let cell = make_value_cell(text, look.0, look.1);
                    cells.push(cell);
                    assert(cells.deep_view() =~= before.push(cell.deep_view()));
                },
            }
            i = next;
        } else if ev.kind == XmlEventKind::Empty {
            if ev.named("mergeCell") {
                match last_attr(&ev.attrs, "ref") {
                    Some(v) => match parse_merge(v.as_slice()) {
                        Some(m) => {
                            merges.push(m);
                        },
                        None => {},
                    },
                    None => {},
                }
            } else if in_row && ev.named("c") {
                prepare_cells(&mut cells, last_attr(&ev.attrs, "r"));
                let look = look_of(styles, read_index_attr(&ev.attrs, "s"));
                let ghost before = cells.deep_view();
                let cell = make_value_cell(String::new(), TextStyle::default(), look.1);
                cells.push(cell);
                assert(cells.deep_view() =~= before.push(cell.deep_view()));
            }
            i += 1;
        } else if ev.kind == XmlEventKind::End && ev.named("row") {
            if cells.len() > max_col {
                max_col = cells.len();
            }
            let mut done: Vec<TableCell> = Vec::new();
            assert(done.deep_view() =~= Seq::<TableCellView>::empty());
            std::mem::swap(&mut done, &mut cells);
            let ghost before = rows.deep_view();
            let row = TableRow { cells: done, height: None };
            rows.push(row);
            assert(rows.deep_view() =~= before.push(row.deep_view()));
            in_row = false;
            i += 1;
        } else {
            i += 1;
        }
    }
    Ok((rows, max_col, merges))
}

/// The shared strings that the events from `pos` on add, reading with the strings closed so
/// far, the text of the open item and whether an item is open: each `t` element inside an
/// item adds its raw text to the item's.
pub open spec fn shared_from(
    source: Seq<u8>,
    events: Seq<XmlEventView>,
    pos: int,
    strings: Seq<Seq<char>>,
    current: Seq<char>,
    in_si: bool,
) -> Seq<Seq<char>>
    decreases events.len() - pos,
{
    if pos < 0 || pos >= events.len() {
        strings
    } else {
        let ev = events[pos];
        if ev.kind == XmlEventKind::Start && ev.name == lit("si") {
            shared_from(source, events, pos + 1, strings, Seq::empty(), true)
        } else if ev.kind == XmlEventKind::Start && ev.name == lit("t") && in_si {
            let inner = raw_text(source, events, pos + 1);
            shared_from(
                source,
                events,
                advance(events, pos, inner.1),
                strings,
                match inner.0 {
                    Some(t) => current + t,
                    None => current,
                },
                in_si,
            )
        } else if ev.kind == XmlEventKind::End && ev.name == lit("si") {
            shared_from(source, events, pos + 1, strings.push(current), current, false)
        } else {
            shared_from(source, events, pos + 1, strings, current, in_si)
        }
    }
}

/// The shared strings of a shared-strings part.
pub open spec fn shared_strings_of(source: Seq<u8>) -> Seq<Seq<char>> {
    shared_from(source, xml_events(source, true), 0, Seq::empty(), Seq::empty(), false)
}

/// A worksheet as the workbook declares it: its name and the id of its relationship.
#[derive(Debug, Clone)]
pub struct SheetRef {
    pub name: String,
    pub rid: String,
}

pub ghost struct SheetRefView {
    pub name: Seq<char>,
    pub rid: Seq<char>,
}

impl DeepView for SheetRef {
    type V = SheetRefView;

    open spec fn deep_view(&self) -> SheetRefView {
        SheetRefView { name: self.name@, rid: self.rid@ }
    }
}

/// The sheets that the events of a workbook part declare from `pos` on, behind `acc`: each
/// `sheet` element with a name and a relationship id, in document order.
pub open spec fn sheets_from(events: Seq<XmlEventView>, pos: int, acc: Seq<SheetRefView>) -> Seq<
    SheetRefView,
>
    decreases events.len() - pos,
{
    if pos < 0 || pos >= events.len() {
        acc
    } else {
        let ev = events[pos];
        let name = text_or_empty(attr_last(ev.attrs, lit("name")));
        let rid = text_or_empty(attr_last(ev.attrs, lit("r:id")));
        if XmlEvent::spec_opens(ev) && ev.name == lit("sheet") && name.len() > 0 && rid.len()
            > 0 {
            sheets_from(events, pos + 1, acc.push(SheetRefView { name, rid }))
        } else {
            sheets_from(events, pos + 1, acc)
        }
    }
}

/// The map from id to target that the events of a relationships part give from `pos` on,
/// entered into `acc`: each `Relationship` element with an id and a target.
pub open spec fn rel_targets_from(events: Seq<XmlEventView>, pos: int, acc: Seq<StrEntryView>) -> Seq<
    StrEntryView,
>
    decreases events.len() - pos,
{
    if pos < 0 || pos >= events.len() {
        acc
    } else {
        let ev = events[pos];
        let id = text_or_empty(attr_last(ev.attrs, lit("Id")));
        let target = text_or_empty(attr_last(ev.attrs, lit("Target")));
        if XmlEvent::spec_opens(ev) && ev.name == lit("Relationship") && id.len() > 0
            && target.len() > 0 {
            rel_targets_from(events, pos + 1, map_insert(acc, id, target))
        } else {
            rel_targets_from(events, pos + 1, acc)
        }
    }
}

/// The content of a part that holds text, where the archive holds it.
pub open spec fn text_part(data: Seq<u8>, name: Seq<char>) -> Option<Seq<u8>> {
    match text_entry(zip_entry(data, name)) {
        ZipEntryView::Data(bytes) => Some(bytes),
        _ => None,
    }
}

fn read_text_part(data: &[u8], name: &str) -> (r: Option<Vec<u8>>)
    ensures
        r.deep_view() == text_part(data@, name@),
{
    match zip_read_text(data, name) {
        ZipEntry::Data(bytes) => Some(bytes),
        _ => None,
    }
}

/// The number of slashes at the start of a text, from index `from` on.
pub open spec fn leading_slashes(s: Seq<char>, from: int) -> int
    decreases s.len() - from,
{
    if from < 0 || from >= s.len() || s[from] != '/' {
        from
    } else {
        leading_slashes(s, from + 1)
    }
}

/// The entry name of the worksheet that a workbook relationship targets: the target
/// without its leading slashes where it has one, else the target seen from `xl/`.
pub open spec fn sheet_path(target: Seq<char>) -> Seq<char> {
    if target.len() > 0 && target[0] == '/' {
        target.skip(leading_slashes(target, 0))
    } else {
        "xl/"@ + target
    }
}

fn sheet_path_of(target: &str) -> (r: String)
    ensures
        r@ == sheet_path(target@),
{
    let len = target.unicode_len();
    if len > 0 && target.get_char(0) == '/' {
        let mut k: usize = 0;
        while k < len && target.get_char(k) == '/'
            invariant
                k <= len,
                len == target@.len(),
                leading_slashes(target@, k as int) == leading_slashes(target@, 0),
            decreases len - k,
        {
            k += 1;
        }
        let rest = target.substring_char(k, len);
        rest.to_owned()
    } else {
        concat("xl/", target)
    }
}

/// The page of a worksheet: one table on a page of letter size, labelled with the sheet's
/// name.
pub open spec fn sheet_page(number: u32, name: Seq<char>, table: TableBlockView) -> PageView {
    page_of(number, letter_size(), seq![ContentBlockView::Table(table)], Some(name))
}

/// The message that an error of the kind `ParseError` carries; empty for the other kinds.
pub open spec fn parse_message(e: ErrorView) -> Seq<char> {
    match e {
        ErrorView::ParseError(m) => m,
        _ => Seq::empty(),
    }
}

/// The error that a sheet gives whose part cannot be read or does not parse: it names the
/// part and the cause.
pub open spec fn sheet_fault(path: Seq<char>, why: Seq<char>) -> ErrorView {
    ErrorView::ParseError("Failed to parse sheet "@ + path + ": "@ + why)
}

/// The pages after the sheets from index `from` on are read. A sheet whose relationship
/// does not resolve or whose part is missing is passed over; a part that cannot be read or
/// does not parse fails the document. A sheet's page number is its place in the declared
/// order.
pub open spec fn sheet_pages_from(
    data: Seq<u8>,
    sheets: Seq<SheetRefView>,
    rels: Seq<StrEntryView>,
    shared: Seq<Seq<char>>,
    styles: Option<ExcelStylesView>,
    from: int,
    pages: Seq<PageView>,
) -> Result<Seq<PageView>, ErrorView>
    decreases sheets.len() - from,
{
    if from < 0 || from >= sheets.len() {
        Ok(pages)
    } else {
        match map_get(rels, sheets[from].rid) {
            None => sheet_pages_from(data, sheets, rels, shared, styles, from + 1, pages),
            Some(target) => match text_entry(zip_entry(data, sheet_path(target))) {
                ZipEntryView::Missing => sheet_pages_from(
                    data,
                    sheets,
                    rels,
                    shared,
                    styles,
                    from + 1,
                    pages,
                ),
                ZipEntryView::Unreadable(why) => Err(sheet_fault(sheet_path(target), why)),
                ZipEntryView::Data(bytes) => match sheet_table(
                    bytes,
                    xml_events(bytes, true),
                    shared,
                    styles,
                ) {
                    Err(e) => Err(sheet_fault(sheet_path(target), parse_message(e))),
                    Ok(t) => sheet_pages_from(
                        data,
                        sheets,
                        rels,
                        shared,
                        styles,
                        from + 1,
                        pages.push(sheet_page(page_number(from as nat), sheets[from].name, t)),
                    ),
                },
            },
        }
    }
}

/// The theme of a workbook: that of `xl/theme/theme1.xml`, where it is there and
/// well-formed.
pub open spec fn xlsx_theme(data: Seq<u8>) -> Option<ThemeView> {
    match zip_entry(data, "xl/theme/theme1.xml"@) {
        ZipEntryView::Data(bytes) => match theme_of_events(xml_events(bytes, true)) {
            Ok(t) => Some(t),
            Err(_) => None,
        },
        _ => None,
    }
}

/// The styles of a workbook: those of `xl/styles.xml`, where it is there and well-formed.
pub open spec fn xlsx_styles(data: Seq<u8>) -> Option<ExcelStylesView> {
    match text_part(data, "xl/styles.xml"@) {
        Some(bytes) => match excel_styles_of_events(xml_events(bytes, true), xlsx_theme(data)) {
            Ok(st) => Some(st),
            Err(_) => None,
        },
        None => None,
    }
}

/// The shared strings of a workbook.
pub open spec fn xlsx_shared(data: Seq<u8>) -> Seq<Seq<char>> {
    match text_part(data, "xl/sharedStrings.xml"@) {
        Some(bytes) => shared_strings_of(bytes),
        None => Seq::empty(),
    }
}

/// The sheets that a workbook declares, in declared order. The workbook part must be there
/// and readable.
pub open spec fn xlsx_sheets(data: Seq<u8>) -> Result<Seq<SheetRefView>, ErrorView> {
    match text_entry(zip_entry(data, "xl/workbook.xml"@)) {
        ZipEntryView::Missing => Err(ErrorView::ParseError("xl/workbook.xml not found"@)),
        ZipEntryView::Unreadable(why) => Err(
            ErrorView::ParseError("Failed to read workbook.xml: "@ + why),
        ),
        ZipEntryView::Data(bytes) => Ok(sheets_from(xml_events(bytes, true), 0, Seq::empty())),
    }
}

/// The relationships of a workbook, as a map from id to target.
pub open spec fn xlsx_rels(data: Seq<u8>) -> Seq<StrEntryView> {
    match text_part(data, "xl/_rels/workbook.xml.rels"@) {
        Some(bytes) => rel_targets_from(xml_events(bytes, true), 0, Seq::empty()),
        None => Seq::empty(),
    }
}

/// The metadata of a parsed workbook: the file name as title, and the number of declared
/// sheets.
pub open spec fn xlsx_metadata(filename: Option<Seq<char>>, sheets: nat) -> MetadataView {
    MetadataView {
        title: filename,
        custom: custom_insert(
            Seq::empty(),
            "excel_sheet_count"@,
            MetadataValueView::Integer(count_value(sheets)),
        ),
        ..empty_metadata()
    }
}

/// The document that a spreadsheet package holds. The content must begin with a ZIP
/// signature, open as a ZIP archive and hold a readable `xl/workbook.xml`, and the sheets
/// that it holds must be readable and parse.
pub open spec fn xlsx_document(data: Seq<u8>, filename: Option<Seq<char>>) -> Result<
    DocumentView,
    ErrorView,
> {
    if !XlsxParser::spec_is_xlsx_zip(data) {
        Err(ErrorView::ParseError("Invalid XLSX signature"@))
    } else {
        match zip_open_error(data) {
            Some(why) => Err(ErrorView::ParseError("ZIP error: "@ + why)),
            None => match xlsx_sheets(data) {
                Err(e) => Err(e),
                Ok(sheets) => match sheet_pages_from(
                    data,
                    sheets,
                    xlsx_rels(data),
                    xlsx_shared(data),
                    xlsx_styles(data),
                    0,
                    Seq::empty(),
                ) {
                    Err(e) => Err(e),
                    Ok(pages) => Ok(
                        DocumentView {
                            source: crate::document::unknown_source(),
                            metadata: xlsx_metadata(filename, sheets.len()),
                            pages,
                            images: Seq::empty(),
                            bare: true,
                        },
                    ),
                },
            },
        }
    }
}

fn message_of(e: Error) -> (r: String)
    ensures
        r@ == parse_message(e.deep_view()),
{
    match e {
        Error::ParseError(m) => m,
        _ => String::new(),
    }
}

fn sheet_fault_of(path: &str, why: &str) -> (e: Error)
    ensures
        e.deep_view() == sheet_fault(path@, why@),
{
    let head = concat("Failed to parse sheet ", path);
    let full = concat(head.as_str(), ": ");
    Error::parse_with(full.as_str(), why)
}

impl XlsxParser {
    pub fn new() -> (r: XlsxParser) {
        XlsxParser
    }

    /// The format that this parser handles.
    pub fn format(&self) -> (r: Format)
        ensures
            r.deep_view() == xlsx_format(),
    {
        Format::xlsx()
    }

    /// Whether the content begins with the signature of a ZIP local file header or of an
    /// empty archive.
    pub open spec fn spec_is_xlsx_zip(data: Seq<u8>) -> bool {
        data.len() >= 4 && data[0] == 0x50 && data[1] == 0x4B && (data[2] == 0x03 || data[2]
            == 0x05) && data[3] == 0x04
    }

    pub fn is_xlsx_zip(data: &[u8]) -> (r: bool)
        ensures
            r == Self::spec_is_xlsx_zip(data@),
    {
        if data.len() < 4 {
            return false;
        }
        data[0] == 0x50 && data[1] == 0x4B && (data[2] == 0x03 || data[2] == 0x05) && data[3]
            == 0x04
    }

    /// A cheap check that `data` may be a spreadsheet package.
    pub fn can_parse(&self, data: &[u8]) -> (r: bool)
        ensures
            r == Self::spec_is_xlsx_zip(data@),
    {
        Self::is_xlsx_zip(data)
    }

    /// The zero-based index of the column that a cell reference names by its leading
    /// letters.
    pub fn col_index_from_ref(r: &str) -> (idx: usize)
        ensures
            idx == spec_col_index_from_ref(r.spec_bytes()),
    {
        col_index_of(r.as_bytes())
    }

    /// Parses the XML of a worksheet into a table of its cells, merges taken in.
    pub fn parse_sheet_clean(xml: &str, shared_strings: &Vec<String>, styles: &Option<ExcelStyles>) -> (r:
        Result<TableBlock, Error>)
        ensures
            result_view(r) == sheet_table(
                xml.spec_bytes(),
                xml_events(xml.spec_bytes(), true),
                shared_strings.deep_view(),
                styles.deep_view(),
            ),
    {
        Self::parse_sheet_bytes(xml.as_bytes(), shared_strings, styles)
    }

    /// Parses the XML of a worksheet into a table of its cells, merges taken in.
    pub fn parse_sheet(xml: &str, shared_strings: &Vec<String>, styles: &Option<ExcelStyles>) -> (r:
        Result<TableBlock, Error>)
        ensures
            result_view(r) == sheet_table(
                xml.spec_bytes(),
                xml_events(xml.spec_bytes(), true),
                shared_strings.deep_view(),
                styles.deep_view(),
            ),
    {
        Self::parse_sheet_clean(xml, shared_strings, styles)
    }

    /// Parses the bytes of a worksheet part.
    pub fn parse_sheet_bytes(
        source: &[u8],
        shared_strings: &Vec<String>,
        styles: &Option<ExcelStyles>,
    ) -> (r: Result<TableBlock, Error>)
        ensures
            result_view(r) == sheet_table(
                source@,
                xml_events(source@, true),
                shared_strings.deep_view(),
                styles.deep_view(),
            ),
    {
        let events = read_events(source, true);
        Self::parse_sheet_events(source, &events, shared_strings, styles)
    }

    /// Builds the table of a worksheet from its source and the events read from it.
    pub fn parse_sheet_events(
        source: &[u8],
        events: &Vec<XmlEvent>,
        shared_strings: &Vec<String>,
        styles: &Option<ExcelStyles>,
    ) -> (r: Result<TableBlock, Error>)
        ensures
            result_view(r) == sheet_table(
                source@,
                events.deep_view(),
                shared_strings.deep_view(),
                styles.deep_view(),
            ),
    {
        match find_error(events) {
            Some(why) => {
                return Err(Error::parse_with("XML error in sheet: ", why.as_str()));
            },
            None => {},
        }
        match walk_sheet(source, events, shared_strings, styles) {
            Ok(found) => {
                if open_elements(events) > 0 {
                    return Err(Error::parse("Unexpected EOF in sheet"));
                }
                let rows = apply_merges(found.0, &found.2);
                Ok(TableBlock::of_rows(rows, found.1))
            },
            Err(e) => Err(e),
        }
    }

    /// Reads the shared strings of a shared-strings part.
    pub fn parse_shared_strings(source: &[u8]) -> (r: Vec<String>)
        ensures
            r.deep_view() == shared_strings_of(source@),
    {
        let events = read_events(source, true);
        let mut strings: Vec<String> = Vec::new();
        let mut current = String::new();
        let mut in_si = false;
        assert(strings.deep_view() =~= Seq::<Seq<char>>::empty());
        let mut i: usize = 0;
        while i < events.len()
            invariant
                i <= events.len(),
                events.deep_view() == xml_events(source@, true),
                shared_from(
                    source@,
                    events.deep_view(),
                    i as int,
                    strings.deep_view(),
                    current@,
                    in_si,
                ) == shared_strings_of(source@),
            decreases events.len() - i,
        {
            let ev = &events[i];
            if ev.kind == XmlEventKind::Start && ev.named("si") {
                in_si = true;
                current = String::new();
                i += 1;
            } else if ev.kind == XmlEventKind::Start && ev.named("t") && in_si {
                let (text, next) = read_raw_text(source, &events, i + 1);
                match text {
                    Some(t) => {
                        current.append(t.as_str());
                    },
                    None => {},
                }
                if next > i {
                    i = next;
                } else {
                    i += 1;
                }
            } else if ev.kind == XmlEventKind::End && ev.named("si") {
                let ghost before = strings.deep_view();
                strings.push(current.clone());
                assert(strings.deep_view() =~= before.push(current@));
                in_si = false;
                i += 1;
            } else {
                i += 1;
            }
        }
        strings
    }

    /// Reads the sheets that a workbook part declares.
    pub fn parse_workbook_sheets(source: &[u8]) -> (r: Vec<SheetRef>)
        ensures
            r.deep_view() == sheets_from(xml_events(source@, true), 0, Seq::empty()),
    {
        let events = read_events(source, true);
        let mut sheets: Vec<SheetRef> = Vec::new();
        assert(sheets.deep_view() =~= Seq::<SheetRefView>::empty());
        let mut i: usize = 0;
        while i < events.len()
            invariant
                i <= events.len(),
                events.deep_view() == xml_events(source@, true),
                sheets_from(events.deep_view(), i as int, sheets.deep_view()) == sheets_from(
                    events.deep_view(),
                    0,
                    Seq::empty(),
                ),
            decreases events.len() - i,
        {
            let ev = &events[i];
            if ev.opens() && ev.named("sheet") {
                let name = text_of_attr(last_attr(&ev.attrs, "name"));
                let rid = text_of_attr(last_attr(&ev.attrs, "r:id"));
                if name.as_str().unicode_len() != 0 && rid.as_str().unicode_len() != 0 {
                    let ghost before = sheets.deep_view();
                    let sheet = SheetRef { name, rid };
                    sheets.push(sheet);
                    assert(sheets.deep_view() =~= before.push(sheet.deep_view()));
                }
            }
            i += 1;
        }
        sheets
    }

    /// Reads the relationships of a workbook as a map from id to target.
    pub fn parse_workbook_rels(source: &[u8]) -> (r: StrMap)
        ensures
            r.deep_view() == rel_targets_from(xml_events(source@, true), 0, Seq::empty()),
    {
        let events = read_events(source, true);
        let mut rels = StrMap::new();
        let mut i: usize = 0;
        while i < events.len()
            invariant
                i <= events.len(),
                events.deep_view() == xml_events(source@, true),
                rel_targets_from(events.deep_view(), i as int, rels.deep_view())
                    == rel_targets_from(events.deep_view(), 0, Seq::empty()),
            decreases events.len() - i,
        {
            let ev = &events[i];
            if ev.opens() && ev.named("Relationship") {
                let id = text_of_attr(last_attr(&ev.attrs, "Id"));
                let target = text_of_attr(last_attr(&ev.attrs, "Target"));
                if id.as_str().unicode_len() != 0 && target.as_str().unicode_len() != 0 {
                    rels.insert(id, target);
                }
            }
            i += 1;
        }
        rels
    }

    fn load_theme(data: &[u8]) -> (r: Option<Theme>)
        ensures
            r.deep_view() == xlsx_theme(data@),
    {
        match zip_read(data, "xl/theme/theme1.xml") {
            ZipEntry::Data(bytes) => match parse_theme(bytes.as_slice()) {
                Ok(t) => Some(t),
                Err(_) => None,
            },
            _ => None,
        }
    }

    fn load_styles(data: &[u8], theme: &Option<Theme>) -> (r: Option<ExcelStyles>)
        requires
            theme.deep_view() == xlsx_theme(data@),
        ensures
            r.deep_view() == xlsx_styles(data@),
    {
        match read_text_part(data, "xl/styles.xml") {
            Some(bytes) => {
                let events = read_events(bytes.as_slice(), true);
                let found = match theme {
                    Some(t) => ExcelStyles::from_events(&events, Some(t)),
                    None => ExcelStyles::from_events(&events, None),
                };
                match found {
                    Ok(st) => Some(st),
                    Err(_) => None,
                }
            },
            None => None,
        }
    }

    fn load_pages(
        data: &[u8],
        sheets: &Vec<SheetRef>,
        rels: &StrMap,
        shared: &Vec<String>,
        styles: &Option<ExcelStyles>,
    ) -> (r: Result<Vec<Page>, Error>)
        ensures
            result_view(r) == sheet_pages_from(
                data@,
                sheets.deep_view(),
                rels.deep_view(),
                shared.deep_view(),
                styles.deep_view(),
                0,
                Seq::empty(),
            ),
    {
        let mut pages: Vec<Page> = Vec::new();
        assert(pages.deep_view() =~= Seq::<PageView>::empty());
        let mut i: usize = 0;
        while i < sheets.len()
            invariant
                i <= sheets.len(),
                sheet_pages_from(
                    data@,
                    sheets.deep_view(),
                    rels.deep_view(),
                    shared.deep_view(),
                    styles.deep_view(),
                    i as int,
                    pages.deep_view(),
                ) == sheet_pages_from(
                    data@,
                    sheets.deep_view(),
                    rels.deep_view(),
                    shared.deep_view(),
                    styles.deep_view(),
                    0,
                    Seq::empty(),
                ),
            decreases sheets.len() - i,
        {
            match rels.get(sheets[i].rid.as_str()) {
                Some(target) => {
                    let path = sheet_path_of(target.as_str());
                    match zip_read_text(data, path.as_str()) {
                        ZipEntry::Missing => {},
                        ZipEntry::Unreadable(why) => {
                            return Err(sheet_fault_of(path.as_str(), why.as_str()));
                        },
                        ZipEntry::Data(bytes) => match Self::parse_sheet_bytes(
                            bytes.as_slice(),
                            shared,
                            styles,
                        ) {
                            Err(e) => {
                                let why = message_of(e);
                                return Err(sheet_fault_of(path.as_str(), why.as_str()));
                            },
                            Ok(t) => {
                                let mut content = no_blocks();
                                let block = ContentBlock::Table(t);
                                content.push(block);
                                assert(content.deep_view() =~= seq![block.deep_view()]);
                                let ghost before = pages.deep_view();
                                let page = Page::with_content(
                                    next_page_number(i),
                                    Dimensions::letter(),
                                    content,
                                    Some(sheets[i].name.clone()),
                                );
                                pages.push(page);
                                assert(pages.deep_view() =~= before.push(page.deep_view()));
                            },
                        },
                    }
                },
                None => {},
            }
            i += 1;
        }
        Ok(pages)
    }

    /// Parses a spreadsheet package into a document.
    pub fn parse(&self, data: &[u8], context: ParseContext) -> (r: Result<Document, Error>)
        ensures
            result_view(r) == xlsx_document(data@, context.filename.deep_view()),
    {
        if !Self::is_xlsx_zip(data) {
            return Err(Error::parse("Invalid XLSX signature"));
        }
        match zip_check(data) {
            Some(why) => {
                return Err(Error::parse_with("ZIP error: ", why.as_str()));
            },
            None => {},
        }
        let sheets = match zip_read_text(data, "xl/workbook.xml") {
            ZipEntry::Missing => {
                return Err(Error::parse("xl/workbook.xml not found"));
            },
            ZipEntry::Unreadable(why) => {
                return Err(Error::parse_with("Failed to read workbook.xml: ", why.as_str()));
            },
            ZipEntry::Data(bytes) => Self::parse_workbook_sheets(bytes.as_slice()),
        };
        let shared = match read_text_part(data, "xl/sharedStrings.xml") {
            Some(bytes) => Self::parse_shared_strings(bytes.as_slice()),
            None => {
                let none: Vec<String> = Vec::new();
                assert(none.deep_view() =~= Seq::<Seq<char>>::empty());
                none
            },
        };
        let theme = Self::load_theme(data);
        let styles = Self::load_styles(data, &theme);
        let rels = match read_text_part(data, "xl/_rels/workbook.xml.rels") {
            Some(bytes) => Self::parse_workbook_rels(bytes.as_slice()),
            None => StrMap::new(),
        };
        let pages = match Self::load_pages(data, &sheets, &rels, &shared, &styles) {
            Ok(pages) => pages,
            Err(e) => {
                return Err(e);
            },
        };
        let mut metadata = Metadata::new();
        metadata.title = context.filename;
        metadata.add_custom("excel_sheet_count", MetadataValue::Integer(count_of(sheets.len())));
        let images: Vec<ImageResource> = Vec::new();
        assert(images.deep_view() =~= Seq::<ImageResourceView>::empty());
        Ok(Document::assemble(metadata, pages, images))
    }

    /// What this parser says of itself.
    pub fn metadata(&self) -> (r: ParserMetadata)
        ensures
            r.deep_view() == (ParserMetadataView {
                name: "XLSX Parser"@,
                version: crate::VERSION@,
                features: seq![
                    ParserFeature::TextExtraction,
                    ParserFeature::TableExtraction,
                    ParserFeature::MetadataExtraction,
                ],
                requires_sandbox: false,
            }),
    {
        let mut features: Vec<ParserFeature> = Vec::new();
        features.push(ParserFeature::TextExtraction);
        features.push(ParserFeature::TableExtraction);
        features.push(ParserFeature::MetadataExtraction);
        assert(features@ =~= seq![
            ParserFeature::TextExtraction,
            ParserFeature::TableExtraction,
            ParserFeature::MetadataExtraction,
        ]);
        ParserMetadata::of("XLSX Parser", features)
    }
}

proof fn lemma_sheet_pages_rise(
    data: Seq<u8>,
    sheets: Seq<SheetRefView>,
    rels: Seq<StrEntryView>,
    shared: Seq<Seq<char>>,
    styles: Option<ExcelStylesView>,
    from: int,
    pages: Seq<PageView>,
)
    requires
        0 <= from,
        pages_rise(pages),
        forall|i: int| 0 <= i < pages.len() ==> (#[trigger] pages[i]).number <= from,
    ensures
        sheet_pages_from(data, sheets, rels, shared, styles, from, pages) matches Ok(read)
            ==> pages_rise(read),
    decreases sheets.len() - from,
{
    if from < sheets.len() {
        lemma_sheet_pages_rise(data, sheets, rels, shared, styles, from + 1, pages);
        match map_get(rels, sheets[from].rid) {
            Some(target) => match text_entry(zip_entry(data, sheet_path(target))) {
                ZipEntryView::Data(bytes) => match sheet_table(
                    bytes,
                    xml_events(bytes, true),
                    shared,
                    styles,
                ) {
                    Ok(t) => {
                        let page = sheet_page(page_number(from as nat), sheets[from].name, t);
                        let more = pages.push(page);
                        assert(page.number == page_number(from as nat));
                        assert forall|i: int| 0 <= i < more.len() implies 1 <= (
                        #[trigger] more[i]).number <= from + 1 by {
                            if i < pages.len() {
                                assert(more[i] == pages[i]);
                            }
                        }
                        assert forall|i: int, j: int| 0 <= i < j < more.len() implies (
                        #[trigger] more[i]).number < (#[trigger] more[j]).number
                            || more[j].number == u32::MAX by {
                            assert(more[i] == pages[i]);
                            if j < pages.len() {
                                assert(more[j] == pages[j]);
                            }
                        }
                        lemma_sheet_pages_rise(data, sheets, rels, shared, styles, from + 1, more);
                    },
                    Err(_) => {},
                },
                _ => {},
            },
            None => {},
        }
    }
}

/// The pages of a workbook bear numbers from 1 upwards that rise strictly in the order of
/// the pages: the order in which the workbook declares its sheets.
pub proof fn law_sheet_numbers_rise(data: Seq<u8>, filename: Option<Seq<char>>)
    ensures
        xlsx_document(data, filename) matches Ok(document) ==> pages_rise(document.pages),
{
    match xlsx_sheets(data) {
        Ok(sheets) => {
            lemma_sheet_pages_rise(
                data,
                sheets,
                xlsx_rels(data),
                xlsx_shared(data),
                xlsx_styles(data),
                0,
                Seq::empty(),
            );
        },
        Err(_) => {},
    }
}

impl Parser for XlsxParser {
    open spec fn handled(&self) -> FormatView {
        xlsx_format()
    }

    open spec fn accepts(&self, data: Seq<u8>) -> bool {
        XlsxParser::spec_is_xlsx_zip(data)
    }

    open spec fn outcome(&self, data: Seq<u8>, filename: Option<Seq<char>>) -> Result<
        DocumentView,
        ErrorView,
    > {
        xlsx_document(data, filename)
    }

    open spec fn described(&self) -> ParserMetadataView {
        ParserMetadataView {
            name: "XLSX Parser"@,
            version: crate::VERSION@,
            features: seq![ParserFeature::TextExtraction, ParserFeature::TableExtraction, ParserFeature::MetadataExtraction],
            requires_sandbox: false,
        }
    }

    fn format(&self) -> (r: Format) {
        XlsxParser::format(self)
    }

    fn can_parse(&self, data: &[u8]) -> (r: bool) {
        XlsxParser::can_parse(self, data)
    }

    fn parse(&self, data: &[u8], context: ParseContext) -> (r: Result<Document, Error>) {
        XlsxParser::parse(self, data, context)
    }

    fn metadata(&self) -> (r: ParserMetadata) {
        XlsxParser::metadata(self)
    }
}

proof fn lemma_push_cell_spans(cells: Seq<TableCellView>, cell: TableCellView)
    requires
        cells_span(cells),
        cell.col_span >= 1,
        cell.row_span >= 1,
    ensures
        cells_span(cells.push(cell)),
{
    let more = cells.push(cell);
    assert forall|j: int| 0 <= j < more.len() implies (#[trigger] more[j]).col_span >= 1
        && more[j].row_span >= 1 by {
        if j < cells.len() {
            assert(more[j] == cells[j]);
        }
    }
}

proof fn lemma_push_row_spans(rows: Seq<TableRowView>, row: TableRowView)
    requires
        rows_span(rows),
        cells_span(row.cells),
    ensures
        rows_span(rows.push(row)),
{
    let more = rows.push(row);
    assert forall|i: int| 0 <= i < more.len() implies cells_span((#[trigger] more[i]).cells) by {
        if i < rows.len() {
            assert(more[i] == rows[i]);
        }
    }
}

proof fn lemma_cells_before_span(cells: Seq<TableCellView>, r_ref: Option<Seq<u8>>)
    requires
        cells_span(cells),
    ensures
        cells_span(cells_before(cells, r_ref)),
{
    let more = cells_before(cells, r_ref);
    assert forall|j: int| 0 <= j < more.len() implies (#[trigger] more[j]).col_span >= 1
        && more[j].row_span >= 1 by {
        if j < cells.len() {
            assert(more[j] == cells[j]);
        } else {
            assert(more[j] == blank_cell());
        }
    }
}

proof fn lemma_sheet_spans(
    source: Seq<u8>,
    events: Seq<XmlEventView>,
    pos: int,
    s: SheetStateView,
    shared: Seq<Seq<char>>,
    styles: Option<ExcelStylesView>,
)
    requires
        rows_span(s.rows),
        cells_span(s.cells),
    ensures
        sheet_from(source, events, pos, s, shared, styles) matches Ok(end) ==> rows_span(end.rows),
    decreases events.len() - pos,
{
    if 0 <= pos < events.len() {
        let ev = events[pos];
        if ev.kind == XmlEventKind::Start && ev.name == lit("row") {
            lemma_sheet_spans(
                source,
                events,
                pos + 1,
                SheetStateView { in_row: true, cells: Seq::empty(), ..s },
                shared,
                styles,
            );
        } else if ev.kind == XmlEventKind::Start && ev.name == lit("c") && s.in_row {
            let inner = cell_value_from(source, events, pos + 1, Seq::empty());
            match inner.0 {
                None => {},
                Some(val) => {
                    let before = cells_before(s.cells, attr_last(ev.attrs, lit("r")));
                    lemma_cells_before_span(s.cells, attr_last(ev.attrs, lit("r")));
                    lemma_push_cell_spans(before, cell_of_value(ev, val, shared, styles));
                    lemma_sheet_spans(
                        source,
                        events,
                        advance(events, pos, inner.1),
                        SheetStateView {
                            cells: before.push(cell_of_value(ev, val, shared, styles)),
                            ..s
                        },
                        shared,
                        styles,
                    );
                },
            }
        } else if ev.kind == XmlEventKind::Empty {
            if ev.name != lit("mergeCell") && s.in_row && ev.name == lit("c") {
                let before = cells_before(s.cells, attr_last(ev.attrs, lit("r")));
                lemma_cells_before_span(s.cells, attr_last(ev.attrs, lit("r")));
                lemma_push_cell_spans(
                    before,
                    value_cell(
                        Seq::empty(),
                        plain_text_style(),
                        cell_style(styles, index_attr(ev.attrs, lit("s"))).1,
                    ),
                );
            }
            lemma_sheet_spans(
                source,
                events,
                pos + 1,
                sheet_on_empty(s, ev, styles),
                shared,
                styles,
            );
        } else if ev.kind == XmlEventKind::End && ev.name == lit("row") {
            lemma_push_row_spans(s.rows, TableRowView { cells: s.cells, height: None });
            lemma_sheet_spans(source, events, pos + 1, sheet_close_row(s), shared, styles);
        } else {
            lemma_sheet_spans(source, events, pos + 1, s, shared, styles);
        }
    }
}

proof fn lemma_with_span_spans(rows: Seq<TableRowView>, m: MergeRange)
    requires
        rows_span(rows),
    ensures
        rows_span(with_span(rows, m)),
{
    let after = with_span(rows, m);
    if merge_applies(m, rows.len()) && m.c1 < rows[m.r1 as int].cells.len() {
        let row = rows[m.r1 as int];
        let cell = TableCellView {
            row_span: span_of(m.r1, m.r2),
            col_span: span_of(m.c1, m.c2),
            ..row.cells[m.c1 as int]
        };
        let cells = row.cells.update(m.c1 as int, cell);
        assert forall|i: int| 0 <= i < after.len() implies cells_span(
            (#[trigger] after[i]).cells,
        ) by {
            if i == m.r1 {
                assert(after[i].cells == cells);
                assert(cells_span(row.cells));
                assert forall|j: int| 0 <= j < cells.len() implies (#[trigger] cells[j]).col_span
                    >= 1 && cells[j].row_span >= 1 by {
                    if j != m.c1 {
                        assert(cells[j] == row.cells[j]);
                    }
                }
            } else {
                assert(after[i] == rows[i]);
            }
        }
    }
}

proof fn lemma_spans_from_spans(rows: Seq<TableRowView>, merges: Seq<MergeRange>, from: int)
    requires
        rows_span(rows),
    ensures
        rows_span(spans_from(rows, merges, from)),
        spans_from(rows, merges, from).len() == rows.len(),
    decreases merges.len() - from,
{
    if 0 <= from < merges.len() {
        lemma_with_span_spans(rows, merges[from]);
        lemma_spans_from_spans(with_span(rows, merges[from]), merges, from + 1);
    }
}

proof fn lemma_kept_spans(
    cells: Seq<TableCellView>,
    merges: Seq<MergeRange>,
    rows: nat,
    r: nat,
    c: int,
    acc: Seq<TableCellView>,
)
    requires
        cells_span(cells),
        cells_span(acc),
    ensures
        cells_span(kept_from(cells, merges, rows, r, c, acc)),
    decreases cells.len() - c,
{
    if 0 <= c < cells.len() {
        if covered_from(merges, rows, r, c as nat, 0) {
            lemma_kept_spans(cells, merges, rows, r, c + 1, acc);
        } else {
            lemma_push_cell_spans(acc, cells[c]);
            lemma_kept_spans(cells, merges, rows, r, c + 1, acc.push(cells[c]));
        }
    }
}

proof fn lemma_pruned_spans(
    rows: Seq<TableRowView>,
    merges: Seq<MergeRange>,
    r: int,
    acc: Seq<TableRowView>,
)
    requires
        rows_span(rows),
        rows_span(acc),
    ensures
        rows_span(pruned_from(rows, merges, r, acc)),
    decreases rows.len() - r,
{
    if 0 <= r < rows.len() {
        let row = TableRowView {
            cells: kept_from(rows[r].cells, merges, rows.len(), r as nat, 0, Seq::empty()),
            ..rows[r]
        };
        assert(cells_span(rows[r].cells));
        lemma_kept_spans(rows[r].cells, merges, rows.len(), r as nat, 0, Seq::empty());
        lemma_push_row_spans(acc, row);
        lemma_pruned_spans(rows, merges, r + 1, acc.push(row));
    }
}

/// Every cell of a worksheet's table spans one column and one row at least, also after the
/// merges are taken in.
pub proof fn law_sheet_cells_span(
    source: Seq<u8>,
    events: Seq<XmlEventView>,
    shared: Seq<Seq<char>>,
    styles: Option<ExcelStylesView>,
)
    ensures
        sheet_table(source, events, shared, styles) matches Ok(table) ==> rows_span(table.rows),
{
    lemma_sheet_spans(source, events, 0, sheet_start(), shared, styles);
    match sheet_from(source, events, 0, sheet_start(), shared, styles) {
        Ok(s) => {
            lemma_spans_from_spans(s.rows, s.merges, 0);
            lemma_pruned_spans(spans_from(s.rows, s.merges, 0), s.merges, 0, Seq::empty());
        },
        Err(_) => {},
    }
}

} // verus!
