//! Marks on a page: text and straight lines at fixed places.
//!
//! Places are counted in tenths of a typographic point from the lower left
//! corner of the page, so that every place of the invoice is a whole number.

use vstd::prelude::*;
use vstd::string::*;

verus! {

/// One mark on the page.
#[derive(Debug, PartialEq, Eq)]
pub enum Mark {
    /// A line of text that starts at (`x`, `y`), `size` points high.
    Text { text: String, size: u32, x: i64, y: i64, bold: bool },
    /// An amount of money, given as the bit pattern of an IEEE 754 double,
    /// to be written out where the page is drawn.
    Amount { amount_bits: u64, size: u32, x: i64, y: i64, bold: bool },
    /// A black line, one point wide, from (`x1`, `y1`) to (`x2`, `y2`).
    Line { x1: i64, y1: i64, x2: i64, y2: i64 },
}

pub enum MarkView {
    Text { text: Seq<char>, size: u32, x: int, y: int, bold: bool },
    Amount { amount_bits: u64, size: u32, x: int, y: int, bold: bool },
    Line { x1: int, y1: int, x2: int, y2: int },
}

impl View for Mark {
    type V = MarkView;

    open spec fn view(&self) -> MarkView {
        match self {
            Mark::Text { text, size, x, y, bold } => MarkView::Text {
                text: text@,
                size: *size,
                x: *x as int,
                y: *y as int,
                bold: *bold,
            },
            Mark::Amount { amount_bits, size, x, y, bold } => MarkView::Amount {
                amount_bits: *amount_bits,
                size: *size,
                x: *x as int,
                y: *y as int,
                bold: *bold,
            },
            Mark::Line { x1, y1, x2, y2 } => MarkView::Line {
                x1: *x1 as int,
                y1: *y1 as int,
                x2: *x2 as int,
                y2: *y2 as int,
            },
        }
    }
}

impl DeepView for Mark {
    type V = MarkView;

    open spec fn deep_view(&self) -> MarkView {
        self@
    }
}

/// The left margin, and the margin at the top and at the right.
pub const MARGIN: i64 = 500;

/// The width of an A4 page.
pub const PAGE_WIDTH: i64 = 5950;

/// The height of an A4 page.
pub const PAGE_HEIGHT: i64 = 8420;

/// Where the right column starts.
pub const RIGHT_COLUMN: i64 = 4450;

/// Where the table is ruled between its two columns.
pub const TABLE_RULE: i64 = 3950;

/// The height of a table row of one line of text.
pub const ROW: i64 = 300;

/// The step from one line of text to the next.
pub const LINE_STEP: i64 = 150;

/// A line of text in the regular or the bold face.
pub open spec fn text_mark(text: Seq<char>, size: u32, x: int, y: int, bold: bool) -> MarkView {
    MarkView::Text { text, size, x, y, bold }
}

/// Lines of text set one under the other from `y` downwards, `step` apart,
/// in the regular face: the first `first_size` points high, the others
/// `size` points.
pub open spec fn column_marks(
    lines: Seq<Seq<char>>,
    first_size: u32,
    size: u32,
    x: int,
    y: int,
    step: int,
) -> Seq<MarkView> {
    Seq::new(
        lines.len(),
        |i: int|
            text_mark(
                lines[i],
                if i == 0 {
                    first_size
                } else {
                    size
                },
                x,
                y - step * i,
                false,
            ),
    )
}

/// The frame of a table row whose upper edge lies at `y`: the upper and the
/// lower edge, and the rules at the left, between the columns and at the
/// right.
pub open spec fn row_marks(y: int) -> Seq<MarkView> {
    seq![
        line_mark(MARGIN as int, y, PAGE_WIDTH - MARGIN, y),
        line_mark(MARGIN as int, y - ROW, PAGE_WIDTH - MARGIN, y - ROW),
        line_mark(MARGIN as int, y, MARGIN as int, y - ROW),
        line_mark(TABLE_RULE as int, y, TABLE_RULE as int, y - ROW),
        line_mark(PAGE_WIDTH - MARGIN, y, PAGE_WIDTH - MARGIN, y - ROW),
    ]
}

/// Appends a line of text.
pub fn push_text(marks: &mut Vec<Mark>, text: String, size: u32, x: i64, y: i64, bold: bool)
    ensures
        final(marks).deep_view() == old(marks).deep_view().push(
            text_mark(text@, size, x as int, y as int, bold),
        ),
{
    marks.push(Mark::Text { text, size, x, y, bold });
    assert(marks.deep_view() =~= old(marks).deep_view().push(
        text_mark(text@, size, x as int, y as int, bold),
    ));
}

/// An amount of money in the regular or the bold face.
pub open spec fn amount_mark(amount_bits: u64, size: u32, x: int, y: int, bold: bool) -> MarkView {
    MarkView::Amount { amount_bits, size, x, y, bold }
}

/// A line from one place to another.
pub open spec fn line_mark(x1: int, y1: int, x2: int, y2: int) -> MarkView {
    MarkView::Line { x1, y1, x2, y2 }
}

/// Appends an amount of money.
pub fn push_amount(marks: &mut Vec<Mark>, amount_bits: u64, size: u32, x: i64, y: i64, bold: bool)
    ensures
        final(marks).deep_view() == old(marks).deep_view().push(
            amount_mark(amount_bits, size, x as int, y as int, bold),
        ),
{
    marks.push(Mark::Amount { amount_bits, size, x, y, bold });
    assert(marks.deep_view() =~= old(marks).deep_view().push(
        amount_mark(amount_bits, size, x as int, y as int, bold),
    ));
}

/// Appends a line.
pub fn push_line(marks: &mut Vec<Mark>, x1: i64, y1: i64, x2: i64, y2: i64)
    ensures
        final(marks).deep_view() == old(marks).deep_view().push(
            line_mark(x1 as int, y1 as int, x2 as int, y2 as int),
        ),
{
    marks.push(Mark::Line { x1, y1, x2, y2 });
    assert(marks.deep_view() =~= old(marks).deep_view().push(
        line_mark(x1 as int, y1 as int, x2 as int, y2 as int),
    ));
}

/// Appends a column of text.
pub fn push_column(
    marks: &mut Vec<Mark>,
    lines: &Vec<String>,
    first_size: u32,
    size: u32,
    x: i64,
    y: i64,
    step: i64,
)
    requires
        0 <= step,
        i64::MIN <= y - step * lines@.len(),
    ensures
        final(marks).deep_view() == old(marks).deep_view() + column_marks(
            lines.deep_view(),
            first_size,
            size,
            x as int,
            y as int,
            step as int,
        ),
{
    let ghost before = marks.deep_view();
    let ghost column = column_marks(
        lines.deep_view(),
        first_size,
        size,
        x as int,
        y as int,
        step as int,
    );
    let mut at: i64 = y;
    let mut i: usize = 0;
    assert(marks.deep_view() =~= before + column.take(0));
    while i < lines.len()
        invariant
            i <= lines.len(),
            0 <= step,
            i64::MIN <= y - step * lines@.len(),
            at == y - step * i,
            column == column_marks(
                lines.deep_view(),
                first_size,
                size,
                x as int,
                y as int,
                step as int,
            ),
            marks.deep_view() == before + column.take(i as int),
        decreases lines.len() - i,
    {
        let ghost so_far = marks.deep_view();
        let height = if i == 0 {
            first_size
        } else {
            size
        };
        push_text(marks, lines[i].clone(), height, x, at, false);
        assert(marks.deep_view() =~= before + column.take(i + 1));
        assert(step * (i + 1) == step * i + step) by (nonlinear_arith);
        assert(step * (i + 1) <= step * lines@.len()) by (nonlinear_arith)
            requires
                0 <= step,
                i + 1 <= lines@.len(),
        ;
        at = at - step;
        i = i + 1;
    }
    assert(column.take(i as int) =~= column);
}

/// Appends the frame of a table row.
pub fn push_row(marks: &mut Vec<Mark>, y: i64)
    requires
        i64::MIN + ROW <= y,
    ensures
        final(marks).deep_view() == old(marks).deep_view() + row_marks(y as int),
{
    let left = MARGIN;
    let right = PAGE_WIDTH - MARGIN;
    let low = y - ROW;
    push_line(marks, left, y, right, y);
    push_line(marks, left, low, right, low);
    push_line(marks, left, y, left, low);
    push_line(marks, TABLE_RULE, y, TABLE_RULE, low);
    push_line(marks, right, y, right, low);
    assert(marks.deep_view() =~= old(marks).deep_view() + row_marks(y as int));
}

} // verus!
