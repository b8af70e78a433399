//! Drawing: the borders, the header, the separator and the body of a table,
//! line by line, as bytes.

use vstd::prelude::*;
use crate::widths::{
    all_non_negative, checked_sum, column_count, content_is_non_negative, ints, is_grid, line_length,
    sum_of, total_width, Grid,
};
use crate::wrap::{
    is_wrapped, row_flags, row_height, row_height_is_most_lines, row_heights, wrap_flags, RowPlan,
};

verus! {

/// The corner of the frame, and the end of every rule: `+`.
pub const EDGE: u8 = 0x2b;

/// The byte that rules are drawn with: `-`.
pub const LINE: u8 = 0x2d;

/// The border between and around the cells of a row: `|`.
pub const BORDER: u8 = 0x7c;

/// The byte that cells are padded with: a space.
pub const PADDING: u8 = 0x20;

/// The byte between two lines.
pub const NEWLINE: u8 = 0x0a;

/// The lesser of two integers.
pub open spec fn smaller(a: int, b: int) -> int {
    if a <= b {
        a
    } else {
        b
    }
}

/// The same byte `n` times over.
pub open spec fn run(byte: u8, n: int) -> Seq<u8> {
    Seq::new(
        if n > 0 {
            n as nat
        } else {
            0
        },
        |i: int| byte,
    )
}

/// A rule as far as its first `n` columns: an edge, and for each column the
/// line above its cells and their padding, and another edge.
pub open spec fn rule_among(widths: Seq<int>, n: int) -> Seq<u8>
    decreases n,
{
    if n <= 0 {
        seq![EDGE]
    } else {
        rule_among(widths, n - 1) + run(LINE, widths[n - 1] + 2) + seq![EDGE]
    }
}

/// The rule that is drawn above the header, below it, and below the last row.
pub open spec fn rule(widths: Seq<int>) -> Seq<u8> {
    rule_among(widths, widths.len() as int)
}

/// The bytes of a cell that are shown on line `line` of its row: the next
/// `width` bytes after those of the lines before, as far as there are any.
pub open spec fn piece(cell: Seq<u8>, width: int, line: int) -> Seq<u8> {
    let from = smaller(line * width, cell.len() as int);
    let to = smaller(from + width, cell.len() as int);
    cell.subrange(from, to)
}

/// What stands in a column on line `line` of a row: the cell's bytes for
/// that line, padded to the column's width.
pub open spec fn chunk(cell: Seq<u8>, width: int, line: int) -> Seq<u8> {
    piece(cell, width, line) + run(PADDING, width - piece(cell, width, line).len())
}

/// The first `n` columns of a line of a row, each two joined by ` | `.
pub open spec fn cells_among(row: Seq<Seq<u8>>, widths: Seq<int>, line: int, n: int) -> Seq<u8>
    decreases n,
{
    if n <= 0 {
        Seq::empty()
    } else if n == 1 {
        chunk(row[0], widths[0], line)
    } else {
        cells_among(row, widths, line, n - 1) + seq![PADDING, BORDER, PADDING] + chunk(
            row[n - 1],
            widths[n - 1],
            line,
        )
    }
}

/// Line `line` of a row: its columns between `| ` and ` |`.
pub open spec fn row_line(row: Seq<Seq<u8>>, widths: Seq<int>, line: int) -> Seq<u8> {
    seq![BORDER, PADDING] + cells_among(row, widths, line, row.len() as int) + seq![PADDING, BORDER]
}

/// The first `n` lines of a row.
pub open spec fn row_lines(row: Seq<Seq<u8>>, widths: Seq<int>, n: int) -> Seq<Seq<u8>> {
    Seq::new(
        if n > 0 {
            n as nat
        } else {
            0
        },
        |line: int| row_line(row, widths, line),
    )
}

/// The lines of the body as far as row `n`: those of every row after the
/// header, each at its height.
pub open spec fn body_lines(cells: Grid, widths: Seq<int>, n: int) -> Seq<Seq<u8>>
    decreases n,
{
    if n <= 1 {
        Seq::empty()
    } else {
        body_lines(cells, widths, n - 1) + row_lines(cells[n - 1], widths, row_height(cells[n - 1], widths))
    }
}

/// The lines of a table, top to bottom: a rule, the header, a rule, the
/// body, a rule.
pub open spec fn table_lines(cells: Grid, widths: Seq<int>) -> Seq<Seq<u8>> {
    seq![rule(widths)] + row_lines(cells[0], widths, row_height(cells[0], widths)) + seq![rule(widths)]
        + body_lines(cells, widths, cells.len() as int) + seq![rule(widths)]
}

/// The lines one after the other, each followed by a newline.
pub open spec fn terminated(lines: Seq<Seq<u8>>) -> Seq<u8>
    decreases lines.len(),
{
    if lines.len() == 0 {
        Seq::empty()
    } else {
        terminated(lines.drop_last()) + lines.last() + seq![NEWLINE]
    }
}

/// The lines as one text: a newline between each two, none at the end.
pub open spec fn joined(lines: Seq<Seq<u8>>) -> Seq<u8> {
    if lines.len() == 0 {
        Seq::empty()
    } else {
        terminated(lines.drop_last()) + lines.last()
    }
}

/// A table drawn with the given widths.
pub open spec fn drawing(cells: Grid, widths: Seq<int>) -> Seq<u8> {
    joined(table_lines(cells, widths))
}

/// The length of a drawing with these widths and these heights: as many
/// lines as the heights add up to and three more, each of the total width,
/// and a newline between each two.
pub open spec fn drawing_length(widths: Seq<int>, heights: Seq<int>) -> int {
    (total_width(widths) + 1) * (3 + sum_of(heights)) - 1
}

/// The lines that the first `n` rows take together.
pub open spec fn rows_height(cells: Grid, widths: Seq<int>, n: int) -> int
    decreases n,
{
    if n <= 0 {
        0
    } else {
        rows_height(cells, widths, n - 1) + row_height(cells[n - 1], widths)
    }
}

/// The plan is the one that wrapping these cells to these widths gives.
pub open spec fn plan_suits(cells: Grid, widths: Seq<int>, plan: RowPlan) -> bool {
    &&& widths.len() == column_count(cells)
    &&& ints(plan.heights@) == row_heights(cells, widths)
    &&& plan.wrapped.deep_view() == wrap_flags(cells, widths)
}

pub(crate) proof fn terminated_of_concat(a: Seq<Seq<u8>>, b: Seq<Seq<u8>>)
    ensures
        terminated(a + b) == terminated(a) + terminated(b),
    decreases b.len(),
{
    if b.len() > 0 {
        terminated_of_concat(a, b.drop_last());
        assert((a + b).drop_last() =~= a + b.drop_last());
    }
}

pub(crate) proof fn terminated_of_one(line: Seq<u8>)
    ensures
        terminated(seq![line]) == line + seq![NEWLINE],
{
    assert(seq![line].drop_last() =~= Seq::<Seq<u8>>::empty());
    assert(terminated(Seq::<Seq<u8>>::empty()) =~= Seq::<u8>::empty());
}

/// A table is drawn on three lines more than its rows are high together,
/// which is the sum of their heights: the three are the rule above the
/// header, the rule below it, and the rule below the last row.
pub proof fn table_has_three_lines_more_than_rows(cells: Grid, widths: Seq<int>)
    requires
        is_grid(cells),
    ensures
        table_lines(cells, widths).len() == 3 + rows_height(cells, widths, cells.len() as int),
        table_lines(cells, widths).len() == 3 + sum_of(row_heights(cells, widths)),
{
    heights_add_up(cells, widths, cells.len() as int);
    assert(row_heights(cells, widths).take(cells.len() as int) =~= row_heights(cells, widths));
    body_has_the_lines_of_its_rows(cells, widths, cells.len() as int);
    row_height_is_most_lines(cells[0], widths);
    assert(rows_height(cells, widths, 1) == rows_height(cells, widths, 0) + row_height(cells[0], widths));
}

proof fn body_has_the_lines_of_its_rows(cells: Grid, widths: Seq<int>, n: int)
    requires
        1 <= n <= cells.len(),
    ensures
        body_lines(cells, widths, n).len() == rows_height(cells, widths, n) - rows_height(cells, widths, 1),
    decreases n,
{
    if n > 1 {
        body_has_the_lines_of_its_rows(cells, widths, n - 1);
        row_height_is_most_lines(cells[n - 1], widths);
    }
}

/// Every line of a table with at least one column is as long as the
/// widths say: the content of the columns and the frame around them.
pub proof fn every_line_has_the_total_width(cells: Grid, widths: Seq<int>, i: int)
    requires
        is_grid(cells),
        column_count(cells) > 0,
        widths.len() == column_count(cells),
        all_non_negative(widths),
        0 <= i < table_lines(cells, widths).len(),
    ensures
        table_lines(cells, widths)[i].len() == total_width(widths),
{
    let header = row_lines(cells[0], widths, row_height(cells[0], widths));
    let body = body_lines(cells, widths, cells.len() as int);
    rule_has_the_total_width(widths, widths.len() as int);
    assert(widths.take(widths.len() as int) =~= widths);
    row_height_is_most_lines(cells[0], widths);
    if 0 < i < 1 + header.len() {
        row_line_has_the_total_width(cells[0], widths, i - 1);
    } else if 1 + header.len() < i < 2 + header.len() + body.len() {
        body_line_has_the_total_width(cells, widths, cells.len() as int, i - 2 - header.len());
    }
}

proof fn rule_has_the_total_width(widths: Seq<int>, n: int)
    requires
        all_non_negative(widths),
        0 <= n <= widths.len(),
    ensures
        rule_among(widths, n).len() == total_width(widths.take(n)),
    decreases n,
{
    if n > 0 {
        rule_has_the_total_width(widths, n - 1);
        assert(widths.take(n).drop_last() =~= widths.take(n - 1));
    }
}

proof fn cells_are_as_wide_as_their_columns(row: Seq<Seq<u8>>, widths: Seq<int>, line: int, n: int)
    requires
        all_non_negative(widths),
        row.len() == widths.len(),
        line >= 0,
        1 <= n <= widths.len(),
    ensures
        cells_among(row, widths, line, n).len() == sum_of(widths.take(n)) + 3 * (n - 1),
    decreases n,
{
    let cell = row[n - 1];
    let width = widths[n - 1];
    assert(chunk(cell, width, line).len() == width) by {
        assert(line * width >= 0) by (nonlinear_arith)
            requires
                line >= 0,
                width >= 0,
        ;
    }
    assert(widths.take(n).drop_last() =~= widths.take(n - 1));
    if n > 1 {
        cells_are_as_wide_as_their_columns(row, widths, line, n - 1);
    } else {
        assert(sum_of(widths.take(0)) == 0);
    }
}

proof fn row_line_has_the_total_width(row: Seq<Seq<u8>>, widths: Seq<int>, line: int)
    requires
        all_non_negative(widths),
        row.len() == widths.len(),
        widths.len() > 0,
        line >= 0,
    ensures
        row_line(row, widths, line).len() == total_width(widths),
{
    cells_are_as_wide_as_their_columns(row, widths, line, widths.len() as int);
    assert(widths.take(widths.len() as int) =~= widths);
}

proof fn body_line_has_the_total_width(cells: Grid, widths: Seq<int>, n: int, i: int)
    requires
        is_grid(cells),
        column_count(cells) > 0,
        widths.len() == column_count(cells),
        all_non_negative(widths),
        1 <= n <= cells.len(),
        0 <= i < body_lines(cells, widths, n).len(),
    ensures
        body_lines(cells, widths, n)[i].len() == total_width(widths),
    decreases n,
{
    if n > 1 {
        let before = body_lines(cells, widths, n - 1);
        if i < before.len() {
            body_line_has_the_total_width(cells, widths, n - 1, i);
        } else {
            row_line_has_the_total_width(cells[n - 1], widths, i - before.len());
        }
    }
}

/// The drawing of a table with at least one column is as long as its
/// lines and the newlines between them: every line has the total width.
pub proof fn drawing_has_the_length_of_its_lines(cells: Grid, widths: Seq<int>)
    requires
        is_grid(cells),
        column_count(cells) > 0,
        widths.len() == column_count(cells),
        all_non_negative(widths),
    ensures
        drawing(cells, widths).len() == (total_width(widths) + 1) * (3 + rows_height(
            cells,
            widths,
            cells.len() as int,
        )) - 1,
        drawing(cells, widths).len() == drawing_length(widths, row_heights(cells, widths)),
{
    let lines = table_lines(cells, widths);
    let length = total_width(widths);
    table_has_three_lines_more_than_rows(cells, widths);
    row_height_is_most_lines(cells[0], widths);
    assert forall|i: int| 0 <= i < lines.len() implies (#[trigger] lines[i]).len() == length by {
        every_line_has_the_total_width(cells, widths, i);
    }
    terminated_has_the_length_of_its_lines(lines.drop_last(), length);
    assert((length + 1) * lines.len() == (length + 1) * (lines.len() - 1) + (length + 1))
        by (nonlinear_arith);
}

proof fn terminated_has_the_length_of_its_lines(lines: Seq<Seq<u8>>, length: int)
    requires
        forall|i: int| 0 <= i < lines.len() ==> (#[trigger] lines[i]).len() == length,
    ensures
        terminated(lines).len() == (length + 1) * lines.len(),
    decreases lines.len(),
{
    if lines.len() > 0 {
        terminated_has_the_length_of_its_lines(lines.drop_last(), length);
        assert((length + 1) * lines.len() == (length + 1) * (lines.len() - 1) + (length + 1))
            by (nonlinear_arith);
    } else {
        assert((length + 1) * lines.len() == 0) by (nonlinear_arith)
            requires
                lines.len() == 0,
        ;
    }
}

proof fn heights_add_up(cells: Grid, widths: Seq<int>, n: int)
    requires
        0 <= n <= cells.len(),
    ensures
        sum_of(row_heights(cells, widths).take(n)) == rows_height(cells, widths, n),
    decreases n,
{
    let heights = row_heights(cells, widths);
    if n > 0 {
        heights_add_up(cells, widths, n - 1);
        assert(heights.take(n).drop_last() =~= heights.take(n - 1));
    }
}

/// The length of the drawing of a table with these widths and heights,
/// where it is small enough to be held: as many lines as the rows are high
/// and three more, each of the total width, and a newline between each two.
fn drawing_size(widths: &Vec<usize>, heights: &Vec<usize>) -> (size: Option<usize>)
    ensures
        match size {
            Some(bytes) => bytes as int == drawing_length(ints(widths@), ints(heights@)),
            None => drawing_length(ints(widths@), ints(heights@)) > usize::MAX,
        },
{
    let ghost length = total_width(ints(widths@)) + 1;
    let ghost lines = 3 + sum_of(ints(heights@));
    proof {
        content_is_non_negative(ints(widths@));
        content_is_non_negative(ints(heights@));
        assert(length * lines >= 2 * lines && length * lines >= 3 * length) by (nonlinear_arith)
            requires
                length >= 2,
                lines >= 3,
        ;
        assert(length * lines - 1 == length * (lines - 1) + (length - 1)) by (nonlinear_arith);
    }
    let line = match line_length(widths) {
        Some(line) => line,
        None => {
            return None;
        },
    };
    let rows = match checked_sum(heights) {
        Some(rows) => rows,
        None => {
            return None;
        },
    };
    if line == usize::MAX || rows > usize::MAX - 3 {
        return None;
    }
    match (line + 1).checked_mul(rows + 2) {
        Some(above) => above.checked_add(line),
        None => None,
    }
}

/// The number of newlines in a text.
pub open spec fn newlines(text: Seq<u8>) -> nat
    decreases text.len(),
{
    if text.len() == 0 {
        0
    } else if text.last() == NEWLINE {
        newlines(text.drop_last()) + 1
    } else {
        newlines(text.drop_last())
    }
}

/// Every byte of the text is one that `allowed` accepts.
pub open spec fn all_bytes(text: Seq<u8>, allowed: spec_fn(u8) -> bool) -> bool {
    forall|i: int| 0 <= i < text.len() ==> allowed(#[trigger] text[i])
}

/// Every byte of every cell is one that `allowed` accepts.
pub open spec fn all_cell_bytes(cells: Grid, allowed: spec_fn(u8) -> bool) -> bool {
    forall|r: int, c: int|
        0 <= r < cells.len() && 0 <= c < cells[r].len() ==> all_bytes(#[trigger] cells[r][c], allowed)
}

/// The bytes that the frame and the line breaks are made of are among
/// those that `allowed` accepts.
pub open spec fn allows_frame(allowed: spec_fn(u8) -> bool) -> bool {
    allowed(EDGE) && allowed(LINE) && allowed(BORDER) && allowed(PADDING)
}

/// Every byte but the newline.
pub open spec fn not_newline() -> spec_fn(u8) -> bool {
    |byte: u8| byte != NEWLINE
}

/// No byte of the text is a newline.
pub open spec fn has_no_newline(text: Seq<u8>) -> bool {
    all_bytes(text, not_newline())
}

/// No cell of the table holds a newline.
pub open spec fn cells_have_no_newline(cells: Grid) -> bool {
    all_cell_bytes(cells, not_newline())
}

/// Every line of a table is made of the bytes of the frame and of bytes of
/// the cells, and of no others.
pub proof fn lines_hold_frame_and_cells(
    cells: Grid,
    widths: Seq<int>,
    allowed: spec_fn(u8) -> bool,
    i: int,
)
    requires
        is_grid(cells),
        widths.len() == column_count(cells),
        all_non_negative(widths),
        allows_frame(allowed),
        all_cell_bytes(cells, allowed),
        0 <= i < table_lines(cells, widths).len(),
    ensures
        all_bytes(table_lines(cells, widths)[i], allowed),
{
    let header = row_lines(cells[0], widths, row_height(cells[0], widths));
    let body = body_lines(cells, widths, cells.len() as int);
    rule_holds_the_frame(widths, widths.len() as int, allowed);
    row_height_is_most_lines(cells[0], widths);
    if 0 < i < 1 + header.len() {
        row_line_holds_frame_and_cells(cells, widths, 0, i - 1, allowed);
    } else if 1 + header.len() < i < 2 + header.len() + body.len() {
        body_line_holds_frame_and_cells(cells, widths, cells.len() as int, i - 2 - header.len(), allowed);
    }
}

/// The drawing of a table is made of the bytes of the frame, of newlines
/// and of bytes of the cells, and of no others.
pub proof fn drawing_holds_frame_and_cells(cells: Grid, widths: Seq<int>, allowed: spec_fn(u8) -> bool)
    requires
        is_grid(cells),
        widths.len() == column_count(cells),
        all_non_negative(widths),
        allows_frame(allowed),
        allowed(NEWLINE),
        all_cell_bytes(cells, allowed),
    ensures
        all_bytes(drawing(cells, widths), allowed),
{
    let lines = table_lines(cells, widths);
    assert forall|i: int| 0 <= i < lines.len() implies all_bytes(#[trigger] lines[i], allowed) by {
        lines_hold_frame_and_cells(cells, widths, allowed, i);
    }
    terminated_holds_its_lines(lines.drop_last(), allowed);
}

/// Where no cell holds a newline, the drawing is as many lines of text as
/// the table has lines: three more than its rows are high together.
pub proof fn drawing_has_a_newline_between_lines(cells: Grid, widths: Seq<int>)
    requires
        all_non_negative(widths),
        is_grid(cells),
        widths.len() == column_count(cells),
        cells_have_no_newline(cells),
    ensures
        newlines(drawing(cells, widths)) + 1 == 3 + rows_height(cells, widths, cells.len() as int),
{
    let lines = table_lines(cells, widths);
    table_has_three_lines_more_than_rows(cells, widths);
    row_height_is_most_lines(cells[0], widths);
    assert forall|i: int| 0 <= i < lines.len() implies has_no_newline(#[trigger] lines[i]) by {
        lines_hold_frame_and_cells(cells, widths, not_newline(), i);
    }
    let above = lines.drop_last();
    terminated_has_a_newline_per_line(above);
    newlines_of_none(lines.last());
    newlines_of_concat(terminated(above), lines.last());
}

pub(crate) proof fn newlines_of_concat(a: Seq<u8>, b: Seq<u8>)
    ensures
        newlines(a + b) == newlines(a) + newlines(b),
    decreases b.len(),
{
    if b.len() > 0 {
        newlines_of_concat(a, b.drop_last());
        assert((a + b).drop_last() =~= a + b.drop_last());
    }
}

pub(crate) proof fn newlines_of_none(text: Seq<u8>)
    requires
        has_no_newline(text),
    ensures
        newlines(text) == 0,
    decreases text.len(),
{
    if text.len() > 0 {
        newlines_of_none(text.drop_last());
    }
}

pub(crate) proof fn newlines_of_one()
    ensures
        newlines(seq![NEWLINE]) == 1,
{
    assert(seq![NEWLINE].drop_last() =~= Seq::<u8>::empty());
    assert(newlines(Seq::<u8>::empty()) == 0);
}

proof fn terminated_has_a_newline_per_line(lines: Seq<Seq<u8>>)
    requires
        forall|i: int| 0 <= i < lines.len() ==> has_no_newline(#[trigger] lines[i]),
    ensures
        newlines(terminated(lines)) == lines.len(),
    decreases lines.len(),
{
    if lines.len() > 0 {
        terminated_has_a_newline_per_line(lines.drop_last());
        newlines_of_none(lines.last());
        newlines_of_concat(terminated(lines.drop_last()), lines.last());
        newlines_of_concat(terminated(lines.drop_last()) + lines.last(), seq![NEWLINE]);
        newlines_of_one();
    }
}

proof fn terminated_holds_its_lines(lines: Seq<Seq<u8>>, allowed: spec_fn(u8) -> bool)
    requires
        allowed(NEWLINE),
        forall|i: int| 0 <= i < lines.len() ==> all_bytes(#[trigger] lines[i], allowed),
    ensures
        all_bytes(terminated(lines), allowed),
    decreases lines.len(),
{
    if lines.len() > 0 {
        terminated_holds_its_lines(lines.drop_last(), allowed);
    }
}

pub(crate) proof fn rule_holds_the_frame(widths: Seq<int>, n: int, allowed: spec_fn(u8) -> bool)
    requires
        allows_frame(allowed),
    ensures
        all_bytes(rule_among(widths, n), allowed),
    decreases n,
{
    if n > 0 {
        rule_holds_the_frame(widths, n - 1, allowed);
    }
}

proof fn chunk_holds_padding_and_cell(cell: Seq<u8>, width: int, line: int, allowed: spec_fn(u8) -> bool)
    requires
        line >= 0,
        width >= 0,
        allowed(PADDING),
        all_bytes(cell, allowed),
    ensures
        all_bytes(chunk(cell, width, line), allowed),
{
    assert(line * width >= 0) by (nonlinear_arith)
        requires
            line >= 0,
            width >= 0,
    ;
    let shown = piece(cell, width, line);
    assert forall|i: int| 0 <= i < shown.len() implies allowed(#[trigger] shown[i]) by {
        let from = smaller(line * width, cell.len() as int);
        assert(shown[i] == cell[from + i]);
    }
}

proof fn cells_among_hold_frame_and_cells(
    row: Seq<Seq<u8>>,
    widths: Seq<int>,
    line: int,
    n: int,
    allowed: spec_fn(u8) -> bool,
)
    requires
        all_non_negative(widths),
        allows_frame(allowed),
        line >= 0,
        0 <= n <= row.len(),
        n <= widths.len(),
        forall|c: int| 0 <= c < row.len() ==> all_bytes(#[trigger] row[c], allowed),
    ensures
        all_bytes(cells_among(row, widths, line, n), allowed),
    decreases n,
{
    if n > 0 {
        chunk_holds_padding_and_cell(row[n - 1], widths[n - 1], line, allowed);
        if n > 1 {
            cells_among_hold_frame_and_cells(row, widths, line, n - 1, allowed);
        }
    }
}

proof fn row_line_holds_frame_and_cells(
    cells: Grid,
    widths: Seq<int>,
    r: int,
    line: int,
    allowed: spec_fn(u8) -> bool,
)
    requires
        is_grid(cells),
        widths.len() == column_count(cells),
        all_non_negative(widths),
        allows_frame(allowed),
        all_cell_bytes(cells, allowed),
        0 <= r < cells.len(),
        line >= 0,
    ensures
        all_bytes(row_line(cells[r], widths, line), allowed),
{
    let row = cells[r];
    cells_among_hold_frame_and_cells(row, widths, line, row.len() as int, allowed);
}

proof fn body_line_holds_frame_and_cells(
    cells: Grid,
    widths: Seq<int>,
    n: int,
    i: int,
    allowed: spec_fn(u8) -> bool,
)
    requires
        is_grid(cells),
        widths.len() == column_count(cells),
        all_non_negative(widths),
        allows_frame(allowed),
        all_cell_bytes(cells, allowed),
        1 <= n <= cells.len(),
        0 <= i < body_lines(cells, widths, n).len(),
    ensures
        all_bytes(body_lines(cells, widths, n)[i], allowed),
    decreases n,
{
    if n > 1 {
        let before = body_lines(cells, widths, n - 1);
        if i < before.len() {
            body_line_holds_frame_and_cells(cells, widths, n - 1, i, allowed);
        } else {
            row_line_holds_frame_and_cells(cells, widths, n - 1, i - before.len(), allowed);
        }
    }
}

/// Appends the same byte `n` times over.
fn push_run(out: &mut Vec<u8>, byte: u8, n: usize)
    ensures
        final(out)@ == old(out)@ + run(byte, n as int),
{
    let ghost start = out@;
    let mut i: usize = 0;
    while i < n
        invariant
            i <= n,
            out@ == start + run(byte, i as int),
        decreases n - i,
    {
        out.push(byte);
        i += 1;
    }
}

/// Appends a rule.
pub(crate) fn push_rule(out: &mut Vec<u8>, widths: &Vec<usize>)
    ensures
        final(out)@ == old(out)@ + rule(ints(widths@)),
{
    let ghost start = out@;
    let ghost w = ints(widths@);
    out.push(EDGE);
    let mut c: usize = 0;
    while c < widths.len()
        invariant
            w == ints(widths@),
            c <= widths.len(),
            out@ == start + rule_among(w, c as int),
        decreases widths.len() - c,
    {
        push_run(out, LINE, widths[c]);
        out.push(LINE);
        out.push(LINE);
        out.push(EDGE);
        c += 1;
    }
}

/// Appends what stands in a column on line `line` of a row.
fn push_chunk(out: &mut Vec<u8>, cell: &Vec<u8>, width: usize, wrapped: bool, line: usize)
    requires
        wrapped == is_wrapped(cell@.len() as int, width as int),
    ensures
        final(out)@ == old(out)@ + chunk(cell@, width as int, line as int),
{
    let ghost start = out@;
    let len = cell.len();
    let from: usize = if wrapped {
        match line.checked_mul(width) {
            Some(product) => if product < len {
                product
            } else {
                len
            },
            None => len,
        }
    } else if line == 0 {
        0
    } else {
        len
    };
    let to: usize = if len - from > width {
        from + width
    } else {
        len
    };
    proof {
        if !wrapped && line > 0 {
            assert(line * width >= width) by (nonlinear_arith)
                requires
                    line >= 1,
                    width >= 0,
            ;
        }
    }
    let mut i: usize = from;
    while i < to
        invariant
            from <= i <= to <= cell@.len(),
            out@ == start + cell@.subrange(from as int, i as int),
        decreases to - i,
    {
        out.push(cell[i]);
        i += 1;
    }
    push_run(out, PADDING, width - (to - from));
}

/// Appends line `line` of a row, and a newline.
fn push_row_line(
    out: &mut Vec<u8>,
    row: &Vec<Vec<u8>>,
    widths: &Vec<usize>,
    wrapped: &Vec<bool>,
    line: usize,
)
    requires
        row@.len() == widths@.len(),
        wrapped@ == row_flags(row.deep_view(), ints(widths@)),
    ensures
        final(out)@ == old(out)@ + row_line(row.deep_view(), ints(widths@), line as int) + seq![NEWLINE],
{
    let ghost start = out@;
    let ghost cells = row.deep_view();
    let ghost w = ints(widths@);
    out.push(BORDER);
    out.push(PADDING);
    let mut c: usize = 0;
    while c < row.len()
        invariant
            cells == row.deep_view(),
            w == ints(widths@),
            row@.len() == widths@.len(),
            wrapped@ == row_flags(cells, w),
            c <= row.len(),
            out@ == start + seq![BORDER, PADDING] + cells_among(cells, w, line as int, c as int),
        decreases row.len() - c,
    {
        if c > 0 {
            out.push(PADDING);
            out.push(BORDER);
            out.push(PADDING);
        }
        push_chunk(out, &row[c], widths[c], wrapped[c], line);
        c += 1;
    }
    out.push(PADDING);
    out.push(BORDER);
    out.push(NEWLINE);
}

/// Appends the first `height` lines of a row, a newline after each.
fn push_row(
    out: &mut Vec<u8>,
    row: &Vec<Vec<u8>>,
    widths: &Vec<usize>,
    wrapped: &Vec<bool>,
    height: usize,
)
    requires
        row@.len() == widths@.len(),
        wrapped@ == row_flags(row.deep_view(), ints(widths@)),
    ensures
        final(out)@ == old(out)@ + terminated(row_lines(row.deep_view(), ints(widths@), height as int)),
{
    let ghost start = out@;
    let ghost cells = row.deep_view();
    let ghost w = ints(widths@);
    let mut line: usize = 0;
    while line < height
        invariant
            cells == row.deep_view(),
            w == ints(widths@),
            row@.len() == widths@.len(),
            wrapped@ == row_flags(cells, w),
            line <= height,
            out@ == start + terminated(row_lines(cells, w, line as int)),
        decreases height - line,
    {
        push_row_line(out, row, widths, wrapped, line);
        proof {
            assert(row_lines(cells, w, line + 1) == row_lines(cells, w, line as int) + seq![
                row_line(cells, w, line as int),
            ]);
            terminated_of_concat(row_lines(cells, w, line as int), seq![row_line(cells, w, line as int)]);
            terminated_of_one(row_line(cells, w, line as int));
        }
        line += 1;
    }
}

/// Draws a table that has been measured and wrapped.
pub fn draw(cells: &Vec<Vec<Vec<u8>>>, widths: &Vec<usize>, plan: &RowPlan) -> (out: Vec<u8>)
    requires
        is_grid(cells.deep_view()),
        plan_suits(cells.deep_view(), ints(widths@), *plan),
    ensures
        out@ == drawing(cells.deep_view(), ints(widths@)),
{
    let ghost grid = cells.deep_view();
    let ghost w = ints(widths@);
    let ghost top = seq![rule(w)] + row_lines(grid[0], w, row_height(grid[0], w)) + seq![rule(w)];
    let mut out: Vec<u8> = Vec::new();
    if let Some(bytes) = drawing_size(widths, &plan.heights) {
        let _ = out.try_reserve(bytes);
    }
    proof {
        assert(ints(plan.heights@).len() == plan.heights@.len());
        assert(plan.wrapped.deep_view().len() == plan.wrapped@.len());
        assert forall|r: int| 0 <= r < cells@.len() implies {
            &&& (#[trigger] cells@[r])@.len() == widths@.len()
            &&& plan.wrapped@[r]@ == row_flags(cells@[r].deep_view(), w)
            &&& plan.heights@[r] as int == row_height(cells@[r].deep_view(), w)
            &&& grid[r] == cells@[r].deep_view()
        } by {
            assert(plan.wrapped.deep_view()[r] == plan.wrapped@[r].deep_view());
            assert(ints(plan.heights@)[r] == row_heights(grid, w)[r]);
        }
    }
    push_rule(&mut out, widths);
    out.push(NEWLINE);
    push_row(&mut out, &cells[0], widths, &plan.wrapped[0], plan.heights[0]);
    push_rule(&mut out, widths);
    out.push(NEWLINE);
    proof {
        let header = row_lines(grid[0], w, row_height(grid[0], w));
        terminated_of_one(rule(w));
        terminated_of_concat(seq![rule(w)], header);
        terminated_of_concat(seq![rule(w)] + header, seq![rule(w)]);
    }
    let mut r: usize = 1;
    while r < cells.len()
        invariant
            grid == cells.deep_view(),
            w == ints(widths@),
            1 <= r <= cells.len(),
            plan.heights@.len() == cells@.len(),
            plan.wrapped@.len() == cells@.len(),
            forall|i: int| 0 <= i < cells@.len() ==> {
                &&& (#[trigger] cells@[i])@.len() == widths@.len()
                &&& plan.wrapped@[i]@ == row_flags(cells@[i].deep_view(), w)
                &&& plan.heights@[i] as int == row_height(cells@[i].deep_view(), w)
                &&& grid[i] == cells@[i].deep_view()
            },
            out@ == terminated(top + body_lines(grid, w, r as int)),
        decreases cells.len() - r,
    {
        push_row(&mut out, &cells[r], widths, &plan.wrapped[r], plan.heights[r]);
        proof {
            let lines = row_lines(grid[r as int], w, row_height(grid[r as int], w));
            terminated_of_concat(top + body_lines(grid, w, r as int), lines);
            assert(top + body_lines(grid, w, r + 1) =~= top + body_lines(grid, w, r as int) + lines);
        }
        r += 1;
    }
    push_rule(&mut out, widths);
    proof {
        let above = top + body_lines(grid, w, grid.len() as int);
        assert(table_lines(grid, w).drop_last() =~= above);
    }
    out
}

} // verus!
