//! Row heights: how many lines each row takes once its cells are wrapped to
//! the widths of their columns, and which cells are wrapped at all.

use vstd::prelude::*;
use vstd::arithmetic::div_mod::lemma_fundamental_div_mod;
use crate::failure::Failure;
use crate::widths::{column_count, ints, is_grid, larger, Grid};

verus! {

/// The lines that `len` bytes take in a column of `width` bytes: `len`
/// divided by `width`, rounded up. A column without width shows nothing.
pub open spec fn lines_needed(len: int, width: int) -> int {
    if width <= 0 {
        0
    } else if len % width == 0 {
        len / width
    } else {
        len / width + 1
    }
}

/// A cell is wrapped where it is longer than its column is wide.
pub open spec fn is_wrapped(len: int, width: int) -> bool {
    len > width
}

/// The height of a row, by its first `n` cells alone: the most lines that
/// one of them needs, and one line at least.
pub open spec fn row_height_among(row: Seq<Seq<u8>>, widths: Seq<int>, n: int) -> int
    decreases n,
{
    if n <= 0 {
        1
    } else {
        larger(row_height_among(row, widths, n - 1), lines_needed(row[n - 1].len() as int, widths[n - 1]))
    }
}

/// The number of lines that a row is drawn on.
pub open spec fn row_height(row: Seq<Seq<u8>>, widths: Seq<int>) -> int {
    row_height_among(row, widths, row.len() as int)
}

/// The height of every row.
pub open spec fn row_heights(cells: Grid, widths: Seq<int>) -> Seq<int> {
    Seq::new(cells.len(), |r: int| row_height(cells[r], widths))
}

/// For every cell of a row, whether it is wrapped.
pub open spec fn row_flags(row: Seq<Seq<u8>>, widths: Seq<int>) -> Seq<bool> {
    Seq::new(row.len(), |c: int| is_wrapped(row[c].len() as int, widths[c]))
}

/// For every cell of the table, whether it is wrapped.
pub open spec fn wrap_flags(cells: Grid, widths: Seq<int>) -> Seq<Seq<bool>> {
    Seq::new(cells.len(), |r: int| row_flags(cells[r], widths))
}

/// The cell at `r` and `c` cannot be shown: it has content and its column
/// has no width.
pub open spec fn overflow_at(cells: Grid, widths: Seq<int>, r: int, c: int) -> bool {
    &&& 0 <= r < cells.len()
    &&& 0 <= c < cells[r].len()
    &&& widths[c] == 0
    &&& cells[r][c].len() > 0
}

/// Some cell of the table cannot be shown.
pub open spec fn has_overflow(cells: Grid, widths: Seq<int>) -> bool {
    exists|r: int, c: int| overflow_at(cells, widths, r, c)
}

/// The cell at `r` and `c` comes before the cell at `r2` and `c2` when the
/// table is read row by row.
pub open spec fn reads_before(r: int, c: int, r2: int, c2: int) -> bool {
    r < r2 || (r == r2 && c < c2)
}

/// The cell at `r` and `c` cannot be shown, and every cell read before it
/// can.
pub open spec fn is_first_overflow(cells: Grid, widths: Seq<int>, r: int, c: int) -> bool {
    &&& overflow_at(cells, widths, r, c)
    &&& forall|r2: int, c2: int|
        reads_before(r2, c2, r, c) ==> !#[trigger] overflow_at(cells, widths, r2, c2)
}

/// The place of the first cell that cannot be shown, as row and column.
pub open spec fn first_overflow(cells: Grid, widths: Seq<int>) -> (int, int) {
    choose|r: int, c: int| is_first_overflow(cells, widths, r, c)
}

/// The failure that a table with a cell that cannot be shown is refused with.
pub open spec fn overflow_failure(cells: Grid, widths: Seq<int>) -> Failure {
    Failure::WrapOverflow {
        row: first_overflow(cells, widths).0 as usize,
        column: first_overflow(cells, widths).1 as usize,
    }
}

/// A table has at most one first cell that cannot be shown: where there is
/// one, `first_overflow` is its place.
pub proof fn first_overflow_is_unique(cells: Grid, widths: Seq<int>, r: int, c: int)
    requires
        is_first_overflow(cells, widths, r, c),
    ensures
        first_overflow(cells, widths) == (r, c),
        has_overflow(cells, widths),
{
    let (r2, c2) = first_overflow(cells, widths);
    assert(is_first_overflow(cells, widths, r2, c2));
    if reads_before(r, c, r2, c2) {
        assert(!overflow_at(cells, widths, r, c));
    }
    if reads_before(r2, c2, r, c) {
        assert(!overflow_at(cells, widths, r2, c2));
    }
}

/// The lines that a cell needs are the fewest that hold it: they hold all
/// its bytes, and one line less would not.
pub proof fn lines_needed_is_least(len: int, width: int)
    requires
        len >= 0,
        width > 0,
    ensures
        lines_needed(len, width) >= 0,
        lines_needed(len, width) * width >= len,
        (lines_needed(len, width) - 1) * width < len || len == 0,
        lines_needed(len, width) <= len,
        lines_needed(len, width) == 0 <==> len == 0,
{
    lemma_fundamental_div_mod(len, width);
    let q = len / width;
    let m = len % width;
    assert(q >= 0) by (nonlinear_arith)
        requires
            len == width * q + m,
            0 <= m < width,
            len >= 0,
            width > 0,
    ;
    assert(q * width == width * q) by (nonlinear_arith);
    assert((q + 1) * width == width * q + width) by (nonlinear_arith);
    assert((q - 1) * width == width * q - width) by (nonlinear_arith);
    assert(q <= width * q) by (nonlinear_arith)
        requires
            q >= 0,
            width > 0,
    ;
}

/// The height of a row is at least one line and at least the lines that any
/// of its cells needs, and no more than that.
pub proof fn row_height_is_most_lines(row: Seq<Seq<u8>>, widths: Seq<int>)
    ensures
        row_height(row, widths) >= 1,
        forall|c: int|
            0 <= c < row.len() ==> #[trigger] lines_needed(row[c].len() as int, widths[c]) <= row_height(
                row,
                widths,
            ),
        row_height(row, widths) == 1 || exists|c: int|
            0 <= c < row.len() && #[trigger] lines_needed(row[c].len() as int, widths[c]) == row_height(
                row,
                widths,
            ),
{
    height_among_is_most_lines(row, widths, row.len() as int);
}

proof fn height_among_is_most_lines(row: Seq<Seq<u8>>, widths: Seq<int>, n: int)
    requires
        0 <= n <= row.len(),
    ensures
        row_height_among(row, widths, n) >= 1,
        forall|c: int|
            0 <= c < n ==> #[trigger] lines_needed(row[c].len() as int, widths[c]) <= row_height_among(
                row,
                widths,
                n,
            ),
        row_height_among(row, widths, n) == 1 || exists|c: int|
            0 <= c < n && #[trigger] lines_needed(row[c].len() as int, widths[c]) == row_height_among(
                row,
                widths,
                n,
            ),
    decreases n,
{
    if n > 0 {
        height_among_is_most_lines(row, widths, n - 1);
        let before = row_height_among(row, widths, n - 1);
        let last = lines_needed(row[n - 1].len() as int, widths[n - 1]);
        if last > before {
            assert(lines_needed(row[n - 1].len() as int, widths[n - 1]) == row_height_among(row, widths, n));
        } else if before != 1 {
            let c = choose|c: int|
                0 <= c < n - 1 && #[trigger] lines_needed(row[c].len() as int, widths[c]) == before;
            assert(lines_needed(row[c].len() as int, widths[c]) == row_height_among(row, widths, n));
        }
    }
}

/// What the wrapping of a table comes to: the height of every row, and for
/// every cell whether it is wrapped.
pub struct RowPlan {
    pub heights: Vec<usize>,
    pub wrapped: Vec<Vec<bool>>,
}

/// The lines that a cell of `len` bytes needs in a column of `width` bytes.
fn lines_for(len: usize, width: usize) -> (lines: usize)
    requires
        width > 0,
    ensures
        lines as int == lines_needed(len as int, width as int),
{
    proof {
        lines_needed_is_least(len as int, width as int);
    }
    if len % width != 0 {
        len / width + 1
    } else {
        len / width
    }
}

/// Wraps the cells of a table to the widths of their columns. Fails at the
/// first cell, read row by row, that has content and a column without width.
pub fn plan_rows(cells: &Vec<Vec<Vec<u8>>>, widths: &Vec<usize>) -> (r: Result<RowPlan, Failure>)
    requires
        is_grid(cells.deep_view()),
        widths@.len() == column_count(cells.deep_view()),
    ensures
        match r {
            Ok(plan) => {
                &&& !has_overflow(cells.deep_view(), ints(widths@))
                &&& ints(plan.heights@) == row_heights(cells.deep_view(), ints(widths@))
                &&& plan.wrapped.deep_view() == wrap_flags(cells.deep_view(), ints(widths@))
            },
            Err(failure) => {
                &&& has_overflow(cells.deep_view(), ints(widths@))
                &&& failure == overflow_failure(cells.deep_view(), ints(widths@))
            },
        },
{
    let ghost grid = cells.deep_view();
    let ghost w = ints(widths@);
    let columns = widths.len();
    let mut heights: Vec<usize> = Vec::new();
    let mut wrapped: Vec<Vec<bool>> = Vec::new();
    let mut r: usize = 0;
    while r < cells.len()
        invariant
            grid == cells.deep_view(),
            w == ints(widths@),
            is_grid(grid),
            columns == column_count(grid),
            columns == widths@.len(),
            r <= cells.len(),
            heights@.len() == r,
            wrapped@.len() == r,
            forall|i: int| 0 <= i < r ==> (#[trigger] heights@[i]) as int == row_height(grid[i], w),
            forall|i: int| 0 <= i < r ==> (#[trigger] wrapped@[i])@ == row_flags(grid[i], w),
            forall|i: int, j: int| 0 <= i < r ==> !#[trigger] overflow_at(grid, w, i, j),
        decreases cells.len() - r,
    {
        let ghost row = grid[r as int];
        let mut height: usize = 1;
        let mut flags: Vec<bool> = Vec::new();
        let mut c: usize = 0;
        while c < columns
            invariant
                grid == cells.deep_view(),
                w == ints(widths@),
                is_grid(grid),
                columns == column_count(grid),
                columns == widths@.len(),
                r < cells.len(),
                row == grid[r as int],
                row == cells@[r as int].deep_view(),
                row.len() == columns,
                c <= columns,
                height as int == row_height_among(row, w, c as int),
                flags@.len() == c,
                forall|j: int| 0 <= j < c ==> #[trigger] flags@[j] == is_wrapped(row[j].len() as int, w[j]),
                forall|i: int, j: int| 0 <= i < r ==> !#[trigger] overflow_at(grid, w, i, j),
                forall|j: int| 0 <= j < c ==> !#[trigger] overflow_at(grid, w, r as int, j),
            decreases columns - c,
        {
            let len = cells[r][c].len();
            let width = widths[c];
            if width == 0 {
                if len > 0 {
                    proof {
                        first_overflow_is_unique(grid, w, r as int, c as int);
                    }
                    return Err(Failure::WrapOverflow { row: r, column: c });
                }
            } else {
                let lines = lines_for(len, width);
                if lines > height {
                    height = lines;
                }
            }
            flags.push(len > width);
            c += 1;
        }
        heights.push(height);
        wrapped.push(flags);
        r += 1;
    }
    proof {
        assert(wrapped.deep_view() =~= wrap_flags(grid, w)) by {
            assert forall|i: int| 0 <= i < wrapped@.len() implies wrapped.deep_view()[i] == wrap_flags(
                grid,
                w,
            )[i] by {
                assert(wrapped@[i].deep_view() =~= wrapped@[i]@);
            }
        }
        assert(!has_overflow(grid, w)) by {
            if has_overflow(grid, w) {
                let (i, j) = choose|i: int, j: int| overflow_at(grid, w, i, j);
                assert(overflow_at(grid, w, i, j));
            }
        }
    }
    Ok(RowPlan { heights, wrapped })
}

} // verus!
