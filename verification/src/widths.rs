//! Column widths: how wide each column would like to be, and how the widest
//! are narrowed until the whole frame fits the display.

use vstd::prelude::*;
use crate::failure::Failure;
use crate::shape::is_uniform;

verus! {

/// The cells of a table as mathematical sequences: rows of cells of bytes.
pub type Grid = Seq<Seq<Seq<u8>>>;

/// A grid has at least one row, and every row has as many cells as the first.
pub open spec fn is_grid(cells: Grid) -> bool {
    cells.len() > 0 && is_uniform(cells)
}

/// The number of columns of a grid.
pub open spec fn column_count(cells: Grid) -> nat {
    cells[0].len()
}

/// The greater of two integers.
pub open spec fn larger(a: int, b: int) -> int {
    if a >= b {
        a
    } else {
        b
    }
}

/// The longest cell of column `c` among the first `rows` rows.
pub open spec fn column_reach(cells: Grid, c: int, rows: int) -> int
    decreases rows,
{
    if rows <= 0 {
        0
    } else {
        larger(column_reach(cells, c, rows - 1), cells[rows - 1][c].len() as int)
    }
}

/// The natural width of every column: the byte length of its longest cell.
pub open spec fn natural_widths(cells: Grid) -> Seq<int> {
    Seq::new(column_count(cells), |c: int| column_reach(cells, c, cells.len() as int))
}

/// A vector of widths as mathematical integers.
pub open spec fn ints(v: Seq<usize>) -> Seq<int> {
    Seq::new(v.len(), |i: int| v[i] as int)
}

/// The natural width of a column is the length of one of its cells, and no
/// cell of the column is longer.
pub proof fn natural_width_is_longest_cell(cells: Grid, c: int)
    requires
        is_grid(cells),
        0 <= c < column_count(cells),
    ensures
        forall|r: int| 0 <= r < cells.len() ==> (#[trigger] cells[r])[c].len() <= natural_widths(cells)[c],
        exists|r: int| 0 <= r < cells.len() && (#[trigger] cells[r])[c].len() == natural_widths(cells)[c],
{
    reach_is_longest(cells, c, cells.len() as int);
}

proof fn reach_is_longest(cells: Grid, c: int, rows: int)
    requires
        0 < rows <= cells.len(),
    ensures
        forall|r: int| 0 <= r < rows ==> (#[trigger] cells[r])[c].len() <= column_reach(cells, c, rows),
        exists|r: int| 0 <= r < rows && (#[trigger] cells[r])[c].len() == column_reach(cells, c, rows),
    decreases rows,
{
    if rows == 1 {
        assert(column_reach(cells, c, 0) == 0);
        assert(cells[0][c].len() == column_reach(cells, c, 1));
    } else {
        reach_is_longest(cells, c, rows - 1);
        let w = choose|r: int|
            0 <= r < rows - 1 && (#[trigger] cells[r])[c].len() == column_reach(cells, c, rows - 1);
        if cells[rows - 1][c].len() > column_reach(cells, c, rows - 1) {
            assert(cells[rows - 1][c].len() == column_reach(cells, c, rows));
        } else {
            assert(cells[w][c].len() == column_reach(cells, c, rows));
        }
    }
}

/// There is a natural width for every column, and none is negative.
pub proof fn natural_widths_are_lengths(cells: Grid)
    ensures
        natural_widths(cells).len() == column_count(cells),
        all_non_negative(natural_widths(cells)),
{
}

/// Measures the columns of a table.
pub fn natural_widths_of(cells: &Vec<Vec<Vec<u8>>>) -> (widths: Vec<usize>)
    requires
        is_grid(cells.deep_view()),
    ensures
        ints(widths@) == natural_widths(cells.deep_view()),
{
    let ghost grid = cells.deep_view();
    let columns = cells[0].len();
    let mut widths: Vec<usize> = Vec::new();
    let mut c: usize = 0;
    while c < columns
        invariant
            grid == cells.deep_view(),
            is_grid(grid),
            columns == column_count(grid),
            c <= columns,
            widths@.len() == c,
            forall|k: int| 0 <= k < c ==> widths@[k] as int == column_reach(grid, k, grid.len() as int),
        decreases columns - c,
    {
        let mut widest: usize = 0;
        let mut r: usize = 0;
        while r < cells.len()
            invariant
                grid == cells.deep_view(),
                is_grid(grid),
                columns == column_count(grid),
                c < columns,
                r <= cells.len(),
                widest as int == column_reach(grid, c as int, r as int),
            decreases cells.len() - r,
        {
            assert(grid[r as int].len() == columns);
            let len = cells[r][c].len();
            if len > widest {
                widest = len;
            }
            r += 1;
        }
        widths.push(widest);
        c += 1;
    }
    widths
}

/// The bytes of a line that hold no content: a border before the first
/// column and after each column, and a space on either side of each column.
pub open spec fn frame_overhead(columns: int) -> int {
    3 * columns + 1
}

/// The sum of the numbers.
pub open spec fn sum_of(values: Seq<int>) -> int
    decreases values.len(),
{
    if values.len() == 0 {
        0
    } else {
        sum_of(values.drop_last()) + values.last()
    }
}

/// The length of every line of a table drawn with these widths.
pub open spec fn total_width(widths: Seq<int>) -> int {
    sum_of(widths) + frame_overhead(widths.len() as int)
}

/// Among the first `n` columns, the first one that no other is wider than.
pub open spec fn widest_among(widths: Seq<int>, n: int) -> int
    decreases n,
{
    if n <= 1 {
        0
    } else {
        let best = widest_among(widths, n - 1);
        if widths[n - 1] > widths[best] {
            n - 1
        } else {
            best
        }
    }
}

/// The column that the next narrowing step takes a byte from: the widest,
/// and of several widest the one with the lowest index.
pub open spec fn widest_column(widths: Seq<int>) -> int {
    widest_among(widths, widths.len() as int)
}

/// One narrowing step: the widest column loses one byte.
pub open spec fn narrowed(widths: Seq<int>) -> Seq<int> {
    widths.update(widest_column(widths), widths[widest_column(widths)] - 1)
}

/// The widths after `steps` narrowing steps.
pub open spec fn narrowed_by(widths: Seq<int>, steps: nat) -> Seq<int>
    decreases steps,
{
    if steps == 0 {
        widths
    } else {
        narrowed(narrowed_by(widths, (steps - 1) as nat))
    }
}

/// By how many bytes a line drawn with these widths is longer than `target`.
pub open spec fn excess(widths: Seq<int>, target: int) -> nat {
    if total_width(widths) > target {
        (total_width(widths) - target) as nat
    } else {
        0
    }
}

/// Whether the frame of a table with this many columns, all of them narrowed
/// to nothing, fits into `target` bytes.
pub open spec fn frame_fits(columns: int, target: int) -> bool {
    frame_overhead(columns) <= target
}

/// The widths that a table with these natural widths is drawn with on a
/// display of `target` bytes: one narrowing step for every byte of excess.
pub open spec fn shrunk(natural: Seq<int>, target: int) -> Seq<int> {
    narrowed_by(natural, excess(natural, target))
}

/// No width is negative.
pub open spec fn all_non_negative(widths: Seq<int>) -> bool {
    forall|c: int| 0 <= c < widths.len() ==> #[trigger] widths[c] >= 0
}

/// The column that a narrowing step picks is at least as wide as every
/// column, and wider than every column before it.
pub proof fn widest_column_is_first_widest(widths: Seq<int>)
    requires
        widths.len() > 0,
    ensures
        0 <= widest_column(widths) < widths.len(),
        forall|c: int| 0 <= c < widths.len() ==> #[trigger] widths[c] <= widths[widest_column(widths)],
        forall|c: int|
            0 <= c < widest_column(widths) ==> #[trigger] widths[c] < widths[widest_column(widths)],
{
    widest_among_is_first_widest(widths, widths.len() as int);
}

proof fn widest_among_is_first_widest(widths: Seq<int>, n: int)
    requires
        0 < n <= widths.len(),
    ensures
        0 <= widest_among(widths, n) < n,
        forall|c: int| 0 <= c < n ==> #[trigger] widths[c] <= widths[widest_among(widths, n)],
        forall|c: int|
            0 <= c < widest_among(widths, n) ==> #[trigger] widths[c] < widths[widest_among(widths, n)],
    decreases n,
{
    if n > 1 {
        widest_among_is_first_widest(widths, n - 1);
    }
}

/// A narrowing step takes one byte from the first of the widest columns
/// and leaves every other column as it was.
pub proof fn narrowing_takes_from_the_first_widest(widths: Seq<int>)
    requires
        widths.len() > 0,
    ensures
        0 <= widest_column(widths) < widths.len(),
        narrowed(widths).len() == widths.len(),
        narrowed(widths)[widest_column(widths)] == widths[widest_column(widths)] - 1,
        forall|c: int|
            0 <= c < widths.len() && c != widest_column(widths) ==> #[trigger] narrowed(widths)[c]
                == widths[c],
        forall|c: int| 0 <= c < widths.len() ==> #[trigger] widths[c] <= widths[widest_column(widths)],
        forall|c: int|
            0 <= c < widest_column(widths) ==> #[trigger] widths[c] < widths[widest_column(widths)],
{
    widest_column_is_first_widest(widths);
}

proof fn content_after_update(widths: Seq<int>, i: int, value: int)
    requires
        0 <= i < widths.len(),
    ensures
        sum_of(widths.update(i, value)) == sum_of(widths) - widths[i] + value,
    decreases widths.len(),
{
    let after = widths.update(i, value);
    if i == widths.len() - 1 {
        assert(after.drop_last() =~= widths.drop_last());
    } else {
        content_after_update(widths.drop_last(), i, value);
        assert(after.drop_last() =~= widths.drop_last().update(i, value));
    }
}

proof fn content_of_prefix(widths: Seq<int>, n: int)
    requires
        0 <= n < widths.len(),
    ensures
        sum_of(widths.take(n + 1)) == sum_of(widths.take(n)) + widths[n],
{
    assert(widths.take(n + 1).drop_last() =~= widths.take(n));
}

proof fn content_grows_with_prefix(widths: Seq<int>, n: int)
    requires
        all_non_negative(widths),
        0 <= n <= widths.len(),
    ensures
        0 <= sum_of(widths.take(n)) <= sum_of(widths),
    decreases widths.len() - n,
{
    if n == widths.len() {
        assert(widths.take(n) =~= widths);
        content_is_non_negative(widths);
    } else {
        content_grows_with_prefix(widths, n + 1);
        content_of_prefix(widths, n);
        content_is_non_negative(widths.take(n));
    }
}

pub(crate) proof fn content_is_non_negative(widths: Seq<int>)
    requires
        all_non_negative(widths),
    ensures
        sum_of(widths) >= 0,
    decreases widths.len(),
{
    if widths.len() > 0 {
        content_is_non_negative(widths.drop_last());
    }
}

proof fn content_below_ceiling(widths: Seq<int>, ceiling: int)
    requires
        forall|c: int| 0 <= c < widths.len() ==> #[trigger] widths[c] <= ceiling,
    ensures
        sum_of(widths) <= widths.len() * ceiling,
    decreases widths.len(),
{
    if widths.len() > 0 {
        content_below_ceiling(widths.drop_last(), ceiling);
        assert(widths.len() * ceiling == (widths.len() - 1) * ceiling + ceiling) by (nonlinear_arith);
    }
}

/// Narrowing step by step: every step takes one byte from the content, no
/// column grows, none falls below zero while the content is positive, and
/// the number of columns stays.
pub proof fn narrowing_takes_one_byte_per_step(widths: Seq<int>, steps: nat)
    requires
        all_non_negative(widths),
        steps <= sum_of(widths),
    ensures
        narrowed_by(widths, steps).len() == widths.len(),
        sum_of(narrowed_by(widths, steps)) == sum_of(widths) - steps,
        all_non_negative(narrowed_by(widths, steps)),
        forall|c: int| 0 <= c < widths.len() ==> #[trigger] narrowed_by(widths, steps)[c] <= widths[c],
    decreases steps,
{
    if steps > 0 {
        let before = narrowed_by(widths, (steps - 1) as nat);
        narrowing_takes_one_byte_per_step(widths, (steps - 1) as nat);
        narrowing_step(before);
    }
}

proof fn narrowing_step(before: Seq<int>)
    requires
        all_non_negative(before),
        sum_of(before) > 0,
    ensures
        before.len() > 0,
        before[widest_column(before)] > 0,
        narrowed(before).len() == before.len(),
        sum_of(narrowed(before)) == sum_of(before) - 1,
        all_non_negative(narrowed(before)),
        forall|c: int| 0 <= c < before.len() ==> #[trigger] narrowed(before)[c] <= before[c],
{
    widest_column_is_first_widest(before);
    let i = widest_column(before);
    if before[i] <= 0 {
        content_below_ceiling(before, 0);
    }
    content_after_update(before, i, before[i] - 1);
}

/// Whenever the frame fits the display, the shrunk widths fit it too: the
/// line is as long as the display where columns were narrowed and keeps its
/// natural length where they were not, no width is negative, none is
/// greater than its natural width, and the steps taken are the bytes lost.
pub proof fn shrunk_widths_fit(natural: Seq<int>, target: int)
    requires
        all_non_negative(natural),
        frame_fits(natural.len() as int, target),
    ensures
        shrunk(natural, target).len() == natural.len(),
        all_non_negative(shrunk(natural, target)),
        forall|c: int| 0 <= c < natural.len() ==> #[trigger] shrunk(natural, target)[c] <= natural[c],
        total_width(shrunk(natural, target)) <= target,
        total_width(natural) > target ==> total_width(shrunk(natural, target)) == target,
        total_width(natural) <= target ==> shrunk(natural, target) == natural,
        excess(natural, target) == total_width(natural) - total_width(shrunk(natural, target)),
{
    content_is_non_negative(natural);
    narrowing_takes_one_byte_per_step(natural, excess(natural, target));
}

/// Narrowing ends at the bare frame: when as many steps are taken as the
/// columns have bytes, every column is empty and the line is as long as the
/// frame alone. A display that does not hold the frame holds the table
/// after no number of steps.
pub proof fn narrowing_ends_at_the_frame(natural: Seq<int>)
    requires
        all_non_negative(natural),
    ensures
        sum_of(natural) >= 0,
        forall|c: int|
            0 <= c < natural.len() ==> #[trigger] narrowed_by(natural, sum_of(natural) as nat)[c] == 0,
        total_width(narrowed_by(natural, sum_of(natural) as nat)) == frame_overhead(natural.len() as int),
        forall|steps: nat|
            steps <= sum_of(natural) ==> total_width(#[trigger] narrowed_by(natural, steps)) >= frame_overhead(
                natural.len() as int,
            ),
{
    content_is_non_negative(natural);
    let last = narrowed_by(natural, sum_of(natural) as nat);
    narrowing_takes_one_byte_per_step(natural, sum_of(natural) as nat);
    assert forall|c: int| 0 <= c < natural.len() implies #[trigger] last[c] == 0 by {
        if last[c] > 0 {
            content_after_update(last, c, 0);
            content_is_non_negative(last.update(c, 0));
        }
    }
    assert forall|steps: nat| steps <= sum_of(natural) implies total_width(
        #[trigger] narrowed_by(natural, steps),
    ) >= frame_overhead(natural.len() as int) by {
        narrowing_takes_one_byte_per_step(natural, steps);
    }
}

/// Narrowing is even-handed: a column that has lost a byte is never more
/// than one byte narrower than the widest column.
pub open spec fn is_even_handed(natural: Seq<int>, widths: Seq<int>) -> bool {
    forall|c: int, d: int|
        0 <= c < widths.len() && 0 <= d < widths.len() && widths[c] < natural[c] ==> #[trigger] widths[c]
            >= #[trigger] widths[d] - 1
}

/// However many steps are taken, narrowing stays even-handed: the bytes are
/// taken from the widest columns, and no column is narrowed past another
/// by more than one byte.
pub proof fn narrowing_is_even_handed(natural: Seq<int>, steps: nat)
    requires
        natural.len() > 0,
    ensures
        narrowed_by(natural, steps).len() == natural.len(),
        is_even_handed(natural, narrowed_by(natural, steps)),
    decreases steps,
{
    if steps > 0 {
        let before = narrowed_by(natural, (steps - 1) as nat);
        narrowing_is_even_handed(natural, (steps - 1) as nat);
        narrowing_takes_from_the_first_widest(before);
        let after = narrowed(before);
        let i = widest_column(before);
        assert forall|c: int, d: int|
            0 <= c < after.len() && 0 <= d < after.len() && after[c] < natural[c] implies #[trigger] after[c]
            >= #[trigger] after[d] - 1 by {
            assert(after[d] <= before[d]);
            assert(before[d] <= before[i]);
            if c != i {
                assert(after[c] == before[c]);
                assert(before[c] >= before[i] - 1);
            }
        }
    }
}

/// Narrowing goes from left to right: of two columns, the one to the right
/// loses a byte only when the one to its left is no wider than it then is.
pub open spec fn is_left_to_right(natural: Seq<int>, widths: Seq<int>) -> bool {
    forall|c: int, d: int|
        0 <= c < d < widths.len() && widths[d] < natural[d] ==> #[trigger] widths[c] <= #[trigger] widths[d]
}

/// However many steps are taken, narrowing goes from left to right: among
/// columns of one width the lowest index is narrowed first.
pub proof fn narrowing_goes_left_to_right(natural: Seq<int>, steps: nat)
    requires
        natural.len() > 0,
    ensures
        narrowed_by(natural, steps).len() == natural.len(),
        is_left_to_right(natural, narrowed_by(natural, steps)),
    decreases steps,
{
    if steps > 0 {
        let before = narrowed_by(natural, (steps - 1) as nat);
        narrowing_goes_left_to_right(natural, (steps - 1) as nat);
        narrowing_takes_from_the_first_widest(before);
        let after = narrowed(before);
        let i = widest_column(before);
        assert forall|c: int, d: int|
            0 <= c < d < after.len() && after[d] < natural[d] implies #[trigger] after[c]
            <= #[trigger] after[d] by {
            assert(after[c] <= before[c]);
            if d == i {
                assert(before[c] < before[i]);
            } else {
                assert(after[d] == before[d]);
                assert(before[c] <= before[d]);
            }
        }
    }
}

/// The widths are a fair narrowing of the natural widths: no column is
/// wider than it would like to be, and what was taken was taken
/// even-handedly and from left to right.
pub open spec fn is_fair_narrowing(natural: Seq<int>, widths: Seq<int>) -> bool {
    &&& widths.len() == natural.len()
    &&& forall|c: int| 0 <= c < widths.len() ==> #[trigger] widths[c] <= natural[c]
    &&& is_even_handed(natural, widths)
    &&& is_left_to_right(natural, widths)
}

/// Of two fair narrowings of the same natural widths, one is nowhere wider
/// than the other.
proof fn fair_narrowings_are_ordered(natural: Seq<int>, one: Seq<int>, other: Seq<int>)
    requires
        is_fair_narrowing(natural, one),
        is_fair_narrowing(natural, other),
    ensures
        (forall|c: int| 0 <= c < natural.len() ==> #[trigger] one[c] <= other[c]) || (forall|c: int|
            0 <= c < natural.len() ==> #[trigger] other[c] <= one[c]),
{
    if exists|c: int| 0 <= c < natural.len() && #[trigger] one[c] > other[c] {
        if exists|d: int| 0 <= d < natural.len() && #[trigger] other[d] > one[d] {
            let c = choose|c: int| 0 <= c < natural.len() && #[trigger] one[c] > other[c];
            let d = choose|d: int| 0 <= d < natural.len() && #[trigger] other[d] > one[d];
            // `other` took from `c` and `one` took from `d`, so neither is
            // more than a byte below any column of its own narrowing.
            assert(other[c] < natural[c]);
            assert(one[d] < natural[d]);
            assert(other[c] >= other[d] - 1);
            assert(one[d] >= one[c] - 1);
            if c < d {
                assert(one[c] <= one[d]);
            } else {
                assert(other[d] <= other[c]);
            }
        }
    }
}

/// Widths that are nowhere greater than others add up to no more, and to
/// less unless they are the same.
proof fn sums_of_ordered_widths(one: Seq<int>, other: Seq<int>)
    requires
        one.len() == other.len(),
        forall|c: int| 0 <= c < one.len() ==> #[trigger] one[c] <= other[c],
    ensures
        sum_of(one) <= sum_of(other),
        sum_of(one) == sum_of(other) ==> one == other,
    decreases one.len(),
{
    if one.len() > 0 {
        sums_of_ordered_widths(one.drop_last(), other.drop_last());
        if sum_of(one) == sum_of(other) {
            assert(one =~= one.drop_last().push(one.last()));
            assert(other =~= other.drop_last().push(other.last()));
        }
    } else {
        assert(one =~= other);
    }
}

/// The shrunk widths are the one fair narrowing that is as long as the
/// display allows: whatever widths are a fair narrowing of the natural
/// widths and give lines of the natural length or the length of the
/// display, whichever is less, are the shrunk widths.
pub proof fn shrunk_is_the_fair_narrowing(natural: Seq<int>, target: int, widths: Seq<int>)
    requires
        all_non_negative(natural),
        frame_fits(natural.len() as int, target),
        is_fair_narrowing(natural, widths),
        total_width(widths) == if total_width(natural) <= target {
            total_width(natural)
        } else {
            target
        },
    ensures
        is_fair_narrowing(natural, shrunk(natural, target)),
        widths == shrunk(natural, target),
{
    let fair = shrunk(natural, target);
    shrunk_widths_fit(natural, target);
    if natural.len() > 0 {
        narrowing_is_even_handed(natural, excess(natural, target));
        narrowing_goes_left_to_right(natural, excess(natural, target));
        fair_narrowings_are_ordered(natural, widths, fair);
        if forall|c: int| 0 <= c < natural.len() ==> #[trigger] widths[c] <= fair[c] {
            sums_of_ordered_widths(widths, fair);
        } else {
            sums_of_ordered_widths(fair, widths);
        }
    } else {
        assert(widths =~= fair);
    }
}

/// Whether the widths add up to no more than `budget`.
fn content_within(widths: &Vec<usize>, budget: usize) -> (within: bool)
    ensures
        within == (sum_of(ints(widths@)) <= budget),
{
    let ghost all = ints(widths@);
    let mut sum: usize = 0;
    let mut c: usize = 0;
    while c < widths.len()
        invariant
            all == ints(widths@),
            c <= widths.len(),
            sum as int == sum_of(all.take(c as int)),
            sum <= budget,
        decreases widths.len() - c,
    {
        proof {
            content_of_prefix(all, c as int);
            content_grows_with_prefix(all, c as int + 1);
        }
        if widths[c] > budget - sum {
            return false;
        }
        sum += widths[c];
        c += 1;
    }
    assert(all.take(c as int) =~= all);
    true
}

/// The sum of the numbers, where it is small enough to be held.
pub(crate) fn checked_sum(values: &Vec<usize>) -> (sum: Option<usize>)
    ensures
        match sum {
            Some(total) => total as int == sum_of(ints(values@)),
            None => sum_of(ints(values@)) > usize::MAX,
        },
{
    let ghost all = ints(values@);
    let mut sum: usize = 0;
    let mut c: usize = 0;
    while c < values.len()
        invariant
            all == ints(values@),
            c <= values.len(),
            sum as int == sum_of(all.take(c as int)),
        decreases values.len() - c,
    {
        proof {
            content_of_prefix(all, c as int);
            content_grows_with_prefix(all, c as int + 1);
        }
        sum = match sum.checked_add(values[c]) {
            Some(more) => more,
            None => {
                return None;
            },
        };
        c += 1;
    }
    assert(all.take(c as int) =~= all);
    Some(sum)
}

/// The length of every line of a table drawn with these widths, where it
/// is small enough to be held.
pub fn line_length(widths: &Vec<usize>) -> (length: Option<usize>)
    ensures
        match length {
            Some(total) => total as int == total_width(ints(widths@)),
            None => total_width(ints(widths@)) > usize::MAX,
        },
{
    let content = checked_sum(widths)?;
    let frame = widths.len().checked_mul(3)?.checked_add(1)?;
    content.checked_add(frame)
}

/// Finds the column that the next narrowing step takes a byte from.
fn find_widest(widths: &Vec<usize>) -> (column: usize)
    requires
        widths@.len() > 0,
    ensures
        column as int == widest_column(ints(widths@)),
        column < widths@.len(),
{
    let ghost all = ints(widths@);
    let mut column: usize = 0;
    let mut c: usize = 1;
    while c < widths.len()
        invariant
            all == ints(widths@),
            1 <= c <= widths.len(),
            column < c,
            column as int == widest_among(all, c as int),
        decreases widths.len() - c,
    {
        if widths[c] > widths[column] {
            column = c;
        }
        c += 1;
    }
    column
}

/// Narrows the widest columns, one byte at a time, until a line drawn with
/// the widths is no longer than `target`. Fails where even the empty frame
/// is longer than that.
pub fn shrink_widths(natural: Vec<usize>, target: usize) -> (r: Result<Vec<usize>, Failure>)
    ensures
        match r {
            Ok(widths) => {
                &&& frame_fits(natural@.len() as int, target as int)
                &&& ints(widths@) == shrunk(ints(natural@), target as int)
            },
            Err(failure) => {
                &&& !frame_fits(natural@.len() as int, target as int)
                &&& failure == (Failure::Layout { columns: natural.len(), width: target })
            },
        },
{
    let columns = natural.len();
    let budget = match frame_budget(columns, target) {
        Some(budget) => budget,
        None => {
            return Err(Failure::Layout { columns, width: target });
        },
    };
    let ghost start = ints(natural@);
    let mut widths = natural;
    let ghost mut steps: nat = 0;
    proof {
        content_is_non_negative(start);
    }
    while !content_within(&widths, budget)
        invariant
            start.len() == columns,
            all_non_negative(start),
            budget as int == target as int - frame_overhead(columns as int),
            steps <= excess(start, target as int),
            steps <= sum_of(start),
            ints(widths@) == narrowed_by(start, steps),
        decreases sum_of(ints(widths@)),
    {
        proof {
            narrowing_takes_one_byte_per_step(start, steps);
            narrowing_step(ints(widths@));
        }
        let widest = find_widest(&widths);
        widths.set(widest, widths[widest] - 1);
        proof {
            steps = steps + 1;
        }
    }
    proof {
        narrowing_takes_one_byte_per_step(start, steps);
    }
    Ok(widths)
}

/// The bytes that a display of `target` bytes leaves for content once the
/// frame of `columns` columns is drawn, if it holds the frame at all.
fn frame_budget(columns: usize, target: usize) -> (budget: Option<usize>)
    ensures
        match budget {
            Some(left) => left as int == target as int - frame_overhead(columns as int),
            None => !frame_fits(columns as int, target as int),
        },
{
    match columns.checked_mul(3) {
        Some(tripled) => match tripled.checked_add(1) {
            Some(overhead) => if overhead <= target {
                Some(target - overhead)
            } else {
                None
            },
            None => None,
        },
        None => None,
    }
}

} // verus!
