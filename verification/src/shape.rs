//! The shape of a table: whether its rows are all of one length, and which
//! row is the first that is not.

use vstd::prelude::*;
use crate::failure::Failure;

verus! {

/// Every row has as many cells as the first.
pub open spec fn is_uniform<T>(rows: Seq<Seq<T>>) -> bool {
    forall|r: int| 0 <= r < rows.len() ==> (#[trigger] rows[r]).len() == rows[0].len()
}

/// Row `r` has another number of cells than the first row.
pub open spec fn is_ragged_row<T>(rows: Seq<Seq<T>>, r: int) -> bool {
    0 <= r < rows.len() && rows[r].len() != rows[0].len()
}

/// Row `r` is the first that has another number of cells than the first row.
pub open spec fn is_first_ragged<T>(rows: Seq<Seq<T>>, r: int) -> bool {
    &&& is_ragged_row(rows, r)
    &&& forall|r2: int| 0 <= r2 < r ==> !#[trigger] is_ragged_row(rows, r2)
}

/// The first row that has another number of cells than the first row.
pub open spec fn first_ragged<T>(rows: Seq<Seq<T>>) -> int {
    choose|r: int| is_first_ragged(rows, r)
}

/// The failure that rows of different lengths are refused with: it names
/// the length of the first row, and the length of the first row that
/// differs from it.
pub open spec fn schema_failure<T>(rows: Seq<Seq<T>>) -> Failure {
    Failure::Schema { found: rows[first_ragged(rows)].len() as usize, expected: rows[0].len() as usize }
}

/// There is at most one first ragged row: where there is one, `first_ragged`
/// is that row, and the rows are not uniform.
pub proof fn first_ragged_is_unique<T>(rows: Seq<Seq<T>>, r: int)
    requires
        is_first_ragged(rows, r),
    ensures
        first_ragged(rows) == r,
        !is_uniform(rows),
{
    let other = first_ragged(rows);
    assert(is_first_ragged(rows, other));
    if other < r {
        assert(!is_ragged_row(rows, other));
    }
    if r < other {
        assert(!is_ragged_row(rows, r));
    }
}

/// Looks for the first row that has another number of cells than the first.
pub fn find_ragged<T: DeepView>(rows: &Vec<Vec<T>>) -> (found: Option<usize>)
    ensures
        match found {
            Some(r) => is_first_ragged(rows.deep_view(), r as int),
            None => is_uniform(rows.deep_view()),
        },
{
    if rows.len() == 0 {
        return None;
    }
    let ghost grid = rows.deep_view();
    let columns = rows[0].len();
    let mut r: usize = 1;
    while r < rows.len()
        invariant
            grid == rows.deep_view(),
            columns == grid[0].len(),
            1 <= r <= rows.len(),
            forall|i: int| 0 <= i < r ==> (#[trigger] grid[i]).len() == columns,
        decreases rows.len() - r,
    {
        if rows[r].len() != columns {
            return Some(r);
        }
        r += 1;
    }
    None
}

} // verus!
