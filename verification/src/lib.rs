//! Bordered, fixed-width text tables for a terminal.
//!
//! A table is a grid of text cells. Rendering measures every column, narrows
//! the widest columns until the frame fits the display, wraps the cells that
//! no longer fit their column, and draws the grid between `+`, `-` and `|`.
//!
//! Widths are counted in bytes, and cells are wrapped at byte positions: a
//! character of several bytes takes that many columns, and a table whose
//! wrapping would cut such a character in two is refused.

use vstd::prelude::*;

pub mod draw;
pub mod failure;
pub mod render;
pub mod shape;
pub mod table;
pub mod terminal;
pub mod text;
pub mod widths;
pub mod wrap;

pub use crate::failure::{Failure, TableError};
pub use crate::table::Table;

use crate::render::{text_outcome, EMPTY_TABLE};
use crate::terminal::{render_for_terminal, terminal_columns, terminal_rendering};

verus! {

/// Renders a table for the terminal that the program runs on.
///
/// The drawing is the one that `terminal_rendering` describes for the width
/// that the terminal reports; which width that is, only the terminal knows.
/// A blank table needs no terminal.
pub fn table_from(table_arr: &Vec<Vec<&str>>) -> (r: Result<String, Failure>)
    ensures
        exists|columns: Option<u16>|
            text_outcome(r) == #[trigger] terminal_rendering(table_arr.deep_view(), columns),
        table_arr@.len() == 0 ==> text_outcome(r) == Ok::<Seq<char>, Failure>(EMPTY_TABLE@),
{
    let columns = if table_arr.len() == 0 || table_arr[0].len() == 0 {
        None
    } else {
        terminal_columns()
    };
    render_for_terminal(table_arr, columns)
}

} // verus!
