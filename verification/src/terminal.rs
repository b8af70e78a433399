//! The terminal: how wide it is, and what a table looks like on it.

use vstd::prelude::*;
use crate::failure::Failure;
use crate::render::{bytes_of, is_blank, render_grid, text_outcome, text_rendering, TextGrid, EMPTY_TABLE};

verus! {

/// Calls `terminal_size::terminal_size`, which asks the standard streams
/// for the size of the terminal behind them, and hands back the width it
/// reports, in columns. The answer depends on where the program runs, and
/// nothing is claimed of it.
#[verifier::external_body]
pub(crate) fn terminal_columns() -> (columns: Option<u16>) {
    match terminal_size::terminal_size() {
        Some((terminal_size::Width(columns), _)) => Some(columns),
        None => None,
    }
}

/// What rendering a table of text comes to on a terminal that reports
/// `columns` as its width.
///
/// A blank table gives the notice, whatever the terminal reports. Any other
/// table needs the width: with one, it is rendered for a display that wide.
pub open spec fn terminal_rendering(table: TextGrid, columns: Option<u16>) -> Result<Seq<char>, Failure> {
    if is_blank(bytes_of(table)) {
        Ok(EMPTY_TABLE@)
    } else {
        match columns {
            Some(width) => text_rendering(table, width as int),
            None => Err(Failure::WidthUnavailable),
        }
    }
}

/// Renders a table for a terminal, given what the terminal reported as its
/// width.
pub fn render_for_terminal(table: &Vec<Vec<&str>>, columns: Option<u16>) -> (r: Result<String, Failure>)
    ensures
        text_outcome(r) == terminal_rendering(table.deep_view(), columns),
        table@.len() == 0 ==> text_outcome(r) == Ok::<Seq<char>, Failure>(EMPTY_TABLE@),
{
    match columns {
        Some(width) => render_grid(table, width as usize),
        None => {
            if table.len() == 0 || table[0].len() == 0 {
                Ok(String::from_str(EMPTY_TABLE))
            } else {
                Err(Failure::WidthUnavailable)
            }
        },
    }
}

} // verus!
