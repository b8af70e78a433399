//! The ways in which a table operation can fail.

use vstd::prelude::*;
use crate::text::{decimal, decimal_text};

verus! {

/// Why an operation on a table was refused.
#[derive(Clone, Copy, Debug, PartialEq, Eq, Structural)]
pub enum Failure {
    /// A row has `found` fields where the table has `expected`.
    Schema { found: usize, expected: usize },
    /// Row `index` was asked of a table that holds `len` rows.
    Range { index: usize, len: usize },
    /// A display of `width` bytes cannot hold even the empty frame of
    /// `columns` columns.
    Layout { columns: usize, width: usize },
    /// The cell at `row` and `column` has content, and its column was left
    /// no width to show it in.
    WrapOverflow { row: usize, column: usize },
    /// The width of the display could not be found out.
    WidthUnavailable,
    /// The drawing is not UTF-8 text: a cell was wrapped in the middle of a
    /// multi-byte character.
    Encoding,
}

/// The words that a failure is reported in.
pub open spec fn message_text(failure: Failure) -> Seq<char> {
    match failure {
        Failure::Schema { found, expected } => "Invalid number of fields in record. Found "@ + decimal(
            found as nat,
        ) + ", but expected "@ + decimal(expected as nat) + "."@,
        Failure::Range { index, len } => "Invalid record index. Found "@ + decimal(index as nat)
            + ", but expected less than "@ + decimal(len as nat) + "."@,
        Failure::Layout { columns, width } => "Invalid display width. Found "@ + decimal(width as nat)
            + ", but expected room for "@ + decimal(columns as nat) + " columns."@,
        Failure::WrapOverflow { row, column } => "Invalid column width. Found no room for record "@
            + decimal(row as nat) + ", field "@ + decimal(column as nat) + "."@,
        Failure::WidthUnavailable => "Failed to retrieve terminal size."@,
        Failure::Encoding => "Invalid line break. Found a multi-byte character across two lines."@,
    }
}

/// Puts a number between the three parts of a sentence with two numbers.
fn sentence(head: &str, first: usize, middle: &str, second: usize, tail: &str) -> (s: String)
    ensures
        s@ == head@ + decimal(first as nat) + middle@ + decimal(second as nat) + tail@,
{
    let mut s = String::from_str(head);
    s.append(decimal_text(first).as_str());
    s.append(middle);
    s.append(decimal_text(second).as_str());
    s.append(tail);
    s
}

impl Failure {
    /// The failure in words.
    pub fn message(&self) -> (s: String)
        ensures
            s@ == message_text(*self),
    {
        match *self {
            Failure::Schema { found, expected } => sentence(
                "Invalid number of fields in record. Found ",
                found,
                ", but expected ",
                expected,
                ".",
            ),
            Failure::Range { index, len } => sentence(
                "Invalid record index. Found ",
                index,
                ", but expected less than ",
                len,
                ".",
            ),
            Failure::Layout { columns, width } => sentence(
                "Invalid display width. Found ",
                width,
                ", but expected room for ",
                columns,
                " columns.",
            ),
            Failure::WrapOverflow { row, column } => sentence(
                "Invalid column width. Found no room for record ",
                row,
                ", field ",
                column,
                ".",
            ),
            Failure::WidthUnavailable => String::from_str("Failed to retrieve terminal size."),
            Failure::Encoding => String::from_str(
                "Invalid line break. Found a multi-byte character across two lines.",
            ),
        }
    }
}

/// The error of the operations on a `Table`: a failure, in words.
#[derive(Clone, Debug, PartialEq, Eq)]
pub struct TableError {
    pub message: String,
}

impl TableError {
    /// The error that reports a failure.
    pub fn from_failure(failure: Failure) -> (error: TableError)
        ensures
            error.message@ == message_text(failure),
    {
        TableError { message: failure.message() }
    }
}

} // verus!
