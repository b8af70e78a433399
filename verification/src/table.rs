//! The table: rows of text fields, every row with the same number of
//! fields.

use vstd::prelude::*;
use crate::failure::{message_text, Failure, TableError};
use crate::render::{render_rows, slices_of, text_rendering, TextGrid, EMPTY_TABLE};
use crate::shape::{find_ragged, is_uniform, schema_failure};
use crate::terminal::{terminal_columns, terminal_rendering};
use crate::text::{decimal, decimal_text};

verus! {

/// What `{:?}` writes for the rows of a table.
pub uninterp spec fn rows_listing(rows: Seq<Seq<Seq<char>>>) -> Seq<char>;

/// Formats the rows with `{:?}`, the `Debug` form that the standard library
/// gives a vector of vectors of strings. The contract claims only that the
/// text is a function of the rows' contents, and gives that function a name.
#[verifier::external_body]
fn list_rows(rows: &Vec<Vec<String>>) -> (listing: String)
    ensures
        listing@ == rows_listing(rows.deep_view()),
{
    format!("{:?}", rows)
}

/// The summary of a table: the listing of its rows, the number of rows and
/// the number of fields, between brackets.
pub open spec fn summary_text(listing: Seq<char>, records: nat, fields: nat) -> Seq<char> {
    "("@ + listing + ", "@ + decimal(records) + ", "@ + decimal(fields) + ")"@
}

/// Puts the listing of a table's rows and its two counts together.
pub fn summary_from(listing: &str, num_records: usize, num_fields: usize) -> (summary: String)
    ensures
        summary@ == summary_text(listing@, num_records as nat, num_fields as nat),
{
    let mut summary = String::from_str("(");
    summary.append(listing);
    summary.append(", ");
    summary.append(decimal_text(num_records).as_str());
    summary.append(", ");
    summary.append(decimal_text(num_fields).as_str());
    summary.append(")");
    summary
}

/// A result reports an outcome: the same text, or the failure in words.
pub open spec fn reports(r: Result<String, TableError>, outcome: Result<Seq<char>, Failure>) -> bool {
    match r {
        Ok(text) => outcome == Ok::<Seq<char>, Failure>(text@),
        Err(error) => outcome is Err && error.message@ == message_text(outcome->Err_0),
    }
}

/// Rows of text fields. The first row that a table is given fixes how many
/// fields a row has; every later row must have as many.
pub struct Table {
    table: Vec<Vec<String>>,
    num_records: usize,
    num_fields: usize,
    shaped: bool,
}

impl View for Table {
    type V = TextGrid;

    /// The rows of the table.
    closed spec fn view(&self) -> TextGrid {
        self.table.deep_view()
    }
}

/// Copies a record of string slices.
fn owned_from_strs(record: &Vec<&str>) -> (owned: Vec<String>)
    ensures
        owned.deep_view() == record.deep_view(),
        owned@.len() == record@.len(),
{
    let mut owned: Vec<String> = Vec::new();
    let mut c: usize = 0;
    while c < record.len()
        invariant
            c <= record.len(),
            owned@.len() == c,
            forall|j: int| 0 <= j < c ==> (#[trigger] owned@[j])@ == record@[j]@,
        decreases record.len() - c,
    {
        owned.push(String::from_str(record[c]));
        c += 1;
    }
    owned
}

/// Copies a record of strings.
fn owned_from_strings(record: &Vec<String>) -> (owned: Vec<String>)
    ensures
        owned.deep_view() == record.deep_view(),
        owned@.len() == record@.len(),
{
    let mut owned: Vec<String> = Vec::new();
    let mut c: usize = 0;
    while c < record.len()
        invariant
            c <= record.len(),
            owned@.len() == c,
            forall|j: int| 0 <= j < c ==> (#[trigger] owned@[j])@ == record@[j]@,
        decreases record.len() - c,
    {
        owned.push(record[c].clone());
        c += 1;
    }
    owned
}

impl Table {
    /// The number of fields that the rows of the table have, once a row has
    /// fixed it.
    pub closed spec fn field_count(&self) -> Option<nat> {
        if self.shaped {
            Some(self.num_fields as nat)
        } else {
            None
        }
    }

    /// The table is in order: its counters agree with its rows, and every
    /// row has the number of fields that the table has fixed.
    pub closed spec fn wf(&self) -> bool {
        &&& self.num_records == self.table@.len()
        &&& forall|r: int|
            0 <= r < self.table@.len() ==> (#[trigger] self.table@[r])@.len() == self.num_fields
        &&& !self.shaped ==> self.num_records == 0 && self.num_fields == 0
    }

    /// In a table that is in order every row has the table's number of
    /// fields, and a table that has not fixed that number has no rows.
    pub proof fn rows_have_the_field_count(&self)
        requires
            self.wf(),
        ensures
            match self.field_count() {
                Some(fields) => forall|r: int|
                    0 <= r < self@.len() ==> (#[trigger] self@[r]).len() == fields,
                None => self@.len() == 0,
            },
            is_uniform(self@),
    {
    }

    /// A table without rows, which has not fixed its number of fields.
    pub fn new() -> (table: Table)
        ensures
            table.wf(),
            table@ == Seq::<Seq<Seq<char>>>::empty(),
            table.field_count() is None,
    {
        let table = Table { table: Vec::new(), num_records: 0, num_fields: 0, shaped: false };
        table
    }

    /// The number of rows.
    pub fn num_records(&self) -> (n: usize)
        requires
            self.wf(),
        ensures
            n == self@.len(),
    {
        self.num_records
    }

    /// The number of fields of a row, and 0 as long as no row has fixed it.
    pub fn num_fields(&self) -> (n: usize)
        requires
            self.wf(),
        ensures
            n as nat == match self.field_count() {
                Some(fields) => fields,
                None => 0,
            },
    {
        self.num_fields
    }

    /// Appends a row that the table takes over.
    fn push_owned(&mut self, record: Vec<String>) -> (r: Result<(), Failure>)
        requires
            old(self).wf(),
        ensures
            final(self).wf(),
            match old(self).field_count() {
                Some(fields) if fields != record@.len() => {
                    &&& r == Err::<(), Failure>(
                        Failure::Schema { found: record.len(), expected: fields as usize },
                    )
                    &&& *final(self) == *old(self)
                },
                _ => {
                    &&& r is Ok
                    &&& final(self)@ == old(self)@.push(record.deep_view())
                    &&& final(self).field_count() == Some(record@.len())
                },
            },
    {
        if self.shaped && record.len() != self.num_fields {
            return Err(Failure::Schema { found: record.len(), expected: self.num_fields });
        }
        self.num_fields = record.len();
        self.shaped = true;
        self.table.push(record);
        self.num_records = self.table.len();
        Ok(())
    }

    /// Appends a row of string slices. The first row ever appended fixes the
    /// number of fields; a later row with another number is refused, and
    /// the table stays as it was.
    pub fn push_row_str(&mut self, record: &Vec<&str>) -> (r: Result<(), TableError>)
        requires
            old(self).wf(),
        ensures
            final(self).wf(),
            match old(self).field_count() {
                Some(fields) if fields != record@.len() => {
                    &&& r is Err
                    &&& r->Err_0.message@ == message_text(
                        Failure::Schema { found: record.len(), expected: fields as usize },
                    )
                    &&& *final(self) == *old(self)
                },
                _ => {
                    &&& r is Ok
                    &&& final(self)@ == old(self)@.push(record.deep_view())
                    &&& final(self).field_count() == Some(record@.len())
                },
            },
    {
        match self.push_owned(owned_from_strs(record)) {
            Ok(()) => Ok(()),
            Err(failure) => Err(TableError::from_failure(failure)),
        }
    }

    /// Appends a row of strings, as `push_row_str` does.
    pub fn push_row_string(&mut self, record: &Vec<String>) -> (r: Result<(), TableError>)
        requires
            old(self).wf(),
        ensures
            final(self).wf(),
            match old(self).field_count() {
                Some(fields) if fields != record@.len() => {
                    &&& r is Err
                    &&& r->Err_0.message@ == message_text(
                        Failure::Schema { found: record.len(), expected: fields as usize },
                    )
                    &&& *final(self) == *old(self)
                },
                _ => {
                    &&& r is Ok
                    &&& final(self)@ == old(self)@.push(record.deep_view())
                    &&& final(self).field_count() == Some(record@.len())
                },
            },
    {
        match self.push_owned(owned_from_strings(record)) {
            Ok(()) => Ok(()),
            Err(failure) => Err(TableError::from_failure(failure)),
        }
    }

    /// A copy of the fields of row `index`.
    pub fn get_row(&self, index: usize) -> (r: Result<Vec<String>, TableError>)
        requires
            self.wf(),
        ensures
            match r {
                Ok(row) => index < self@.len() && row.deep_view() == self@[index as int],
                Err(error) => index >= self@.len() && error.message@ == message_text(
                    Failure::Range { index, len: self@.len() as usize },
                ),
            },
    {
        if index >= self.num_records {
            return Err(TableError::from_failure(Failure::Range { index, len: self.num_records }));
        }
        Ok(owned_from_strings(&self.table[index]))
    }

    /// Takes row `index` out of the table; the rows after it move up.
    pub fn delete_record(&mut self, index: usize) -> (r: Result<(), TableError>)
        requires
            old(self).wf(),
        ensures
            final(self).wf(),
            match r {
                Ok(_) => {
                    &&& index < old(self)@.len()
                    &&& final(self)@ == old(self)@.remove(index as int)
                    &&& final(self).field_count() == old(self).field_count()
                },
                Err(error) => {
                    &&& index >= old(self)@.len()
                    &&& error.message@ == message_text(
                        Failure::Range { index, len: old(self)@.len() as usize },
                    )
                    &&& *final(self) == *old(self)
                },
            },
    {
        if index >= self.num_records {
            return Err(TableError::from_failure(Failure::Range { index, len: self.num_records }));
        }
        self.table.remove(index);
        self.num_records = self.table.len();
        Ok(())
    }

    /// Puts rows that the table takes over in the place of its own.
    fn replace_owned(&mut self, rows: Vec<Vec<String>>) -> (r: Result<(), Failure>)
        requires
            old(self).wf(),
        ensures
            final(self).wf(),
            is_uniform(rows.deep_view()) ==> {
                &&& r is Ok
                &&& final(self)@ == rows.deep_view()
                &&& final(self).field_count() == if rows@.len() > 0 {
                    Some(rows.deep_view()[0].len())
                } else {
                    None
                }
            },
            !is_uniform(rows.deep_view()) ==> {
                &&& r == Err::<(), Failure>(schema_failure(rows.deep_view()))
                &&& *final(self) == *old(self)
            },
    {
        let ghost grid = rows.deep_view();
        match find_ragged(&rows) {
            Some(r) => {
                Err(Failure::Schema { found: rows[r].len(), expected: rows[0].len() })
            },
            None => {
                proof {
                    assert forall|r: int| 0 <= r < rows@.len() implies (#[trigger] rows@[r])@.len()
                        == rows@[0]@.len() by {
                        assert(grid[r] == rows@[r].deep_view());
                    }
                }
                self.num_records = rows.len();
                if rows.len() > 0 {
                    self.num_fields = rows[0].len();
                    self.shaped = true;
                } else {
                    self.num_fields = 0;
                    self.shaped = false;
                }
                self.table = rows;
                Ok(())
            },
        }
    }

    /// Puts the given rows in the place of the table's own. Rows that are
    /// not all as long as the first of them are refused, and the table
    /// stays as it was; otherwise the first row fixes the number of fields
    /// anew, and no row leaves it open again.
    pub fn set_table_str(&mut self, new_table: &Vec<Vec<&str>>) -> (r: Result<(), TableError>)
        requires
            old(self).wf(),
        ensures
            final(self).wf(),
            is_uniform(new_table.deep_view()) ==> {
                &&& r is Ok
                &&& final(self)@ == new_table.deep_view()
                &&& final(self).field_count() == if new_table@.len() > 0 {
                    Some(new_table.deep_view()[0].len())
                } else {
                    None
                }
            },
            !is_uniform(new_table.deep_view()) ==> {
                &&& r is Err
                &&& r->Err_0.message@ == message_text(schema_failure(new_table.deep_view()))
                &&& *final(self) == *old(self)
            },
    {
        let mut rows: Vec<Vec<String>> = Vec::new();
        let mut i: usize = 0;
        while i < new_table.len()
            invariant
                i <= new_table.len(),
                rows@.len() == i,
                forall|j: int| 0 <= j < i ==> (#[trigger] rows@[j]).deep_view() == new_table@[j].deep_view(),
            decreases new_table.len() - i,
        {
            rows.push(owned_from_strs(&new_table[i]));
            i += 1;
        }
        assert(rows.deep_view() =~= new_table.deep_view());
        match self.replace_owned(rows) {
            Ok(()) => Ok(()),
            Err(failure) => Err(TableError::from_failure(failure)),
        }
    }

    /// Puts the given rows of strings in the place of the table's own, as
    /// `set_table_str` does.
    pub fn set_table_string(&mut self, new_table: &Vec<Vec<String>>) -> (r: Result<(), TableError>)
        requires
            old(self).wf(),
        ensures
            final(self).wf(),
            is_uniform(new_table.deep_view()) ==> {
                &&& r is Ok
                &&& final(self)@ == new_table.deep_view()
                &&& final(self).field_count() == if new_table@.len() > 0 {
                    Some(new_table.deep_view()[0].len())
                } else {
                    None
                }
            },
            !is_uniform(new_table.deep_view()) ==> {
                &&& r is Err
                &&& r->Err_0.message@ == message_text(schema_failure(new_table.deep_view()))
                &&& *final(self) == *old(self)
            },
    {
        let slices = slices_of(new_table);
        assert(slices@.len() == new_table@.len()) by {
            assert(slices.deep_view().len() == new_table.deep_view().len());
        }
        self.set_table_str(&slices)
    }

    /// Renders the table for a display of `width` bytes.
    pub fn render(&self, width: usize) -> (r: Result<String, TableError>)
        requires
            self.wf(),
        ensures
            reports(r, text_rendering(self@, width as int)),
            self@.len() == 0 ==> r is Ok && r->Ok_0@ == EMPTY_TABLE@,
    {
        match render_rows(&self.table, width) {
            Ok(text) => Ok(text),
            Err(failure) => Err(TableError::from_failure(failure)),
        }
    }

    /// Renders the table for a terminal, given what the terminal reported
    /// as its width.
    pub fn render_for_terminal(&self, columns: Option<u16>) -> (r: Result<String, TableError>)
        requires
            self.wf(),
        ensures
            reports(r, terminal_rendering(self@, columns)),
            self@.len() == 0 ==> r is Ok && r->Ok_0@ == EMPTY_TABLE@,
    {
        match columns {
            Some(width) => self.render(width as usize),
            None => {
                if self.table.len() == 0 || self.table[0].len() == 0 {
                    Ok(String::from_str(EMPTY_TABLE))
                } else {
                    Err(TableError::from_failure(Failure::WidthUnavailable))
                }
            },
        }
    }

    /// Renders the table for the terminal that the program runs on. A
    /// table without rows needs no terminal.
    pub fn to_string(&self) -> (r: Result<String, TableError>)
        requires
            self.wf(),
        ensures
            exists|columns: Option<u16>| reports(r, #[trigger] terminal_rendering(self@, columns)),
            self@.len() == 0 ==> r is Ok && r->Ok_0@ == EMPTY_TABLE@,
    {
        let columns = if self.table.len() == 0 || self.table[0].len() == 0 {
            None
        } else {
            terminal_columns()
        };
        self.render_for_terminal(columns)
    }

    /// The table in one line: the listing of its rows, the number of rows
    /// and the number of fields.
    pub fn summary(&self) -> (summary: String)
        requires
            self.wf(),
        ensures
            summary@ == summary_text(
                rows_listing(self@),
                self@.len(),
                match self.field_count() {
                    Some(fields) => fields,
                    None => 0,
                },
            ),
    {
        let listing = list_rows(&self.table);
        summary_from(listing.as_str(), self.num_records, self.num_fields)
    }
}

} // verus!
