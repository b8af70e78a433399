//! Rendering: from the cells of a table and the width of the display to the
//! drawing, or to the reason why there is none.

use vstd::prelude::*;
use vstd::utf8::{
    decode_utf8, encode_utf8, encode_utf8_decode_utf8, encode_utf8_valid_utf8, is_ascii_chars,
    is_ascii_chars_encode_utf8, partial_valid_utf8_extend_ascii_block, valid_utf8,
};
use crate::draw::{
    all_bytes, cells_have_no_newline, draw, drawing, drawing_has_a_newline_between_lines,
    drawing_holds_frame_and_cells, every_line_has_the_total_width, joined, newlines, newlines_of_concat,
    newlines_of_none, newlines_of_one, not_newline, push_rule, rule, rule_among, rule_holds_the_frame,
    smaller, table_has_three_lines_more_than_rows, table_lines, terminated_of_concat, terminated_of_one,
    BORDER, NEWLINE, PADDING,
};
use crate::failure::Failure;
use crate::shape::{find_ragged, is_uniform, schema_failure};
use crate::text::string_from_utf8;
use crate::widths::{
    column_count, frame_fits, ints, is_grid, natural_widths, natural_widths_of, shrink_widths, shrunk,
    shrunk_widths_fit, sum_of, total_width, Grid,
};
use crate::wrap::{has_overflow, overflow_failure, plan_rows, row_heights};

verus! {

/// A table is blank where it has no row, or no cell in its first row.
pub open spec fn is_blank(cells: Grid) -> bool {
    cells.len() == 0 || cells[0].len() == 0
}

/// The words that stand in for a blank table, as bytes.
pub open spec fn notice_words() -> Seq<u8> {
    encode_utf8("Table is empty"@)
}

/// The lines that are drawn for a blank table: the words between two
/// borders, a rule above them and a rule below.
pub open spec fn notice_lines() -> Seq<Seq<u8>> {
    seq![
        rule(seq![notice_words().len() as int]),
        seq![BORDER, PADDING] + notice_words() + seq![PADDING, BORDER],
        rule(seq![notice_words().len() as int]),
    ]
}

/// What is drawn for a blank table: the words in a frame of their own.
pub open spec fn empty_notice() -> Seq<u8> {
    joined(notice_lines())
}

/// What a result holds, with the drawing as a sequence of bytes.
pub open spec fn bytes_outcome(r: Result<Vec<u8>, Failure>) -> Result<Seq<u8>, Failure> {
    match r {
        Ok(out) => Ok(out@),
        Err(failure) => Err(failure),
    }
}

/// What a result holds, with the drawing as a sequence of characters.
pub open spec fn text_outcome(r: Result<String, Failure>) -> Result<Seq<char>, Failure> {
    match r {
        Ok(text) => Ok(text@),
        Err(failure) => Err(failure),
    }
}

/// What rendering a table on a display of `target` bytes comes to.
///
/// A blank table gives the notice. Otherwise every row must be as long as
/// the first, the display must hold the empty frame, and no cell with
/// content may be left in a column without width; the table is then drawn
/// with its natural widths, shrunk to the display.
pub open spec fn rendering(cells: Grid, target: int) -> Result<Seq<u8>, Failure> {
    if is_blank(cells) {
        Ok(empty_notice())
    } else if !is_grid(cells) {
        Err(schema_failure(cells))
    } else if !frame_fits(column_count(cells) as int, target) {
        Err(Failure::Layout { columns: column_count(cells) as usize, width: target as usize })
    } else if has_overflow(cells, shrunk(natural_widths(cells), target)) {
        Err(overflow_failure(cells, shrunk(natural_widths(cells), target)))
    } else {
        Ok(drawing(cells, shrunk(natural_widths(cells), target)))
    }
}

/// A rendered table is three lines longer than its rows are high together.
///
/// This holds of every table whose rows are of one length and whose cells
/// hold no newline, where it is rendered at all; a table without rows is
/// the notice, on three lines. It does not hold of rows without cells,
/// which also give the notice.
pub proof fn rendered_lines_are_three_more_than_rows(cells: Grid, target: int)
    requires
        is_uniform(cells),
        cells.len() > 0 ==> cells[0].len() > 0,
        cells_have_no_newline(cells),
        rendering(cells, target) is Ok,
    ensures
        newlines(rendering(cells, target)->Ok_0) + 1 == 3 + sum_of(
            row_heights(cells, shrunk(natural_widths(cells), target)),
        ),
{
    if cells.len() == 0 {
        notice_is_three_lines();
    } else {
        let widths = shrunk(natural_widths(cells), target);
        shrunk_widths_fit(natural_widths(cells), target);
        drawing_has_a_newline_between_lines(cells, widths);
        table_has_three_lines_more_than_rows(cells, widths);
    }
}

/// Every line of a rendered table fits the display: all lines are of one
/// length, which is the natural length of the table's lines or the width
/// of the display, whichever is less.
pub proof fn rendered_lines_fit_the_display(cells: Grid, target: int, i: int)
    requires
        !is_blank(cells),
        rendering(cells, target) is Ok,
        0 <= i < table_lines(cells, shrunk(natural_widths(cells), target)).len(),
    ensures
        rendering(cells, target)->Ok_0 == joined(table_lines(cells, shrunk(natural_widths(cells), target))),
        table_lines(cells, shrunk(natural_widths(cells), target))[i].len() == smaller(
            total_width(natural_widths(cells)),
            target,
        ),
{
    shrunk_widths_fit(natural_widths(cells), target);
    every_line_has_the_total_width(cells, shrunk(natural_widths(cells), target), i);
}

/// Rendering has no memory: whatever meets the contract of `render_cells`
/// for the same cells and the same width is the same, byte for byte.
pub proof fn rendering_is_repeatable(
    cells: Grid,
    target: int,
    first: Result<Vec<u8>, Failure>,
    second: Result<Vec<u8>, Failure>,
)
    requires
        bytes_outcome(first) == rendering(cells, target),
        bytes_outcome(second) == rendering(cells, target),
    ensures
        bytes_outcome(first) == bytes_outcome(second),
        first is Ok ==> second is Ok && first->Ok_0@ == second->Ok_0@,
        first is Err ==> first == second,
{
}

/// Rendering text has no memory either: whatever meets the contract of
/// `render_grid` for the same table and the same width is the same,
/// character for character.
pub proof fn text_rendering_is_repeatable(
    table: TextGrid,
    target: int,
    first: Result<String, Failure>,
    second: Result<String, Failure>,
)
    requires
        text_outcome(first) == text_rendering(table, target),
        text_outcome(second) == text_rendering(table, target),
    ensures
        text_outcome(first) == text_outcome(second),
        first is Ok ==> second is Ok && first->Ok_0@ == second->Ok_0@,
        first is Err ==> first == second,
{
}

/// The notice is its three lines, a newline after the first and after
/// the second, and its words are ASCII text.
proof fn notice_is_three_lines()
    ensures
        empty_notice() == notice_lines()[0] + seq![NEWLINE] + notice_lines()[1] + seq![NEWLINE]
            + notice_lines()[2],
        all_bytes(notice_words(), ascii_byte()),
        all_bytes(notice_words(), not_newline()),
        notice_words().len() == 14,
        newlines(empty_notice()) == 2,
{
    reveal_strlit("Table is empty");
    let words = "Table is empty"@;
    assert(is_ascii_chars(words));
    is_ascii_chars_encode_utf8(words);
    assert forall|i: int| 0 <= i < notice_words().len() implies ascii_byte()(#[trigger] notice_words()[i])
        && not_newline()(notice_words()[i]) by {
        assert(notice_words()[i] == words[i] as u8);
    }
    let top = notice_lines()[0];
    let middle = notice_lines()[1];
    assert(notice_lines().drop_last() =~= seq![top] + seq![middle]);
    terminated_of_concat(seq![top], seq![middle]);
    terminated_of_one(top);
    terminated_of_one(middle);
    rule_holds_the_frame(seq![notice_words().len() as int], 1, not_newline());
    newlines_of_none(top);
    newlines_of_none(middle);
    newlines_of_one();
    newlines_of_concat(top, seq![NEWLINE]);
    newlines_of_concat(top + seq![NEWLINE], middle);
    newlines_of_concat(top + seq![NEWLINE] + middle, seq![NEWLINE]);
    newlines_of_concat(top + seq![NEWLINE] + middle + seq![NEWLINE], top);
}

/// Draws the notice that stands in for a blank table.
fn draw_notice() -> (out: Vec<u8>)
    ensures
        out@ == empty_notice(),
{
    let words = "Table is empty".as_bytes_vec();
    let mut widths: Vec<usize> = Vec::new();
    widths.push(words.len());
    assert(ints(widths@) =~= seq![notice_words().len() as int]);
    let mut out: Vec<u8> = Vec::new();
    push_rule(&mut out, &widths);
    out.push(NEWLINE);
    out.push(BORDER);
    out.push(PADDING);
    let ghost before = out@;
    let mut i: usize = 0;
    while i < words.len()
        invariant
            i <= words.len(),
            out@ == before + words@.take(i as int),
        decreases words.len() - i,
    {
        out.push(words[i]);
        i += 1;
    }
    out.push(PADDING);
    out.push(BORDER);
    out.push(NEWLINE);
    push_rule(&mut out, &widths);
    proof {
        notice_is_three_lines();
        assert(out@ =~= notice_lines()[0] + seq![NEWLINE] + notice_lines()[1] + seq![NEWLINE]
            + notice_lines()[2]);
    }
    out
}

/// Renders a table of byte cells for a display of `target` bytes.
pub fn render_cells(cells: &Vec<Vec<Vec<u8>>>, target: usize) -> (r: Result<Vec<u8>, Failure>)
    ensures
        bytes_outcome(r) == rendering(cells.deep_view(), target as int),
{
    let ghost grid = cells.deep_view();
    if cells.len() == 0 {
        return Ok(draw_notice());
    }
    if cells[0].len() == 0 {
        return Ok(draw_notice());
    }
    if let Some(r) = find_ragged(cells) {
        return Err(Failure::Schema { found: cells[r].len(), expected: cells[0].len() });
    }
    let natural = natural_widths_of(cells);
    let widths = match shrink_widths(natural, target) {
        Ok(widths) => widths,
        Err(failure) => {
            return Err(failure);
        },
    };
    proof {
        shrunk_widths_fit(natural_widths(grid), target as int);
    }
    let plan = match plan_rows(cells, &widths) {
        Ok(plan) => plan,
        Err(failure) => {
            return Err(failure);
        },
    };
    Ok(draw(cells, &widths, &plan))
}

/// What is shown for a blank table.
pub const EMPTY_TABLE: &'static str = "+----------------+\n| Table is empty |\n+----------------+";

/// The cells of a table of text as mathematical sequences: rows of cells of
/// characters.
pub type TextGrid = Seq<Seq<Seq<char>>>;

/// The bytes of every cell of a table of text, in UTF-8.
pub open spec fn bytes_of(table: TextGrid) -> Grid {
    Seq::new(table.len(), |r: int| Seq::new(table[r].len(), |c: int| encode_utf8(table[r][c])))
}

/// An outcome in bytes, read as text: the drawing is the text that its
/// bytes spell in UTF-8, and a failure where they spell none.
pub open spec fn as_text(outcome: Result<Seq<u8>, Failure>) -> Result<Seq<char>, Failure> {
    match outcome {
        Ok(bytes) => if valid_utf8(bytes) {
            Ok(decode_utf8(bytes))
        } else {
            Err(Failure::Encoding)
        },
        Err(failure) => Err(failure),
    }
}

/// What rendering a table of text on a display of `target` bytes comes to.
///
/// A blank table gives the notice. Any other table is rendered by the bytes
/// of its cells, and the drawing is read as text.
pub open spec fn text_rendering(table: TextGrid, target: int) -> Result<Seq<char>, Failure> {
    if is_blank(bytes_of(table)) {
        Ok(EMPTY_TABLE@)
    } else {
        as_text(rendering(bytes_of(table), target))
    }
}

/// Copies the bytes of every cell of a table of text.
fn cells_of(table: &Vec<Vec<&str>>) -> (cells: Vec<Vec<Vec<u8>>>)
    ensures
        cells.deep_view() == bytes_of(table.deep_view()),
{
    let ghost text = table.deep_view();
    let mut cells: Vec<Vec<Vec<u8>>> = Vec::new();
    let mut r: usize = 0;
    while r < table.len()
        invariant
            text == table.deep_view(),
            r <= table.len(),
            cells@.len() == r,
            forall|i: int| 0 <= i < r ==> (#[trigger] cells@[i]).deep_view() == bytes_of(text)[i],
        decreases table.len() - r,
    {
        let mut row: Vec<Vec<u8>> = Vec::new();
        let mut c: usize = 0;
        while c < table[r].len()
            invariant
                text == table.deep_view(),
                r < table.len(),
                text[r as int] == table@[r as int].deep_view(),
                c <= table@[r as int]@.len(),
                row@.len() == c,
                forall|j: int| 0 <= j < c ==> (#[trigger] row@[j])@ == encode_utf8(text[r as int][j]),
            decreases table@[r as int]@.len() - c,
        {
            row.push(table[r][c].as_bytes_vec());
            c += 1;
        }
        proof {
            assert forall|j: int| 0 <= j < row@.len() implies row.deep_view()[j] == bytes_of(
                text,
            )[r as int][j] by {
                assert(row.deep_view()[j] =~= row@[j]@);
            }
        }
        cells.push(row);
        r += 1;
    }
    cells
}

/// Lends the strings of a table as string slices.
pub fn slices_of<'a>(table: &'a Vec<Vec<String>>) -> (slices: Vec<Vec<&'a str>>)
    ensures
        slices.deep_view() == table.deep_view(),
{
    let mut slices: Vec<Vec<&'a str>> = Vec::new();
    let mut r: usize = 0;
    while r < table.len()
        invariant
            r <= table.len(),
            slices@.len() == r,
            forall|i: int| 0 <= i < r ==> (#[trigger] slices@[i]).deep_view() == table@[i].deep_view(),
        decreases table.len() - r,
    {
        let mut row: Vec<&'a str> = Vec::new();
        let mut c: usize = 0;
        while c < table[r].len()
            invariant
                r < table.len(),
                c <= table@[r as int]@.len(),
                row@.len() == c,
                forall|j: int| 0 <= j < c ==> (#[trigger] row@[j])@ == table@[r as int]@[j]@,
            decreases table@[r as int]@.len() - c,
        {
            row.push(table[r][c].as_str());
            c += 1;
        }
        slices.push(row);
        r += 1;
    }
    slices
}

/// Reads a rendering in bytes as text.
pub fn read_as_text(outcome: Result<Vec<u8>, Failure>) -> (r: Result<String, Failure>)
    ensures
        text_outcome(r) == as_text(bytes_outcome(outcome)),
{
    match outcome {
        Ok(bytes) => match string_from_utf8(bytes) {
            Ok(text) => Ok(text),
            Err(_) => Err(Failure::Encoding),
        },
        Err(failure) => Err(failure),
    }
}

/// Renders a table of string slices for a display of `target` bytes.
pub fn render_grid(table: &Vec<Vec<&str>>, target: usize) -> (r: Result<String, Failure>)
    ensures
        text_outcome(r) == text_rendering(table.deep_view(), target as int),
        table@.len() == 0 ==> text_outcome(r) == Ok::<Seq<char>, Failure>(EMPTY_TABLE@),
{
    if table.len() == 0 || table[0].len() == 0 {
        return Ok(String::from_str(EMPTY_TABLE));
    }
    let cells = cells_of(table);
    read_as_text(render_cells(&cells, target))
}

/// Renders a table of strings for a display of `target` bytes.
pub fn render_rows(table: &Vec<Vec<String>>, target: usize) -> (r: Result<String, Failure>)
    ensures
        text_outcome(r) == text_rendering(table.deep_view(), target as int),
        table@.len() == 0 ==> text_outcome(r) == Ok::<Seq<char>, Failure>(EMPTY_TABLE@),
{
    let slices = slices_of(table);
    render_grid(&slices, target)
}

/// The bytes of ASCII text: those below 128.
pub open spec fn ascii_byte() -> spec_fn(u8) -> bool {
    |byte: u8| byte < 128
}

/// Every cell of the table is ASCII text.
pub open spec fn is_ascii_table(table: TextGrid) -> bool {
    forall|r: int, c: int|
        0 <= r < table.len() && 0 <= c < table[r].len() ==> is_ascii_chars(#[trigger] table[r][c])
}

/// A table of ASCII text is never refused for its encoding: it is rendered
/// as text wherever its bytes are rendered at all.
pub proof fn ascii_table_renders_as_text(table: TextGrid, target: int)
    requires
        is_ascii_table(table),
    ensures
        text_rendering(table, target) is Ok <==> rendering(bytes_of(table), target) is Ok,
        text_rendering(table, target) is Err ==> text_rendering(table, target)->Err_0 == rendering(
            bytes_of(table),
            target,
        )->Err_0,
{
    let cells = bytes_of(table);
    if !is_blank(cells) && rendering(cells, target) is Ok {
        let widths = shrunk(natural_widths(cells), target);
        shrunk_widths_fit(natural_widths(cells), target);
        assert forall|r: int, c: int| 0 <= r < cells.len() && 0 <= c < cells[r].len() implies all_bytes(
            #[trigger] cells[r][c],
            ascii_byte(),
        ) by {
            let chars = table[r][c];
            is_ascii_chars_encode_utf8(chars);
        }
        drawing_holds_frame_and_cells(cells, widths, ascii_byte());
        ascii_bytes_are_text(drawing(cells, widths));
    }
}

/// Bytes below 128 are UTF-8 text.
pub proof fn ascii_bytes_are_text(bytes: Seq<u8>)
    requires
        all_bytes(bytes, ascii_byte()),
    ensures
        valid_utf8(bytes),
{
    partial_valid_utf8_extend_ascii_block(bytes, 0, bytes.len() as int);
    assert(bytes.subrange(0, bytes.len() as int) =~= bytes);
}

/// The notice, read as text, is `EMPTY_TABLE`: a blank table is shown the
/// same whether it is rendered as bytes or as text.
pub proof fn notice_reads_as_empty_table()
    ensures
        as_text(Ok(empty_notice())) == Ok::<Seq<char>, Failure>(EMPTY_TABLE@),
{
    reveal_strlit("+----------------+\n| Table is empty |\n+----------------+");
    reveal_strlit("Table is empty");
    let text = EMPTY_TABLE@;
    is_ascii_chars_encode_utf8(text);
    is_ascii_chars_encode_utf8("Table is empty"@);
    notice_is_three_lines();
    reveal_with_fuel(rule_among, 2);
    assert(encode_utf8(text) =~= empty_notice());
    encode_utf8_valid_utf8(text);
    encode_utf8_decode_utf8(text);
}

} // verus!
