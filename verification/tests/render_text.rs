use cli_tables::render::{
    read_as_text, render_cells, render_grid, render_rows, slices_of, EMPTY_TABLE,
};
use cli_tables::terminal::render_for_terminal;
use cli_tables::text::decimal_text;
use cli_tables::{table_from, Failure};

#[test]
fn empty_grid_gives_the_notice_verbatim() {
    let expected = "+----------------+\n| Table is empty |\n+----------------+";
    assert_eq!(EMPTY_TABLE, expected);
    assert_eq!(render_grid(&Vec::new(), 80), Ok(expected.to_string()));
    assert_eq!(render_grid(&vec![Vec::new()], 0), Ok(expected.to_string()));
    assert_eq!(render_rows(&Vec::new(), 3), Ok(expected.to_string()));
    assert_eq!(render_for_terminal(&Vec::new(), None), Ok(expected.to_string()));
    assert_eq!(render_for_terminal(&Vec::new(), Some(1)), Ok(expected.to_string()));
    assert_eq!(table_from(&Vec::new()), Ok(expected.to_string()));
    assert_eq!(table_from(&vec![Vec::new()]), Ok(expected.to_string()));
    assert_eq!(render_cells(&Vec::new(), 80), Ok(expected.as_bytes().to_vec()));
}

#[test]
fn names_grid_at_width_40() {
    let grid = vec![vec!["Id", "Name"], vec!["1", "Ada"], vec!["2", "Grace Hopper"]];
    let out = render_grid(&grid, 40).unwrap();
    let lines: Vec<&str> = out.lines().collect();
    assert_eq!(
        lines,
        vec![
            "+----+--------------+",
            "| Id | Name         |",
            "+----+--------------+",
            "| 1  | Ada          |",
            "| 2  | Grace Hopper |",
            "+----+--------------+",
        ]
    );
    assert!(!out.ends_with('\n'));
}

#[test]
fn single_cell_splits_in_two_lines_at_column_width_4() {
    let out = render_grid(&vec![vec!["abcdefgh"]], 8).unwrap();
    let lines: Vec<&str> = out.lines().collect();
    assert_eq!(lines, vec!["+------+", "| abcd |", "| efgh |", "+------+", "+------+"]);
    let out = render_grid(&vec![vec!["abcdefg"]], 8).unwrap();
    let lines: Vec<&str> = out.lines().collect();
    assert_eq!(lines, vec!["+------+", "| abcd |", "| efg  |", "+------+", "+------+"]);
}

#[test]
fn strings_and_slices_render_alike() {
    let slices = vec![vec!["Id", "Name"], vec!["1", "Ada"], vec!["2", "Grace Hopper"]];
    let strings: Vec<Vec<String>> =
        slices.iter().map(|row| row.iter().map(|cell| cell.to_string()).collect()).collect();
    for width in [0, 7, 8, 12, 21, 200] {
        assert_eq!(render_grid(&slices, width), render_rows(&strings, width));
        assert_eq!(render_grid(&slices, width), render_grid(&slices, width));
    }
}

#[test]
fn widths_are_counted_in_bytes() {
    let out = render_grid(&vec![vec!["é", "ab"]], 80).unwrap();
    assert_eq!(out, "+----+----+\n| é | ab |\n+----+----+\n+----+----+");
}

#[test]
fn wrapping_inside_a_character_is_refused() {
    assert_eq!(render_grid(&vec![vec!["é"]], 5), Err(Failure::Encoding));
    assert_eq!(render_grid(&vec![vec!["aé"]], 6), Err(Failure::Encoding));
    assert_eq!(render_grid(&vec![vec!["éa"]], 6), Ok("+----+\n| é |\n| a  |\n+----+\n+----+".to_string()));
}

#[test]
fn every_failure_of_a_grid() {
    assert_eq!(
        render_grid(&vec![vec!["a", "b"], vec!["c"]], 80),
        Err(Failure::Schema { found: 1, expected: 2 })
    );
    assert_eq!(render_grid(&vec![vec!["a", "b"]], 6), Err(Failure::Layout { columns: 2, width: 6 }));
    assert_eq!(render_grid(&vec![vec!["a", "b"]], 7), Err(Failure::WrapOverflow { row: 0, column: 0 }));
    assert_eq!(render_for_terminal(&vec![vec!["a", "b"]], None), Err(Failure::WidthUnavailable));
    assert_eq!(render_grid(&vec![vec!["é"]], 5), Err(Failure::Encoding));
}

#[test]
fn terminal_width_is_the_display_width() {
    let grid = vec![vec!["Id", "Name"], vec!["1", "Ada"], vec!["2", "Grace Hopper"]];
    for width in [0u16, 7, 8, 15, 21, 40] {
        assert_eq!(render_for_terminal(&grid, Some(width)), render_grid(&grid, width as usize));
    }
}

#[test]
fn table_from_asks_the_terminal() {
    let grid = vec![vec!["Id", "Name"], vec!["1", "Ada"], vec!["2", "Grace Hopper"]];
    let columns = terminal_size::terminal_size().map(|(width, _)| width.0);
    assert_eq!(table_from(&grid), render_for_terminal(&grid, columns));
}

#[test]
fn failures_in_words() {
    assert_eq!(
        Failure::Schema { found: 2, expected: 3 }.message(),
        "Invalid number of fields in record. Found 2, but expected 3."
    );
    assert_eq!(
        Failure::Range { index: 10, len: 0 }.message(),
        "Invalid record index. Found 10, but expected less than 0."
    );
    assert_eq!(
        Failure::Layout { columns: 12, width: 36 }.message(),
        "Invalid display width. Found 36, but expected room for 12 columns."
    );
    assert_eq!(
        Failure::WrapOverflow { row: 105, column: 7 }.message(),
        "Invalid column width. Found no room for record 105, field 7."
    );
    assert_eq!(Failure::WidthUnavailable.message(), "Failed to retrieve terminal size.");
    assert_eq!(
        Failure::Encoding.message(),
        "Invalid line break. Found a multi-byte character across two lines."
    );
}

#[test]
fn numbers_in_decimal() {
    for n in [0usize, 1, 9, 10, 11, 99, 100, 101, 1234567890, usize::MAX] {
        assert_eq!(decimal_text(n), n.to_string());
    }
}

#[test]
fn bytes_read_as_text() {
    assert_eq!(read_as_text(Ok(b"abc".to_vec())), Ok("abc".to_string()));
    assert_eq!(read_as_text(Ok("é".as_bytes().to_vec())), Ok("é".to_string()));
    assert_eq!(read_as_text(Ok(vec![0xc3])), Err(Failure::Encoding));
    assert_eq!(read_as_text(Ok(vec![0xa9, 0xc3])), Err(Failure::Encoding));
    assert_eq!(read_as_text(Ok(Vec::new())), Ok(String::new()));
    assert_eq!(
        read_as_text(Err(Failure::Layout { columns: 1, width: 2 })),
        Err(Failure::Layout { columns: 1, width: 2 })
    );
    let strings = vec![vec!["a".to_string(), "bc".to_string()], vec![String::new()]];
    assert_eq!(slices_of(&strings), vec![vec!["a", "bc"], vec![""]]);
}

#[test]
fn ascii_grids_are_never_refused_for_their_encoding() {
    let grid = vec![vec!["Id", "Name"], vec!["1", "Ada"], vec!["2", "Grace Hopper"]];
    for width in 0..30 {
        let bytes: Vec<Vec<Vec<u8>>> =
            grid.iter().map(|row| row.iter().map(|cell| cell.as_bytes().to_vec()).collect()).collect();
        let expected = render_cells(&bytes, width).map(|out| String::from_utf8(out).unwrap());
        assert_eq!(render_grid(&grid, width), expected);
    }
}
