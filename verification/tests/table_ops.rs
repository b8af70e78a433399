use cli_tables::render::render_grid;
use cli_tables::table::summary_from;
use cli_tables::{Failure, Table, TableError};

fn error(failure: Failure) -> TableError {
    TableError::from_failure(failure)
}

#[test]
fn rejected_row_leaves_the_table_as_it_was() {
    let mut table = Table::new();
    assert_eq!(table.push_row_str(&vec!["a", "b"]), Ok(()));
    let before = table.summary();
    assert_eq!(
        table.push_row_str(&vec!["c"]),
        Err(error(Failure::Schema { found: 1, expected: 2 }))
    );
    assert_eq!(
        table.push_row_string(&vec!["c".to_string(), "d".to_string(), "e".to_string()]),
        Err(error(Failure::Schema { found: 3, expected: 2 }))
    );
    assert_eq!(table.push_row_str(&Vec::new()), Err(error(Failure::Schema { found: 0, expected: 2 })));
    assert_eq!(table.num_records(), 1);
    assert_eq!(table.num_fields(), 2);
    assert_eq!(table.summary(), before);
    assert_eq!(table.get_row(0), Ok(vec!["a".to_string(), "b".to_string()]));
}

#[test]
fn first_row_ever_fixes_the_field_count() {
    let mut table = Table::new();
    assert_eq!(table.push_row_str(&vec!["a", "b"]), Ok(()));
    assert_eq!(table.delete_record(0), Ok(()));
    assert_eq!(table.num_records(), 0);
    assert_eq!(table.num_fields(), 2);
    assert_eq!(table.push_row_str(&vec!["c"]), Err(error(Failure::Schema { found: 1, expected: 2 })));
    assert_eq!(table.push_row_str(&vec!["c", "d"]), Ok(()));
    assert_eq!(table.summary(), "([[\"c\", \"d\"]], 1, 2)");
}

#[test]
fn first_row_without_fields_fixes_the_field_count_too() {
    let mut table = Table::new();
    assert_eq!(table.push_row_str(&Vec::new()), Ok(()));
    assert_eq!(table.num_records(), 1);
    assert_eq!(table.num_fields(), 0);
    assert_eq!(table.push_row_str(&vec!["a"]), Err(error(Failure::Schema { found: 1, expected: 0 })));
    assert_eq!(table.summary(), "([[]], 1, 0)");
    let expected = "+----------------+\n| Table is empty |\n+----------------+";
    assert_eq!(table.render(80), Ok(expected.to_string()));
    assert_eq!(table.to_string(), Ok(expected.to_string()));
}

#[test]
fn rows_out_of_range() {
    let mut table = Table::new();
    assert_eq!(table.get_row(0), Err(error(Failure::Range { index: 0, len: 0 })));
    assert_eq!(table.delete_record(0), Err(error(Failure::Range { index: 0, len: 0 })));
    assert_eq!(table.push_row_str(&vec!["a"]), Ok(()));
    assert_eq!(table.push_row_str(&vec!["b"]), Ok(()));
    assert_eq!(
        table.get_row(2),
        Err(TableError { message: "Invalid record index. Found 2, but expected less than 2.".to_string() })
    );
    assert_eq!(table.delete_record(7), Err(error(Failure::Range { index: 7, len: 2 })));
    assert_eq!(table.num_records(), 2);
    assert_eq!(table.get_row(1), Ok(vec!["b".to_string()]));
}

#[test]
fn deleting_moves_later_rows_up() {
    let mut table = Table::new();
    for cell in ["a", "b", "c", "d"] {
        assert_eq!(table.push_row_str(&vec![cell]), Ok(()));
    }
    assert_eq!(table.delete_record(1), Ok(()));
    assert_eq!(table.num_records(), 3);
    assert_eq!(table.get_row(0), Ok(vec!["a".to_string()]));
    assert_eq!(table.get_row(1), Ok(vec!["c".to_string()]));
    assert_eq!(table.get_row(2), Ok(vec!["d".to_string()]));
    assert_eq!(table.delete_record(2), Ok(()));
    assert_eq!(table.summary(), "([[\"a\"], [\"c\"]], 2, 1)");
}

#[test]
fn replacing_is_all_or_nothing() {
    let mut table = Table::new();
    assert_eq!(table.push_row_str(&vec!["a", "b"]), Ok(()));
    let before = table.summary();
    assert_eq!(
        table.set_table_str(&vec![vec!["1", "2", "3"], vec!["4", "5", "6"], vec!["7", "8"], vec!["9"]]),
        Err(error(Failure::Schema { found: 2, expected: 3 }))
    );
    assert_eq!(table.summary(), before);
    assert_eq!(table.num_records(), 1);
    assert_eq!(table.num_fields(), 2);
    assert_eq!(table.set_table_str(&vec![vec!["1", "2", "3"], vec!["4", "5", "6"]]), Ok(()));
    assert_eq!(table.num_records(), 2);
    assert_eq!(table.num_fields(), 3);
    assert_eq!(table.get_row(1), Ok(vec!["4".to_string(), "5".to_string(), "6".to_string()]));
    let strings = vec![vec!["x".to_string()], vec!["y".to_string(), "z".to_string()]];
    assert_eq!(table.set_table_string(&strings), Err(error(Failure::Schema { found: 2, expected: 1 })));
    assert_eq!(table.num_fields(), 3);
    let strings = vec![vec!["x".to_string()], vec!["y".to_string()]];
    assert_eq!(table.set_table_string(&strings), Ok(()));
    assert_eq!(table.summary(), "([[\"x\"], [\"y\"]], 2, 1)");
}

#[test]
fn replacing_with_nothing_leaves_the_field_count_open() {
    let mut table = Table::new();
    assert_eq!(table.push_row_str(&vec!["a", "b"]), Ok(()));
    assert_eq!(table.set_table_str(&Vec::new()), Ok(()));
    assert_eq!(table.summary(), "([], 0, 0)");
    assert_eq!(table.push_row_str(&vec!["a", "b", "c"]), Ok(()));
    assert_eq!(table.num_fields(), 3);
}

#[test]
fn table_renders_as_its_rows_do() {
    let rows = vec![vec!["Id", "Name"], vec!["1", "Ada"], vec!["2", "Grace Hopper"]];
    let mut table = Table::new();
    assert_eq!(table.set_table_str(&rows), Ok(()));
    for width in [7usize, 8, 15, 21, 40] {
        assert_eq!(table.render(width).ok(), render_grid(&rows, width).ok());
        assert_eq!(table.render_for_terminal(Some(width as u16)), table.render(width));
    }
    assert_eq!(
        table.render(40).unwrap(),
        "+----+--------------+\n\
         | Id | Name         |\n\
         +----+--------------+\n\
         | 1  | Ada          |\n\
         | 2  | Grace Hopper |\n\
         +----+--------------+"
    );
    assert_eq!(table.render(6), Err(error(Failure::Layout { columns: 2, width: 6 })));
    assert_eq!(table.render(7), Err(error(Failure::WrapOverflow { row: 0, column: 0 })));
    assert_eq!(table.render_for_terminal(None), Err(error(Failure::WidthUnavailable)));
    assert_eq!(
        table.render_for_terminal(None),
        Err(TableError { message: "Failed to retrieve terminal size.".to_string() })
    );
    let columns = terminal_size::terminal_size().map(|(width, _)| width.0);
    assert_eq!(table.to_string(), table.render_for_terminal(columns));
}

#[test]
fn summary_escapes_as_debug_does() {
    let mut table = Table::new();
    assert_eq!(table.push_row_str(&vec!["a\"b", "c\\d", "e\nf"]), Ok(()));
    assert_eq!(table.summary(), "([[\"a\\\"b\", \"c\\\\d\", \"e\\nf\"]], 1, 3)");
    assert_eq!(summary_from("[]", 12, 345), "([], 12, 345)");
}
