use cli_tables::draw::draw;
use cli_tables::failure::Failure;
use cli_tables::render::render_cells;
use cli_tables::shape::find_ragged;
use cli_tables::widths::{line_length, natural_widths_of, shrink_widths};
use cli_tables::wrap::plan_rows;

fn cells(rows: &[&[&str]]) -> Vec<Vec<Vec<u8>>> {
    rows.iter().map(|row| row.iter().map(|cell| cell.as_bytes().to_vec()).collect()).collect()
}

fn text(bytes: Vec<u8>) -> String {
    String::from_utf8(bytes).unwrap()
}

#[test]
fn blank_table_gives_the_notice() {
    let expected = "+----------------+\n| Table is empty |\n+----------------+";
    assert_eq!(text(render_cells(&Vec::new(), 80).unwrap()), expected);
    assert_eq!(text(render_cells(&vec![Vec::new()], 80).unwrap()), expected);
    assert_eq!(text(render_cells(&Vec::new(), 0).unwrap()), expected);
    assert_eq!(text(render_cells(&vec![Vec::new(), vec![b"a".to_vec()]], 80).unwrap()), expected);
}

#[test]
fn names_table_at_width_40() {
    let table = cells(&[&["Id", "Name"], &["1", "Ada"], &["2", "Grace Hopper"]]);
    assert_eq!(natural_widths_of(&table), vec![2, 12]);
    assert_eq!(shrink_widths(vec![2, 12], 40), Ok(vec![2, 12]));
    let expected = "+----+--------------+\n\
                    | Id | Name         |\n\
                    +----+--------------+\n\
                    | 1  | Ada          |\n\
                    | 2  | Grace Hopper |\n\
                    +----+--------------+";
    assert_eq!(text(render_cells(&table, 40).unwrap()), expected);
}

#[test]
fn names_table_fits_exactly_at_width_21() {
    let table = cells(&[&["Id", "Name"], &["1", "Ada"], &["2", "Grace Hopper"]]);
    let wide = render_cells(&table, 40).unwrap();
    assert_eq!(render_cells(&table, 21).unwrap(), wide);
    assert_ne!(render_cells(&table, 20).unwrap(), wide);
}

#[test]
fn names_table_wraps_at_width_15() {
    let table = cells(&[&["Id", "Name"], &["1", "Ada"], &["2", "Grace Hopper"]]);
    let expected = "+----+--------+\n\
                    | Id | Name   |\n\
                    +----+--------+\n\
                    | 1  | Ada    |\n\
                    | 2  | Grace  |\n\
                    |    | Hopper |\n\
                    +----+--------+";
    assert_eq!(text(render_cells(&table, 15).unwrap()), expected);
}

#[test]
fn single_cell_wraps_at_width_4() {
    let table = cells(&[&["abcdefgh"]]);
    let expected = "+------+\n| abcd |\n| efgh |\n+------+\n+------+";
    assert_eq!(text(render_cells(&table, 8).unwrap()), expected);
}

#[test]
fn last_line_of_a_wrapped_cell_is_padded() {
    let table = cells(&[&["abcdefghij"]]);
    let expected = "+------+\n| abcd |\n| efgh |\n| ij   |\n+------+\n+------+";
    assert_eq!(text(render_cells(&table, 8).unwrap()), expected);
}

#[test]
fn wrapped_header_and_short_neighbours() {
    let table = cells(&[&["abcdef", "x"], &["1", "yz"]]);
    let expected = "+-----+----+\n\
                    | abc | x  |\n\
                    | def |    |\n\
                    +-----+----+\n\
                    | 1   | yz |\n\
                    +-----+----+";
    assert_eq!(text(render_cells(&table, 12).unwrap()), expected);
}

#[test]
fn column_of_empty_cells_has_no_width() {
    let table = cells(&[&["", "a"], &["", "bc"]]);
    let expected = "+--+----+\n|  | a  |\n+--+----+\n|  | bc |\n+--+----+";
    assert_eq!(text(render_cells(&table, 80).unwrap()), expected);
}

#[test]
fn row_of_empty_cells_takes_one_line() {
    let table = cells(&[&["a"], &[""], &["b"]]);
    let expected = "+---+\n| a |\n+---+\n|   |\n| b |\n+---+";
    assert_eq!(text(render_cells(&table, 80).unwrap()), expected);
}

#[test]
fn line_count_is_three_more_than_the_heights() {
    let table = cells(&[&["abcdefgh", "x"], &["1", "y"], &["abcdefghijkl", "z"]]);
    let widths = shrink_widths(natural_widths_of(&table), 11).unwrap();
    assert_eq!(widths, vec![3, 1]);
    let plan = plan_rows(&table, &widths).unwrap();
    assert_eq!(plan.heights, vec![3, 1, 4]);
    assert_eq!(
        plan.wrapped,
        vec![vec![true, false], vec![false, false], vec![true, false]]
    );
    let out = text(draw(&table, &widths, &plan));
    assert_eq!(out.lines().count(), 3 + 3 + 1 + 4);
    assert!(out.lines().all(|line| line.len() == 11));
    assert_eq!(out.into_bytes(), render_cells(&table, 11).unwrap());
}

#[test]
fn rendering_twice_gives_the_same_bytes() {
    let table = cells(&[&["Id", "Name"], &["1", "Ada"], &["2", "Grace Hopper"]]);
    for width in [0, 6, 7, 8, 15, 21, 40] {
        assert_eq!(render_cells(&table, width), render_cells(&table, width));
    }
}

#[test]
fn shrinking_takes_from_the_widest_first() {
    assert_eq!(shrink_widths(vec![10, 3, 3], 26), Ok(vec![10, 3, 3]));
    assert_eq!(shrink_widths(vec![10, 3, 3], 25), Ok(vec![9, 3, 3]));
    assert_eq!(shrink_widths(vec![10, 3, 3], 19), Ok(vec![3, 3, 3]));
    assert_eq!(shrink_widths(vec![10, 3, 3], 18), Ok(vec![2, 3, 3]));
    assert_eq!(shrink_widths(vec![10, 3, 3], 17), Ok(vec![2, 2, 3]));
    assert_eq!(shrink_widths(vec![10, 3, 3], 16), Ok(vec![2, 2, 2]));
    assert_eq!(shrink_widths(vec![10, 3, 3], 10), Ok(vec![0, 0, 0]));
}

#[test]
fn shrinking_steps_are_the_bytes_lost() {
    let natural = vec![10usize, 3, 3];
    let natural_total: usize = natural.iter().sum::<usize>() + 10;
    for target in 10..=30 {
        let shrunk = shrink_widths(natural.clone(), target).unwrap();
        let total: usize = shrunk.iter().sum::<usize>() + 10;
        assert_eq!(total, natural_total.min(target));
        assert!(shrunk.iter().zip(&natural).all(|(after, before)| after <= before));
    }
}

#[test]
fn frame_wider_than_the_display_is_refused() {
    assert_eq!(shrink_widths(vec![10, 3, 3], 9), Err(Failure::Layout { columns: 3, width: 9 }));
    assert_eq!(shrink_widths(vec![0], 3), Err(Failure::Layout { columns: 1, width: 3 }));
    assert_eq!(shrink_widths(vec![0], 4), Ok(vec![0]));
    assert_eq!(shrink_widths(Vec::new(), 0), Err(Failure::Layout { columns: 0, width: 0 }));
    assert_eq!(shrink_widths(Vec::new(), 1), Ok(Vec::new()));
    let table = cells(&[&["ab", "c"]]);
    assert_eq!(render_cells(&table, 6), Err(Failure::Layout { columns: 2, width: 6 }));
    assert_eq!(render_cells(&table, 0), Err(Failure::Layout { columns: 2, width: 0 }));
}

#[test]
fn content_in_a_column_without_width_is_refused() {
    let table = cells(&[&["ab", "c"]]);
    assert_eq!(render_cells(&table, 7), Err(Failure::WrapOverflow { row: 0, column: 0 }));
    let table = cells(&[&["", "c"], &["ab", "d"]]);
    assert_eq!(render_cells(&table, 7), Err(Failure::WrapOverflow { row: 0, column: 1 }));
    let table = cells(&[&["", ""], &["", "d"]]);
    assert_eq!(plan_rows(&table, &vec![0, 0]).err(), Some(Failure::WrapOverflow { row: 1, column: 1 }));
    let table = cells(&[&["", ""], &["", ""]]);
    let plan = plan_rows(&table, &vec![0, 0]).unwrap();
    assert_eq!(plan.heights, vec![1, 1]);
    assert_eq!(text(render_cells(&table, 7).unwrap()), "+--+--+\n|  |  |\n+--+--+\n|  |  |\n+--+--+");
}

#[test]
fn ragged_rows_are_refused() {
    let table = cells(&[&["a", "b"], &["c", "d"], &["e"], &["f", "g", "h"]]);
    assert_eq!(render_cells(&table, 80), Err(Failure::Schema { found: 1, expected: 2 }));
    let table = cells(&[&["a"], &[]]);
    assert_eq!(render_cells(&table, 80), Err(Failure::Schema { found: 0, expected: 1 }));
}

#[test]
fn heights_round_up() {
    let table = cells(&[&["", "a", "ab", "abc", "abcd", "abcde"]]);
    for (width, height) in [(1usize, 5usize), (2, 3), (3, 2), (4, 2), (5, 1), (6, 1)] {
        let plan = plan_rows(&table, &vec![width; 6]).unwrap();
        assert_eq!(plan.heights, vec![height]);
        let flags: Vec<bool> = (0..6).map(|len| len > width).collect();
        assert_eq!(plan.wrapped, vec![flags]);
    }
}

#[test]
fn lines_are_as_long_as_the_widths_say() {
    assert_eq!(line_length(&vec![2, 12]), Some(21));
    assert_eq!(line_length(&vec![0]), Some(4));
    assert_eq!(line_length(&Vec::new()), Some(1));
    assert_eq!(line_length(&vec![usize::MAX - 3]), None);
    assert_eq!(line_length(&vec![usize::MAX - 4]), Some(usize::MAX));
    assert_eq!(line_length(&vec![usize::MAX, 1]), None);
}

#[test]
fn first_ragged_row_is_found() {
    assert_eq!(find_ragged(&Vec::<Vec<u8>>::new()), None);
    assert_eq!(find_ragged(&vec![vec![1u8, 2], vec![3, 4]]), None);
    assert_eq!(find_ragged(&vec![vec![1u8, 2], vec![3], vec![]]), Some(1));
    assert_eq!(find_ragged(&vec![vec![], vec![], vec![1u8]]), Some(2));
}

#[test]
fn rendered_lines_fit_the_display() {
    let table = cells(&[
        &["Id", "Name", "Remark"],
        &["1", "Ada", "wrote the first program"],
        &["2", "Grace Hopper", ""],
    ]);
    for width in 16..60 {
        let out = text(render_cells(&table, width).unwrap());
        let expected = width.min(2 + 12 + 23 + 10);
        assert!(out.lines().all(|line| line.len() == expected));
        let widths = shrink_widths(natural_widths_of(&table), width).unwrap();
        let plan = plan_rows(&table, &widths).unwrap();
        assert_eq!(out.lines().count(), 3 + plan.heights.iter().sum::<usize>());
        let widest = *widths.iter().max().unwrap();
        assert!(widths
            .iter()
            .zip([2usize, 12, 23])
            .all(|(after, before)| *after == before || after + 1 >= widest));
    }
}
