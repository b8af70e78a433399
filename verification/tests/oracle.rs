use cli_tables::render::{render_cells, render_grid};
use cli_tables::Failure;

/// A table drawn the long way round, for tables that render.
fn drawn_by_hand(rows: &[Vec<String>], target: usize) -> Option<String> {
    let columns = rows[0].len();
    let mut widths: Vec<usize> =
        (0..columns).map(|c| rows.iter().map(|row| row[c].len()).max().unwrap()).collect();
    let frame = 3 * columns + 1;
    if frame > target {
        return None;
    }
    while widths.iter().sum::<usize>() + frame > target {
        let most = *widths.iter().max().unwrap();
        let first = widths.iter().position(|width| *width == most).unwrap();
        widths[first] -= 1;
    }
    let rule: String =
        widths.iter().fold("+".to_string(), |line, width| line + &"-".repeat(width + 2) + "+");
    let mut lines = vec![rule.clone()];
    for (r, row) in rows.iter().enumerate() {
        let mut pieces: Vec<Vec<String>> = Vec::new();
        for (cell, width) in row.iter().zip(&widths) {
            if *width == 0 && !cell.is_empty() {
                return None;
            }
            let bytes = cell.as_bytes();
            let parts: Vec<String> = if *width == 0 {
                Vec::new()
            } else {
                bytes.chunks(*width).map(|part| String::from_utf8(part.to_vec()).unwrap()).collect()
            };
            pieces.push(parts);
        }
        let height = pieces.iter().map(|parts| parts.len()).max().unwrap().max(1);
        for line in 0..height {
            let shown: Vec<String> = pieces
                .iter()
                .zip(&widths)
                .map(|(parts, width)| {
                    let part = parts.get(line).cloned().unwrap_or_default();
                    format!("{}{}", part, " ".repeat(width - part.len()))
                })
                .collect();
            lines.push(format!("| {} |", shown.join(" | ")));
        }
        if r == 0 {
            lines.push(rule.clone());
        }
    }
    lines.push(rule);
    Some(lines.join("\n"))
}

fn next(seed: &mut u64) -> usize {
    *seed = seed.wrapping_mul(6364136223846793005).wrapping_add(1442695040888963407);
    (*seed >> 33) as usize
}

fn some_table(seed: &mut u64) -> Vec<Vec<String>> {
    let rows = 1 + next(seed) % 4;
    let columns = 1 + next(seed) % 4;
    (0..rows)
        .map(|_| {
            (0..columns)
                .map(|_| {
                    let len = next(seed) % 12;
                    (0..len).map(|_| (b'a' + (next(seed) % 26) as u8) as char).collect()
                })
                .collect()
        })
        .collect()
}

#[test]
fn rendering_agrees_with_drawing_by_hand() {
    let mut seed = 7u64;
    let mut drawn = 0;
    let mut refused = 0;
    for _ in 0..300 {
        let table = some_table(&mut seed);
        let slices: Vec<Vec<&str>> =
            table.iter().map(|row| row.iter().map(|cell| cell.as_str()).collect()).collect();
        let bytes: Vec<Vec<Vec<u8>>> =
            table.iter().map(|row| row.iter().map(|cell| cell.as_bytes().to_vec()).collect()).collect();
        for target in [0, 4, 7, 10, 13, 16, 20, 25, 33, 48, 80] {
            let expected = drawn_by_hand(&table, target);
            let text = render_grid(&slices, target);
            assert_eq!(text.clone().ok(), expected);
            assert_eq!(render_cells(&bytes, target), text.clone().map(|out| out.into_bytes()));
            match text {
                Ok(_) => drawn += 1,
                Err(failure) => {
                    refused += 1;
                    assert!(matches!(failure, Failure::Layout { .. } | Failure::WrapOverflow { .. }));
                },
            }
        }
    }
    assert!(drawn > 1000);
    assert!(refused > 100);
}
