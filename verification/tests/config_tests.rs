use langton_ant::config::{GridBlock, Root, Solution};

fn block(rows: usize, cols: usize, names: &[&str]) -> GridBlock {
    GridBlock {
        rows,
        cols,
        solution: names
            .iter()
            .map(|n| Solution { name: n.to_string(), steps: 1, ant: [0, 0, 0], grid: vec![] })
            .collect(),
    }
}

fn root() -> Root {
    Root {
        best_grids: vec![
            block(3, 3, &["a"]),
            block(4, 5, &["b", "c"]),
            block(3, 3, &["d"]),
            block(9, 20, &[]),
        ],
    }
}

#[test]
fn find_block_returns_first_match() {
    let r = root();
    assert_eq!(r.find_block(3, 3), Some(0));
    assert_eq!(r.find_block(4, 5), Some(1));
    assert_eq!(r.find_block(9, 20), Some(3));
    assert_eq!(r.find_block(5, 4), None);
}

#[test]
fn find_block_in_empty_root() {
    let r = Root { best_grids: vec![] };
    assert_eq!(r.find_block(3, 3), None);
    assert!(!r.has_block_in_rows(3, 9, 3));
}

#[test]
fn has_block_in_rows_checks_columns_and_row_range() {
    let r = root();
    assert!(r.has_block_in_rows(3, 9, 3));
    assert!(r.has_block_in_rows(3, 9, 5));
    assert!(!r.has_block_in_rows(5, 9, 5));
    assert!(r.has_block_in_rows(3, 9, 20));
    assert!(!r.has_block_in_rows(3, 8, 20));
    assert!(!r.has_block_in_rows(3, 9, 4));
}
