use sht::grid::{Change, ChangeTracker, Grid, GridError};
use sht::XY;

fn row(cells: &[&str]) -> Vec<String> {
    cells.iter().map(|s| s.to_string()).collect()
}

fn grid(rows: &[&[&str]]) -> Grid {
    Grid::from_csv(rows.iter().map(|r| row(r)).collect()).unwrap()
}

fn cells(g: &Grid) -> Vec<Vec<String>> {
    g.cells().clone()
}

fn at(x: usize, y: usize) -> XY<usize> {
    XY { x, y }
}

#[test]
fn grid_is_built_from_records() {
    let g = grid(&[&["a", "b", "c"], &["d", "e", "f"]]);
    assert_eq!(at(3, 2), g.size());
    assert_eq!(Some(&"f".to_string()), g.get(at(2, 1)));
    assert_eq!(None, g.get(at(3, 1)));
    assert_eq!(None, g.get(at(0, 2)));
    assert!(g.is_in(at(2, 1)));
    assert!(!g.is_in(at(3, 0)));
    assert!(!g.is_in(at(0, 2)));
}

#[test]
fn empty_records_give_an_empty_grid() {
    let g = Grid::from_csv(Vec::new()).unwrap();
    assert_eq!(at(0, 0), g.size());
    assert!(g.cells().is_empty());
    let d = Grid::default();
    assert_eq!(at(0, 0), d.size());
}

#[test]
fn ragged_records_are_refused() {
    let r = Grid::from_csv(vec![row(&["a", "b"]), row(&["c"])]);
    assert!(matches!(r, Err(GridError::UnequalLengths)));
}

#[test]
fn replace_cell_records_old_text() {
    let mut g = grid(&[&["x"]]);
    let mut t = ChangeTracker::default();
    let change = g.edit(at(0, 0), "y".to_string());
    match &change {
        Change::Replace { pos, old } => {
            assert_eq!(at(0, 0), *pos);
            assert_eq!("x", old);
        }
        _ => panic!("wrong change"),
    }
    change.track(&mut t);
    assert_eq!(Some(&"y".to_string()), g.get(at(0, 0)));
    assert_eq!(Some(()), t.undo(&mut g));
    assert_eq!(Some(&"x".to_string()), g.get(at(0, 0)));
    assert_eq!(Some(()), t.redo(&mut g));
    assert_eq!(Some(&"y".to_string()), g.get(at(0, 0)));
}

#[test]
fn deleted_row_comes_back_on_undo() {
    let mut g = grid(&[&["a", "b"], &["c", "d"], &["e", "f"]]);
    let before = cells(&g);
    let mut t = ChangeTracker::default();
    let change = g.delete_row(1);
    match &change {
        Change::DeleteRow { row: r, old } => {
            assert_eq!(1, *r);
            assert_eq!(&row(&["c", "d"]), old);
        }
        _ => panic!("wrong change"),
    }
    t.push(change);
    assert_eq!(vec![row(&["a", "b"]), row(&["e", "f"])], cells(&g));
    assert_eq!(at(2, 2), g.size());
    assert_eq!(Some(()), t.undo(&mut g));
    assert_eq!(before, cells(&g));
    assert_eq!(at(2, 3), g.size());
}

#[test]
fn inserted_row_is_padded() {
    let mut g = grid(&[&["a", "b", "c"]]);
    let change = g.insert_row(1, row(&["x"]));
    assert!(matches!(change, Change::InsertRow { row: 1 }));
    assert_eq!(vec![row(&["a", "b", "c"]), row(&["x", "", ""])], cells(&g));
    assert_eq!(at(3, 2), g.size());
    let change = g.insert_row(0, Vec::new());
    assert!(matches!(change, Change::InsertRow { row: 0 }));
    assert_eq!(row(&["", "", ""]), g.cells()[0]);
}

#[test]
fn inserted_column_is_padded() {
    let mut g = grid(&[&["a", "b"], &["c", "d"], &["e", "f"]]);
    let change = g.insert_col(1, row(&["x", "y"]));
    assert!(matches!(change, Change::InsertCol { col: 1 }));
    assert_eq!(
        vec![
            row(&["a", "x", "b"]),
            row(&["c", "y", "d"]),
            row(&["e", "", "f"])
        ],
        cells(&g)
    );
    assert_eq!(at(3, 3), g.size());
    let change = g.insert_col(3, Vec::new());
    assert!(matches!(change, Change::InsertCol { col: 3 }));
    assert_eq!(row(&["a", "x", "b", ""]), g.cells()[0]);
}

#[test]
fn deleted_column_is_handed_back() {
    let mut g = grid(&[&["a", "b"], &["c", "d"]]);
    let change = g.delete_col(0);
    match &change {
        Change::DeleteCol { col, old } => {
            assert_eq!(0, *col);
            assert_eq!(&row(&["a", "c"]), old);
        }
        _ => panic!("wrong change"),
    }
    assert_eq!(vec![row(&["b"]), row(&["d"])], cells(&g));
    assert_eq!(at(1, 2), g.size());
}

#[test]
fn column_of_grid_without_rows_changes_width_only() {
    let mut g = grid(&[&["a", "b"]]);
    let _ = g.delete_row(0);
    assert_eq!(at(2, 0), g.size());
    let _ = g.insert_col(0, Vec::new());
    assert_eq!(at(3, 0), g.size());
    let _ = g.insert_row(0, row(&["x"]));
    assert_eq!(vec![row(&["x", "", ""])], cells(&g));
}

#[test]
fn replaced_grid_is_handed_back() {
    let mut g = grid(&[&["a"]]);
    let other = grid(&[&["b", "c"]]);
    let change = g.replace(other);
    match &change {
        Change::ReplaceGrid { old } => assert_eq!(vec![row(&["a"])], cells(old)),
        _ => panic!("wrong change"),
    }
    assert_eq!(vec![row(&["b", "c"])], cells(&g));
    let back = g.undo(change);
    assert_eq!(vec![row(&["a"])], cells(&g));
    assert!(matches!(back, Change::ReplaceGrid { .. }));
}

#[test]
fn every_edit_is_undone_by_its_change() {
    let start = grid(&[&["a", "b"], &["c", "d"]]);
    let before = cells(&start);

    let mut g = start.clone();
    let c = g.edit(at(1, 1), "z".to_string());
    let _ = g.undo(c);
    assert_eq!(before, cells(&g));

    let mut g = start.clone();
    let c = g.insert_row(2, row(&["q"]));
    let _ = g.undo(c);
    assert_eq!(before, cells(&g));

    let mut g = start.clone();
    let c = g.delete_row(0);
    let _ = g.undo(c);
    assert_eq!(before, cells(&g));

    let mut g = start.clone();
    let c = g.insert_col(0, row(&["q", "r"]));
    let _ = g.undo(c);
    assert_eq!(before, cells(&g));
    assert_eq!(at(2, 2), g.size());

    let mut g = start.clone();
    let c = g.delete_col(1);
    let _ = g.undo(c);
    assert_eq!(before, cells(&g));

    let mut g = start.clone();
    let c = g.replace(Grid::default());
    let _ = g.undo(c);
    assert_eq!(before, cells(&g));
}

#[test]
fn undoing_twice_hands_the_change_back() {
    let mut g = grid(&[&["a", "b"], &["c", "d"]]);
    let c = g.delete_col(1);
    let back = g.undo(c);
    assert!(matches!(back, Change::InsertCol { col: 1 }));
    let again = g.undo(back);
    match again {
        Change::DeleteCol { col, old } => {
            assert_eq!(1, col);
            assert_eq!(row(&["b", "d"]), old);
        }
        _ => panic!("wrong change"),
    }
}

fn edits(g: &mut Grid, t: &mut ChangeTracker) -> Vec<Vec<Vec<String>>> {
    let mut states = vec![cells(g)];
    g.edit(at(0, 0), "1".to_string()).track(t);
    states.push(cells(g));
    g.insert_row(1, row(&["r"])).track(t);
    states.push(cells(g));
    g.delete_col(0).track(t);
    states.push(cells(g));
    g.insert_col(1, row(&["p", "q", "r"])).track(t);
    states.push(cells(g));
    g.delete_row(2).track(t);
    states.push(cells(g));
    states
}

#[test]
fn n_edits_then_n_undos_restore_the_grid() {
    let mut g = grid(&[&["a", "b"], &["c", "d"]]);
    let mut t = ChangeTracker::default();
    let states = edits(&mut g, &mut t);
    for k in (0..5).rev() {
        assert_eq!(Some(()), t.undo(&mut g));
        assert_eq!(states[k], cells(&g));
    }
    assert_eq!(None, t.undo(&mut g));
    assert_eq!(states[0], cells(&g));
}

#[test]
fn k_undos_then_k_redos_restore_the_grid() {
    for k in 0..=5 {
        let mut g = grid(&[&["a", "b"], &["c", "d"]]);
        let mut t = ChangeTracker::default();
        let states = edits(&mut g, &mut t);
        for _ in 0..k {
            assert_eq!(Some(()), t.undo(&mut g));
        }
        assert_eq!(states[5 - k], cells(&g));
        for _ in 0..k {
            assert_eq!(Some(()), t.redo(&mut g));
        }
        assert_eq!(states[5], cells(&g));
        assert_eq!(None, t.redo(&mut g));
    }
}

#[test]
fn edit_after_undo_clears_redos() {
    let mut g = grid(&[&["a"]]);
    let mut t = ChangeTracker::default();
    g.edit(at(0, 0), "b".to_string()).track(&mut t);
    assert_eq!(Some(()), t.undo(&mut g));
    g.edit(at(0, 0), "c".to_string()).track(&mut t);
    let before = cells(&g);
    assert_eq!(None, t.redo(&mut g));
    assert_eq!(before, cells(&g));
    assert_eq!(Some(()), t.undo(&mut g));
    assert_eq!(vec![row(&["a"])], cells(&g));
}

#[test]
fn empty_tracker_has_nothing_to_undo() {
    let mut g = grid(&[&["a"]]);
    let mut t = ChangeTracker::default();
    assert_eq!(None, t.undo(&mut g));
    assert_eq!(None, t.redo(&mut g));
    assert_eq!(vec![row(&["a"])], cells(&g));
}
