use sht::views::table::{Table, TableLayout, TableState, DEFAULT_WIDTH};
use sht::{Rect, XY};

fn rows(height: usize, width: usize) -> Vec<Vec<String>> {
    vec![vec![String::new(); width]; height]
}

fn at(x: usize, y: usize) -> XY<usize> {
    XY { x, y }
}

#[test]
fn last_row_selected_scrolls_the_window() {
    let cells = rows(5, 1);
    let table = Table::new(&cells);
    assert_eq!((2, 5), table.get_row_bounds(Some(4), 0, 3));
}

#[test]
fn rows_fill_the_window_from_the_offset() {
    let cells = rows(5, 1);
    let table = Table::new(&cells);
    assert_eq!((0, 3), table.get_row_bounds(None, 0, 3));
    assert_eq!((1, 4), table.get_row_bounds(None, 1, 3));
    assert_eq!((4, 5), table.get_row_bounds(None, 4, 3));
    assert_eq!((0, 5), table.get_row_bounds(None, 0, 9));
    assert_eq!((1, 4), table.get_row_bounds(Some(2), 1, 3));
    assert_eq!((1, 4), table.get_row_bounds(Some(3), 1, 3));
}

#[test]
fn row_window_follows_the_selection() {
    let cells = rows(5, 1);
    let table = Table::new(&cells);
    assert_eq!((0, 3), table.get_row_bounds(Some(0), 3, 3));
    assert_eq!((1, 4), table.get_row_bounds(Some(1), 2, 3));
    assert_eq!((1, 4), table.get_row_bounds(Some(3), 0, 3));
    assert_eq!((2, 5), table.get_row_bounds(Some(9), 0, 3));
    assert_eq!((4, 5), table.get_row_bounds(Some(4), 7, 3));
}

#[test]
fn degenerate_rows_give_an_empty_range() {
    let none = rows(0, 0);
    let table = Table::new(&none);
    assert_eq!((0, 0), table.get_row_bounds(Some(2), 3, 4));
    assert_eq!((0, 0), table.get_row_bounds(None, 0, 4));
    let cells = rows(5, 1);
    let table = Table::new(&cells);
    assert_eq!((2, 2), table.get_row_bounds(Some(4), 2, 0));
    assert_eq!((5, 5), table.get_row_bounds(None, 7, 3));
}

#[test]
fn row_window_holds_the_selection_within_budget() {
    let cells = rows(7, 1);
    let table = Table::new(&cells);
    for budget in 1..9u16 {
        for offset in 0..9 {
            for selected in 0..7 {
                let (start, end) = table.get_row_bounds(Some(selected), offset, budget);
                assert!(start <= selected && selected < end && end <= 7);
                assert!(end - start <= budget as usize);
            }
        }
    }
}

#[test]
fn columns_fill_the_window_from_the_offset() {
    let cells = rows(1, 5);
    let widths = [4u16, 4, 4, 4, 4];
    let table = Table::new(&cells).with_widths(&widths);
    assert_eq!(4, table.cell_width_at(2));
    assert_eq!(5, table.col_width_at(2));
    assert_eq!((0, 3), table.get_col_bounds(None, 0, 12));
    assert_eq!((0, 2), table.get_col_bounds(None, 0, 10));
    assert_eq!((3, 5), table.get_col_bounds(None, 3, 12));
    assert_eq!((0, 5), table.get_col_bounds(None, 0, 100));
    assert_eq!((0, 3), table.get_col_bounds(Some(1), 0, 12));
}

#[test]
fn last_column_shown_is_brought_wholly_into_view() {
    let cells = rows(1, 5);
    let widths = [4u16, 4, 4, 4, 4];
    let table = Table::new(&cells).with_widths(&widths);
    assert_eq!((1, 4), table.get_col_bounds(Some(2), 0, 12));
    assert_eq!((3, 5), table.get_col_bounds(Some(4), 0, 12));
    assert_eq!((3, 5), table.get_col_bounds(Some(9), 0, 12));
}

#[test]
fn column_window_moves_back_to_the_selection() {
    let cells = rows(1, 5);
    let widths = [4u16, 4, 4, 4, 4];
    let table = Table::new(&cells).with_widths(&widths);
    assert_eq!((1, 4), table.get_col_bounds(Some(1), 3, 12));
    assert_eq!((0, 3), table.get_col_bounds(Some(0), 4, 12));
    assert_eq!((4, 5), table.get_col_bounds(Some(4), 9, 12));
}

#[test]
fn degenerate_columns_give_an_empty_range() {
    let none = rows(0, 0);
    let table = Table::new(&none);
    assert_eq!((0, 0), table.get_col_bounds(Some(1), 2, 10));
    let cells = rows(1, 5);
    let widths = [4u16, 4, 4, 4, 4];
    let table = Table::new(&cells).with_widths(&widths);
    assert_eq!((2, 2), table.get_col_bounds(Some(1), 2, 0));
    assert_eq!((5, 5), table.get_col_bounds(None, 9, 12));
}

#[test]
fn column_wider_than_the_window_is_shown_alone() {
    let cells = rows(1, 3);
    let widths = [4u16, 20, 4];
    let table = Table::new(&cells).with_widths(&widths);
    assert_eq!((1, 2), table.get_col_bounds(Some(1), 0, 10));
    assert_eq!((1, 2), table.get_col_bounds(Some(1), 2, 10));
}

#[test]
fn columns_without_width_take_the_default() {
    let cells = rows(1, 5);
    let table = Table::new(&cells);
    assert_eq!(12, DEFAULT_WIDTH);
    assert_eq!(DEFAULT_WIDTH, table.cell_width_at(3));
    assert_eq!(13, table.col_width_at(3));
    assert_eq!((0, 3), table.get_col_bounds(None, 0, 30));
    let widths = [1u16];
    let table = Table::new(&cells).with_widths(&widths);
    assert_eq!(2, table.col_width_at(0));
    assert_eq!(13, table.col_width_at(1));
    assert_eq!((0, 2), table.get_col_bounds(None, 0, 15));
}

#[test]
fn column_window_holds_the_selection() {
    let cells = rows(1, 6);
    let widths = [3u16, 9, 1, 14, 2, 5];
    let table = Table::new(&cells).with_widths(&widths);
    for budget in 1..40u16 {
        for offset in 0..8 {
            for selected in 0..6 {
                let (start, end) = table.get_col_bounds(Some(selected), offset, budget);
                assert!(start <= selected && selected < end && end <= 6);
                let but_last: u32 = (start..end - 1).map(|c| table.col_width_at(c)).sum();
                assert!(but_last <= budget as u32);
            }
        }
    }
}

#[test]
fn layout_places_the_selected_cell() {
    let cells = rows(3, 3);
    let widths = [2u16, 3, 4];
    let table = Table::new(&cells).with_widths(&widths);
    let area = Rect {
        x: 10,
        y: 5,
        width: 8,
        height: 2,
    };
    let mut state = TableState::default();
    state.select(Some(at(1, 1)));
    let shown = table.layout(area, &mut state);
    assert_eq!(
        Some(TableLayout {
            rows: (0, 2),
            cols: (0, 3)
        }),
        shown
    );
    assert_eq!(
        Some(Rect {
            x: 13,
            y: 6,
            width: 3,
            height: 1
        }),
        state.selected_area()
    );
    assert_eq!(at(0, 0), state.scroll());
    assert_eq!(at(3, 2), state.visible_cells());

    state.select(Some(at(2, 2)));
    let shown = table.layout(area, &mut state);
    assert_eq!(
        Some(TableLayout {
            rows: (1, 3),
            cols: (2, 3)
        }),
        shown
    );
    assert_eq!(
        Some(Rect {
            x: 10,
            y: 6,
            width: 4,
            height: 1
        }),
        state.selected_area()
    );
    assert_eq!(at(2, 1), state.scroll());
    assert_eq!(at(1, 2), state.visible_cells());
    assert_eq!(Some(at(2, 2)), state.selected());
}

#[test]
fn layout_cuts_the_selected_cell_at_the_edge() {
    let cells = rows(1, 2);
    let widths = [4u16, 20];
    let table = Table::new(&cells).with_widths(&widths);
    let area = Rect {
        x: 0,
        y: 0,
        width: 10,
        height: 1,
    };
    let mut state = TableState::default();
    state.select(Some(at(1, 0)));
    let shown = table.layout(area, &mut state);
    assert_eq!(
        Some(TableLayout {
            rows: (0, 1),
            cols: (1, 2)
        }),
        shown
    );
    assert_eq!(
        Some(Rect {
            x: 0,
            y: 0,
            width: 10,
            height: 1
        }),
        state.selected_area()
    );
}

#[test]
fn layout_of_nothing_leaves_the_state() {
    let cells = rows(0, 0);
    let table = Table::new(&cells);
    let area = Rect {
        x: 0,
        y: 0,
        width: 10,
        height: 10,
    };
    let mut state = TableState::default();
    state.select(Some(at(1, 1)));
    state.set_scroll(at(4, 4));
    assert_eq!(None, table.layout(area, &mut state));
    assert_eq!(at(4, 4), state.scroll());
    assert_eq!(None, state.selected_area());

    let cells = rows(2, 2);
    let table = Table::new(&cells);
    let empty = Rect {
        x: 0,
        y: 0,
        width: 0,
        height: 10,
    };
    assert_eq!(None, table.layout(empty, &mut state));
    assert_eq!(at(4, 4), state.scroll());
    assert!(empty.is_empty());
    assert!(!area.is_empty());
}

#[test]
fn unselecting_scrolls_back() {
    let mut state = TableState::default();
    state.select(Some(at(3, 4)));
    state.set_scroll(at(2, 2));
    state.select(Some(at(5, 5)));
    assert_eq!(at(2, 2), state.scroll());
    state.select(None);
    assert_eq!(None, state.selected());
    assert_eq!(at(0, 0), state.scroll());
}

#[test]
fn window_begins_where_it_began_when_laid_out_again() {
    let cells = rows(9, 6);
    let widths = [3u16, 9, 1, 14, 2, 5];
    let table = Table::new(&cells).with_widths(&widths);
    for budget in 0..40u16 {
        for offset in 0..8 {
            for selected in 0..7 {
                let (start, _) = table.get_col_bounds(Some(selected), offset, budget);
                let (again, _) = table.get_col_bounds(Some(selected), start, budget);
                assert_eq!(start, again);
                let rows = table.get_row_bounds(Some(selected), offset, budget);
                assert_eq!(rows, table.get_row_bounds(Some(selected), rows.0, budget));
            }
        }
    }
}
