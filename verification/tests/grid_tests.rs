use wterm::cell::{Cell, DEFAULT_COLOR};
use wterm::grid::{Grid, MAX_COLS, MAX_ROWS};

fn cell(ch: char) -> Cell {
    Cell { char: ch as u32, fg: 1, bg: 2, flags: 0, _pad1: 0, _pad2: 0, _pad3: 0 }
}

#[test]
fn blank_cell_has_default_colours() {
    let b = Cell::blank();
    assert_eq!(b.char, ' ' as u32);
    assert_eq!(b.fg, DEFAULT_COLOR);
    assert_eq!(b.bg, DEFAULT_COLOR);
    assert_eq!(b.flags, 0);
    let c = Cell::blank_with_bg(5);
    assert_eq!(c.bg, 5);
    assert_eq!(c.fg, DEFAULT_COLOR);
    assert_eq!(c.char, 32);
}

#[test]
fn new_grid_is_blank_and_dirty() {
    let g = Grid::new(80, 24);
    assert_eq!(g.cols, 80);
    assert_eq!(g.rows, 24);
    assert_eq!(g.cells.len(), MAX_ROWS);
    assert!(g.cells.iter().all(|r| r.len() == MAX_COLS));
    assert!(g.cells.iter().all(|r| r.iter().all(|c| *c == Cell::blank())));
    assert!(g.dirty.iter().all(|d| *d == 1));
}

#[test]
fn set_then_get_cell() {
    let mut g = Grid::new(10, 5);
    g.clear_dirty();
    g.set_cell(2, 3, cell('x'));
    assert_eq!(g.get_cell(2, 3), cell('x'));
    assert_eq!(g.get_cell(2, 4), Cell::blank());
    assert_eq!(g.dirty[2], 1);
    assert_eq!(g.dirty[1], 0);
}

#[test]
fn set_cell_outside_is_ignored() {
    let mut g = Grid::new(10, 5);
    g.clear_dirty();
    g.set_cell(5, 0, cell('x'));
    g.set_cell(0, 10, cell('x'));
    assert_eq!(g.cells[5][0], Cell::blank());
    assert_eq!(g.cells[0][10], Cell::blank());
    assert!(g.dirty[..5].iter().all(|d| *d == 0));
    assert_eq!(g.get_cell(5, 0), Cell::blank());
}

#[test]
fn get_cell_outside_visible_area_is_blank() {
    let mut g = Grid::new(10, 5);
    g.cells[7][2] = cell('q');
    assert_eq!(g.get_cell(7, 2), Cell::blank());
}

#[test]
fn clear_dirty_only_touches_visible_rows() {
    let mut g = Grid::new(10, 5);
    g.clear_dirty();
    assert!(g.dirty[..5].iter().all(|d| *d == 0));
    assert!(g.dirty[5..].iter().all(|d| *d == 1));
}

#[test]
fn clear_blanks_visible_area_only() {
    let mut g = Grid::new(4, 2);
    g.cells[0][0] = cell('a');
    g.cells[0][5] = cell('b');
    g.cells[3][0] = cell('c');
    g.clear_dirty();
    g.clear();
    assert_eq!(g.cells[0][0], Cell::blank());
    assert_eq!(g.cells[0][5], cell('b'));
    assert_eq!(g.cells[3][0], cell('c'));
    assert_eq!(&g.dirty[..2], &[1, 1]);
}

#[test]
fn reset_changes_size_and_blanks() {
    let mut g = Grid::new(4, 2);
    g.set_cell(1, 1, cell('z'));
    g.reset(6, 3);
    assert_eq!((g.cols, g.rows), (6, 3));
    assert_eq!(g.get_cell(1, 1), Cell::blank());
}

#[test]
fn clear_row_as_fills_visible_columns() {
    let mut g = Grid::new(3, 2);
    let fill = cell('-');
    g.clear_dirty();
    g.clear_row_as(1, fill);
    assert_eq!(&g.cells[1][..3], &[fill, fill, fill]);
    assert_eq!(g.cells[1][3], Cell::blank());
    assert_eq!(g.dirty[1], 1);
    g.clear_row_as(2, fill);
    assert_eq!(g.cells[2][0], Cell::blank());
}

#[test]
fn clear_range_stops_at_width() {
    let mut g = Grid::new(5, 2);
    for c in 0..5 {
        g.set_cell(0, c, cell('a'));
    }
    g.clear_range(0, 1, 3);
    assert_eq!(g.get_cell(0, 0), cell('a'));
    assert_eq!(g.get_cell(0, 1), Cell::blank());
    assert_eq!(g.get_cell(0, 2), Cell::blank());
    assert_eq!(g.get_cell(0, 3), cell('a'));
    g.clear_range_as(0, 3, 100, cell('#'));
    assert_eq!(g.get_cell(0, 3), cell('#'));
    assert_eq!(g.get_cell(0, 4), cell('#'));
    assert_eq!(g.cells[0][5], Cell::blank());
}

#[test]
fn clear_rows_as_is_cut_to_visible_rows() {
    let mut g = Grid::new(2, 3);
    g.clear_dirty();
    g.clear_rows_as(1, 10, cell('.'));
    assert_eq!(g.get_cell(0, 0), Cell::blank());
    assert_eq!(g.get_cell(1, 0), cell('.'));
    assert_eq!(g.get_cell(2, 1), cell('.'));
    assert_eq!(g.cells[3][0], Cell::blank());
    assert_eq!(&g.dirty[..3], &[0, 1, 1]);
    g.clear_rows_as(2, 1, cell('!'));
    assert_eq!(g.get_cell(1, 0), cell('.'));
}

fn numbered(rows: u16) -> Grid {
    let mut g = Grid::new(3, rows);
    for r in 0..rows {
        g.set_cell(r, 0, cell((b'0' + r as u8) as char));
    }
    g.clear_dirty();
    g
}

#[test]
fn scroll_up_moves_rows_and_blanks_bottom() {
    let mut g = numbered(5);
    g.scroll_up(1, 4, 1, cell('_'));
    assert_eq!(g.get_cell(0, 0), cell('0'));
    assert_eq!(g.get_cell(1, 0), cell('2'));
    assert_eq!(g.get_cell(2, 0), cell('3'));
    assert_eq!(g.get_cell(3, 0), cell('_'));
    assert_eq!(g.get_cell(4, 0), cell('4'));
    assert_eq!(&g.dirty[..5], &[0, 1, 1, 1, 0]);
}

#[test]
fn scroll_up_by_more_than_region_blanks_it() {
    let mut g = numbered(4);
    g.scroll_up(0, 4, 9, cell('_'));
    for r in 0..4 {
        assert_eq!(g.get_cell(r, 0), cell('_'));
    }
}

#[test]
fn scroll_down_moves_rows_and_blanks_top() {
    let mut g = numbered(5);
    g.scroll_down(0, 5, 2, cell('_'));
    assert_eq!(g.get_cell(0, 0), cell('_'));
    assert_eq!(g.get_cell(1, 0), cell('_'));
    assert_eq!(g.get_cell(2, 0), cell('0'));
    assert_eq!(g.get_cell(3, 0), cell('1'));
    assert_eq!(g.get_cell(4, 0), cell('2'));
}

#[test]
fn scroll_with_zero_count_or_empty_region_does_nothing() {
    let mut g = numbered(3);
    g.scroll_up(0, 3, 0, cell('_'));
    g.scroll_down(2, 2, 1, cell('_'));
    for r in 0..3 {
        assert_eq!(g.get_cell(r, 0), cell((b'0' + r as u8) as char));
    }
    assert!(g.dirty[..3].iter().all(|d| *d == 0));
}

#[test]
fn duplicate_copies_everything() {
    let mut g = numbered(3);
    g.cells[200][200] = cell('h');
    let d = g.duplicate();
    assert_eq!(d.cells, g.cells);
    assert_eq!(d.dirty, g.dirty);
    assert_eq!((d.cols, d.rows), (g.cols, g.rows));
}

#[test]
fn blank_columns_leaves_dirty_flags() {
    let mut g = numbered(3);
    g.blank_columns(2, 0, 1);
    assert_eq!(g.get_cell(0, 0), Cell::blank());
    assert_eq!(g.get_cell(1, 0), Cell::blank());
    assert_eq!(g.get_cell(2, 0), cell('2'));
    assert!(g.dirty[..3].iter().all(|d| *d == 0));
}
