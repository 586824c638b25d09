use wterm::cell::Cell;
use wterm::scrollback::{Scrollback, ScrollbackLine, MAX_SCROLLBACK_LINES};

fn row(tag: u32) -> Vec<Cell> {
    (0..256).map(|i| Cell { char: tag * 1000 + i, fg: 0, bg: 0, flags: 0, _pad1: 0, _pad2: 0, _pad3: 0 }).collect()
}

#[test]
fn new_line_is_empty_blank() {
    let l = ScrollbackLine::new();
    assert_eq!(l.len, 0);
    assert_eq!(l.cells.len(), 256);
    assert!(l.cells.iter().all(|c| *c == Cell::blank()));
}

#[test]
fn empty_scrollback_has_no_lines() {
    let s = Scrollback::new();
    assert_eq!(s.count, 0);
    assert!(s.get_line(0).is_none());
}

#[test]
fn newest_line_comes_first() {
    let mut s = Scrollback::new();
    s.push(&row(1), 3);
    s.push(&row(2), 5);
    assert_eq!(s.count, 2);
    let newest = s.get_line(0).unwrap();
    assert_eq!(newest.len, 5);
    assert_eq!(&newest.cells[..5], &row(2)[..5]);
    let older = s.get_line(1).unwrap();
    assert_eq!(older.len, 3);
    assert_eq!(&older.cells[..3], &row(1)[..3]);
    assert!(s.get_line(2).is_none());
}

#[test]
fn only_the_first_len_cells_are_copied() {
    let mut s = Scrollback::new();
    s.push(&row(1), 2);
    let l = s.get_line(0).unwrap();
    assert_eq!(l.cells[1], row(1)[1]);
    assert_eq!(l.cells[2], Cell::blank());
}

#[test]
fn ring_keeps_the_last_lines_when_full() {
    let mut s = Scrollback::new();
    for i in 0..(MAX_SCROLLBACK_LINES as u32 + 5) {
        s.push(&row(i), 1);
    }
    assert_eq!(s.count, MAX_SCROLLBACK_LINES as u32);
    assert_eq!(s.write_pos, 5);
    assert_eq!(s.get_line(0).unwrap().cells[0], row(1004)[0]);
    assert_eq!(s.get_line(999).unwrap().cells[0], row(5)[0]);
    assert!(s.get_line(1000).is_none());
}

#[test]
fn reset_forgets_history() {
    let mut s = Scrollback::new();
    s.push(&row(1), 1);
    s.reset();
    assert_eq!(s.count, 0);
    assert_eq!(s.write_pos, 0);
    assert!(s.get_line(0).is_none());
}
