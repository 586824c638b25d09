use wterm::terminal::Terminal;
use wterm::{clamp_dimension, clearDirty, clearResponse, getScrollbackLineLen, getTitleChanged, init, resizeTerminal};

#[test]
fn clamp_dimension_bounds() {
    assert_eq!(clamp_dimension(0, 256), 1);
    assert_eq!(clamp_dimension(300, 256), 256);
    assert_eq!(clamp_dimension(80, 256), 80);
    assert_eq!(clamp_dimension(256, 256), 256);
}

#[test]
fn init_resets_and_clears_scrollback() {
    let mut t = Terminal::new();
    init(&mut t, 4, 1);
    t.write(b"abc\r\ndef");
    assert_eq!(t.scrollback.count, 1);
    init(&mut t, 1000, 0);
    assert_eq!((t.cols, t.rows), (256, 1));
    assert_eq!(t.scrollback.count, 0);
    assert_eq!((t.cursor_row, t.cursor_col), (0, 0));
}

#[test]
fn resize_terminal_clamps() {
    let mut t = Terminal::new();
    init(&mut t, 10, 10);
    resizeTerminal(&mut t, 0, 500);
    assert_eq!((t.cols, t.rows), (1, 256));
}

#[test]
fn title_changed_is_read_once() {
    let mut t = Terminal::new();
    init(&mut t, 10, 2);
    assert_eq!(getTitleChanged(&mut t), 0);
    t.write(b"\x1b]2;x\x07");
    assert_eq!(getTitleChanged(&mut t), 1);
    assert_eq!(getTitleChanged(&mut t), 0);
}

#[test]
fn scrollback_line_length() {
    let mut t = Terminal::new();
    init(&mut t, 3, 1);
    assert_eq!(getScrollbackLineLen(&t, 0), 0);
    t.write(b"ab\r\n");
    assert_eq!(getScrollbackLineLen(&t, 0), 3);
    assert_eq!(getScrollbackLineLen(&t, 1), 0);
}

#[test]
fn clear_dirty_and_response() {
    let mut t = Terminal::new();
    init(&mut t, 3, 2);
    t.write(b"\x1b[6n");
    assert_eq!(t.response_len, 6);
    clearResponse(&mut t);
    assert_eq!(t.response_len, 0);
    clearDirty(&mut t);
    assert!(t.grid.dirty[..2].iter().all(|d| *d == 0));
}
