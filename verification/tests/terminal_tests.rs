use wterm::cell::{Cell, DEFAULT_COLOR, FLAG_BOLD, FLAG_ITALIC, FLAG_UNDERLINE, RGB_COLOR_BASE};
use wterm::terminal::Terminal;

fn term(cols: u16, rows: u16) -> Terminal {
    let mut t = Terminal::new();
    t.reset(cols, rows);
    t
}

fn line(t: &Terminal, row: usize) -> String {
    t.grid.cells[row][..t.cols as usize]
        .iter()
        .map(|c| char::from_u32(c.char).unwrap())
        .collect::<String>()
}

#[test]
fn new_terminal_is_one_by_one() {
    let t = Terminal::new();
    assert_eq!((t.cols, t.rows), (1, 1));
    assert_eq!((t.cursor_row, t.cursor_col), (0, 0));
    assert!(t.cursor_visible);
    assert!(!t.using_alt_screen);
    assert_eq!(t.scrollback.count, 0);
    assert_eq!(t.tab_stops[8], 1);
    assert_eq!(t.tab_stops[0], 0);
    assert_eq!(t.tab_stops[9], 0);
}

#[test]
fn text_is_written_at_the_cursor() {
    let mut t = term(10, 3);
    t.write(b"hello");
    assert_eq!(line(&t, 0), "hello     ");
    assert_eq!((t.cursor_row, t.cursor_col), (0, 5));
}

#[test]
fn crlf_moves_to_next_line() {
    let mut t = term(10, 3);
    t.write(b"ab\r\ncd");
    assert_eq!(line(&t, 0), "ab        ");
    assert_eq!(line(&t, 1), "cd        ");
    assert_eq!((t.cursor_row, t.cursor_col), (1, 2));
}

#[test]
fn wrap_happens_on_the_next_character() {
    let mut t = term(3, 2);
    t.write(b"abc");
    assert_eq!((t.cursor_row, t.cursor_col), (0, 2));
    assert!(t.wrap_pending);
    t.write(b"d");
    assert_eq!(line(&t, 1), "d  ");
    assert_eq!((t.cursor_row, t.cursor_col), (1, 1));
}

#[test]
fn autowrap_off_overwrites_last_column() {
    let mut t = term(3, 2);
    t.write(b"\x1b[?7labcd");
    assert_eq!(line(&t, 0), "abd");
    assert!(!t.wrap_pending);
}

#[test]
fn scrolling_sends_top_line_to_scrollback() {
    let mut t = term(4, 2);
    t.write(b"one\r\ntwo\r\nsix");
    assert_eq!(line(&t, 0), "two ");
    assert_eq!(line(&t, 1), "six ");
    assert_eq!(t.scrollback.count, 1);
    let saved = t.scrollback.get_line(0).unwrap();
    assert_eq!(saved.len, 4);
    assert_eq!(saved.cells[0].char, 'o' as u32);
    assert_eq!(saved.cells[2].char, 'e' as u32);
}

#[test]
fn scroll_region_keeps_lines_outside_it() {
    let mut t = term(3, 4);
    t.write(b"a\r\nb\r\nc\r\nd");
    t.write(b"\x1b[2;3r");
    assert_eq!((t.cursor_row, t.cursor_col), (0, 0));
    t.write(b"\x1b[3;1H\n");
    assert_eq!(line(&t, 0), "a  ");
    assert_eq!(line(&t, 1), "c  ");
    assert_eq!(line(&t, 2), "   ");
    assert_eq!(line(&t, 3), "d  ");
    assert_eq!(t.scrollback.count, 0);
}

#[test]
fn cursor_movement_is_clamped() {
    let mut t = term(10, 5);
    t.write(b"\x1b[3;4H");
    assert_eq!((t.cursor_row, t.cursor_col), (2, 3));
    t.write(b"\x1b[99B");
    assert_eq!(t.cursor_row, 4);
    t.write(b"\x1b[99C");
    assert_eq!(t.cursor_col, 9);
    t.write(b"\x1b[2D");
    assert_eq!(t.cursor_col, 7);
    t.write(b"\x1b[A");
    assert_eq!(t.cursor_row, 3);
    t.write(b"\x1b[G");
    assert_eq!(t.cursor_col, 0);
    t.write(b"\x1b[2d");
    assert_eq!(t.cursor_row, 1);
    t.write(b"\x1b[5`");
    assert_eq!(t.cursor_col, 4);
    t.write(b"\x1b[E");
    assert_eq!((t.cursor_row, t.cursor_col), (2, 0));
    t.write(b"\x1b[3C\x1b[F");
    assert_eq!((t.cursor_row, t.cursor_col), (1, 0));
    t.write(b"\x1b[0;0f");
    assert_eq!((t.cursor_row, t.cursor_col), (0, 0));
}

#[test]
fn tab_moves_to_next_stop() {
    let mut t = term(20, 2);
    t.write(b"\t");
    assert_eq!(t.cursor_col, 8);
    t.write(b"\t");
    assert_eq!(t.cursor_col, 16);
    t.write(b"\t");
    assert_eq!(t.cursor_col, 19);
    t.write(b"\r\x1b[3G\x1bH\r\t");
    assert_eq!(t.cursor_col, 2);
    t.write(b"\x1b[3g\r\t");
    assert_eq!(t.cursor_col, 19);
}

#[test]
fn backspace_stops_at_column_zero() {
    let mut t = term(5, 1);
    t.write(b"ab\x08");
    assert_eq!(t.cursor_col, 1);
    t.write(b"\x08\x08\x08");
    assert_eq!(t.cursor_col, 0);
}

#[test]
fn linefeed_mode_adds_carriage_return() {
    let mut t = term(5, 3);
    t.write(b"\x1b[?20hab\n");
    assert_eq!((t.cursor_row, t.cursor_col), (1, 0));
}

#[test]
fn erase_in_line_modes() {
    let mut t = term(5, 1);
    t.write(b"abcde\x1b[3G\x1b[K");
    assert_eq!(line(&t, 0), "ab   ");
    t.write(b"\rabcde\x1b[3G\x1b[1K");
    assert_eq!(line(&t, 0), "   de");
    t.write(b"\x1b[2K");
    assert_eq!(line(&t, 0), "     ");
}

#[test]
fn erase_in_display_modes() {
    let mut t = term(3, 3);
    t.write(b"abc\r\ndef\r\nghi\x1b[2;2H\x1b[J");
    assert_eq!(line(&t, 0), "abc");
    assert_eq!(line(&t, 1), "d  ");
    assert_eq!(line(&t, 2), "   ");
    t.write(b"\x1b[1;1Habc\r\ndef\r\nghi\x1b[2;2H\x1b[1J");
    assert_eq!(line(&t, 0), "   ");
    assert_eq!(line(&t, 1), "  f");
    assert_eq!(line(&t, 2), "ghi");
    t.write(b"\x1b[2J");
    for r in 0..3 {
        assert_eq!(line(&t, r), "   ");
    }
}

#[test]
fn erase_uses_current_background() {
    let mut t = term(3, 1);
    t.write(b"\x1b[41m\x1b[2K");
    assert_eq!(t.grid.cells[0][0], Cell::blank_with_bg(1));
}

#[test]
fn erase_display_three_clears_scrollback() {
    let mut t = term(2, 1);
    t.write(b"a\r\nb");
    assert_eq!(t.scrollback.count, 1);
    t.write(b"\x1b[3J");
    assert_eq!(t.scrollback.count, 0);
}

#[test]
fn erase_characters() {
    let mut t = term(6, 1);
    t.write(b"abcdef\x1b[2G\x1b[3X");
    assert_eq!(line(&t, 0), "a   ef");
    t.write(b"\x1b[99X");
    assert_eq!(line(&t, 0), "a     ");
}

#[test]
fn insert_and_delete_characters() {
    let mut t = term(6, 1);
    t.write(b"abcdef\x1b[2G\x1b[2@");
    assert_eq!(line(&t, 0), "a  bcd");
    t.write(b"\x1b[3P");
    assert_eq!(line(&t, 0), "acd   ");
    t.write(b"\x1b[9@");
    assert_eq!(line(&t, 0), "a     ");
}

#[test]
fn insert_and_delete_lines() {
    let mut t = term(2, 4);
    t.write(b"a\r\nb\r\nc\r\nd\x1b[2;1H\x1b[L");
    assert_eq!(line(&t, 0), "a ");
    assert_eq!(line(&t, 1), "  ");
    assert_eq!(line(&t, 2), "b ");
    assert_eq!(line(&t, 3), "c ");
    t.write(b"\x1b[2M");
    assert_eq!(line(&t, 1), "c ");
    assert_eq!(line(&t, 2), "  ");
    assert_eq!(line(&t, 3), "  ");
}

#[test]
fn scroll_up_and_down_commands() {
    let mut t = term(2, 3);
    t.write(b"a\r\nb\r\nc\x1b[S");
    assert_eq!(line(&t, 0), "b ");
    assert_eq!(line(&t, 2), "  ");
    assert_eq!(t.scrollback.count, 1);
    t.write(b"\x1b[2T");
    assert_eq!(line(&t, 0), "  ");
    assert_eq!(line(&t, 2), "b ");
}

#[test]
fn reverse_index_at_top_scrolls_down() {
    let mut t = term(2, 3);
    t.write(b"a\r\nb\x1b[H\x1bM");
    assert_eq!(line(&t, 0), "  ");
    assert_eq!(line(&t, 1), "a ");
    assert_eq!(line(&t, 2), "b ");
    t.write(b"\x1b[3;1H\x1bM");
    assert_eq!(t.cursor_row, 1);
}

#[test]
fn index_and_next_line() {
    let mut t = term(3, 3);
    t.write(b"ab\x1bD");
    assert_eq!((t.cursor_row, t.cursor_col), (1, 2));
    t.write(b"\x1bE");
    assert_eq!((t.cursor_row, t.cursor_col), (2, 0));
}

#[test]
fn sgr_sets_style() {
    let mut t = term(5, 1);
    t.write(b"\x1b[1;3;4;31;42mx");
    let c = t.grid.cells[0][0];
    assert_eq!(c.fg, 1);
    assert_eq!(c.bg, 2);
    assert_eq!(c.flags, FLAG_BOLD | FLAG_ITALIC | FLAG_UNDERLINE);
    t.write(b"\x1b[22;39;49my");
    let c = t.grid.cells[0][1];
    assert_eq!(c.fg, DEFAULT_COLOR);
    assert_eq!(c.bg, DEFAULT_COLOR);
    assert_eq!(c.flags, FLAG_ITALIC | FLAG_UNDERLINE);
    t.write(b"\x1b[mz");
    assert_eq!(t.grid.cells[0][2].flags, 0);
}

#[test]
fn sgr_extended_colours() {
    let mut t = term(5, 1);
    t.write(b"\x1b[38;5;200;48;5;17m");
    assert_eq!((t.current_fg, t.current_bg), (200, 17));
    t.write(b"\x1b[38;2;255;0;0m");
    assert_eq!(t.current_fg, RGB_COLOR_BASE + 0xFF0000);
    t.write(b"\x1b[48;2;128;128;128m");
    assert_eq!(t.current_bg, RGB_COLOR_BASE + 0x808080);
    t.write(b"\x1b[38;2;0;0;0m");
    assert_eq!(t.current_fg, RGB_COLOR_BASE);
    t.write(b"\x1b[38;2;255;255;255m");
    assert_eq!(t.current_fg, RGB_COLOR_BASE + 0xFFFFFF);
    t.write(b"\x1b[91;102m");
    assert_eq!((t.current_fg, t.current_bg), (9, 10));
}

#[test]
fn sgr_underline_subparameter() {
    let mut t = term(5, 1);
    t.write(b"\x1b[4m");
    assert_eq!(t.current_flags, FLAG_UNDERLINE);
    t.write(b"\x1b[4:0m");
    assert_eq!(t.current_flags, 0);
    t.write(b"\x1b[4:3m");
    assert_eq!(t.current_flags, FLAG_UNDERLINE);
    t.write(b"\x1b[0m\x1b[58:2:1:2:3;1m");
    assert_eq!(t.current_flags, FLAG_BOLD);
}

#[test]
fn save_and_restore_cursor() {
    let mut t = term(10, 5);
    t.write(b"\x1b[2;3H\x1b[32m\x1b7\x1b[5;5H\x1b[0m\x1b8");
    assert_eq!((t.cursor_row, t.cursor_col), (1, 2));
    assert_eq!(t.current_fg, 2);
    t.write(b"\x1b[4;4H\x1b[s\x1b[H\x1b[u");
    assert_eq!((t.cursor_row, t.cursor_col), (3, 3));
    t.write(b"\x1b[?1048h\x1b[H\x1b[?1048l");
    assert_eq!((t.cursor_row, t.cursor_col), (3, 3));
}

#[test]
fn device_status_report() {
    let mut t = term(80, 24);
    t.write(b"\x1b[5;12H\x1b[6n");
    assert_eq!(&t.response_buf[..t.response_len as usize], b"\x1b[5;12R");
    t.write(b"\x1b[24;80H\x1b[6n");
    assert_eq!(&t.response_buf[..t.response_len as usize], b"\x1b[24;80R");
}

#[test]
fn osc_sets_title() {
    let mut t = term(10, 2);
    t.write(b"\x1b]0;my title\x07");
    assert_eq!(&t.title_buf[..t.title_len as usize], b"my title");
    assert!(t.title_changed);
    t.write(b"\x1b]2;other\x1b\\");
    assert_eq!(&t.title_buf[..t.title_len as usize], b"other");
    t.write(b"\x1b]1;icon\x07");
    assert_eq!(&t.title_buf[..t.title_len as usize], b"other");
}

#[test]
fn long_title_is_cut_to_buffer() {
    let mut t = term(10, 2);
    let mut seq = b"\x1b]0;".to_vec();
    seq.extend(std::iter::repeat(b'x').take(400));
    seq.push(7);
    t.write(&seq);
    assert_eq!(t.title_len, 256);
}

#[test]
fn private_modes() {
    let mut t = term(10, 2);
    t.write(b"\x1b[?1;25;2004l");
    assert!(!t.cursor_visible);
    t.write(b"\x1b[?1;2004h");
    assert!(t.cursor_keys_app);
    assert!(t.bracketed_paste);
    t.write(b"\x1b[?25h\x1b[?6h\x1b[?12h");
    assert!(t.cursor_visible);
    assert!(t.origin_mode);
}

#[test]
fn alternate_screen_round_trip() {
    let mut t = term(5, 2);
    t.write(b"main\x1b[2;2H");
    t.write(b"\x1b[?1049h");
    assert!(t.using_alt_screen);
    assert_eq!(line(&t, 0), "     ");
    t.write(b"\x1b[Halt");
    t.write(b"\x1b[?1049l");
    assert!(!t.using_alt_screen);
    assert_eq!(line(&t, 0), "main ");
    assert_eq!((t.cursor_row, t.cursor_col), (1, 1));
    t.write(b"\x1b[?47hxx\x1b[?47l");
    assert_eq!(line(&t, 0), "main ");
}

#[test]
fn alternate_screen_does_not_feed_scrollback() {
    let mut t = term(2, 1);
    t.write(b"\x1b[?1049ha\r\nb\r\nc");
    assert_eq!(t.scrollback.count, 0);
}

#[test]
fn decaln_fills_screen() {
    let mut t = term(3, 2);
    t.write(b"\x1b[2;2H\x1b#8");
    assert_eq!(line(&t, 0), "EEE");
    assert_eq!(line(&t, 1), "EEE");
    assert_eq!((t.cursor_row, t.cursor_col), (0, 0));
}

#[test]
fn full_reset_keeps_size() {
    let mut t = term(7, 3);
    t.write(b"abc\x1b[31m\x1bc");
    assert_eq!((t.cols, t.rows), (7, 3));
    assert_eq!(line(&t, 0), "       ");
    assert_eq!(t.current_fg, DEFAULT_COLOR);
}

#[test]
fn soft_reset() {
    let mut t = term(7, 3);
    t.write(b"\x1b[?25l\x1b[31m\x1b[2;3r\x1b[!p");
    assert!(t.cursor_visible);
    assert_eq!(t.current_fg, DEFAULT_COLOR);
    assert_eq!((t.scroll_top, t.scroll_bottom), (0, 3));
}

#[test]
fn unhandled_sequences_are_logged() {
    let mut t = term(7, 3);
    t.write(b"\x1b[1;2;3;4;5y\x1b[>0c\x1b[?9z");
    assert_eq!(t.debug_log_count, 3);
    assert_eq!(t.debug_log[0].final_byte, b'y');
    assert_eq!(t.debug_log[0].param_count, 5);
    assert_eq!(t.debug_log[0].params, [1, 2, 3, 4]);
    assert_eq!(t.debug_log[1].private_marker, b'>');
    assert_eq!(t.debug_log[2].private_marker, b'?');
    assert_eq!(t.debug_log_idx, 3);
    for _ in 0..40 {
        t.write(b"\x1b[y");
    }
    assert_eq!(t.debug_log_count, 43);
    assert_eq!(t.debug_log_idx, 11);
}

#[test]
fn resize_shrinks_and_keeps_what_fits() {
    let mut t = term(4, 3);
    t.write(b"abcd\r\nefgh\r\nijkl");
    t.resize(2, 2);
    assert_eq!((t.cols, t.rows), (2, 2));
    assert_eq!(line(&t, 0), "ab");
    assert_eq!(line(&t, 1), "ef");
    assert_eq!(t.grid.cells[0][2], Cell::blank());
    assert_eq!(t.scrollback.count, 1);
    let saved = t.scrollback.get_line(0).unwrap();
    assert_eq!(saved.len, 2);
    assert_eq!(saved.cells[0].char, 'i' as u32);
    assert_eq!((t.cursor_row, t.cursor_col), (1, 1));
    assert_eq!((t.scroll_top, t.scroll_bottom), (0, 2));
}

#[test]
fn resize_grows_with_blanks() {
    let mut t = term(2, 1);
    t.write(b"ab");
    t.resize(4, 3);
    assert_eq!(line(&t, 0), "ab  ");
    assert_eq!(line(&t, 2), "    ");
    assert!(t.grid.dirty[..3].iter().all(|d| *d == 1));
}

#[test]
fn resize_clamps_and_same_size_is_noop() {
    let mut t = term(2, 1);
    t.resize(0, 1000);
    assert_eq!((t.cols, t.rows), (1, 256));
    t.grid.clear_dirty();
    t.resize(1, 256);
    assert!(t.grid.dirty.iter().all(|d| *d == 0));
}

#[test]
fn writing_in_two_parts_is_writing_once() {
    let data: &[u8] = b"ab\x1b[3";
    let rest: &[u8] = b"1mcd\r\nef\x1b[2;2Hg";
    let mut one = term(6, 3);
    let mut whole = data.to_vec();
    whole.extend_from_slice(rest);
    one.write(&whole);
    let mut two = term(6, 3);
    two.write(data);
    two.write(rest);
    assert_eq!(one.grid.cells, two.grid.cells);
    assert_eq!((one.cursor_row, one.cursor_col), (two.cursor_row, two.cursor_col));
    assert_eq!(one.current_fg, two.current_fg);
}

#[test]
fn accepts_refuses_an_erase_past_the_right_margin() {
    let mut t = term(80, 5);
    t.write(b"\x1b[1;71H\x1b7");
    t.resize(40, 5);
    t.write(b"\x1b8");
    assert_eq!(t.cursor_col, 70);
    for b in b"\x1b[" {
        assert!(t.accepts(*b));
        t.write(&[*b]);
    }
    assert!(!t.accepts(b'K'));
    assert!(!t.accepts(b'X'));
    assert!(t.accepts(b'A'));
}

#[test]
fn accepts_ordinary_input() {
    let mut t = term(80, 5);
    for b in b"hello\x1b[K\x1b[2J\x1b[5X\x1b[3@\x1b[99@" {
        assert!(t.accepts(*b));
        t.write(&[*b]);
    }
}

#[test]
fn reset_twice_is_reset_once() {
    let mut t = term(5, 3);
    t.write(b"abc\x1b[31m\x1b[?1h\x1b]0;t\x07");
    t.reset(5, 3);
    let cells = t.grid.cells.clone();
    let dirty = t.grid.dirty.clone();
    t.reset(5, 3);
    assert_eq!(t.grid.cells, cells);
    assert_eq!(t.grid.dirty, dirty);
    assert_eq!((t.cursor_row, t.cursor_col, t.current_fg), (0, 0, DEFAULT_COLOR));
    assert!(!t.cursor_keys_app);
    assert_eq!(t.title_len, 0);
}

#[test]
fn debug_log_entry_default_is_zero() {
    let e = wterm::terminal::DebugLogEntry::default();
    assert_eq!((e.final_byte, e.private_marker, e.param_count, e._pad), (0, 0, 0, 0));
    assert_eq!(e.params, [0, 0, 0, 0]);
}

#[test]
fn printing_marks_the_row_dirty() {
    let mut t = term(5, 3);
    t.grid.clear_dirty();
    t.write(b"\x1b[2;1Hx");
    assert_eq!(&t.grid.dirty[..3], &[0, 1, 0]);
}

#[test]
fn every_changed_row_is_dirty_after_write() {
    let mut t = term(4, 4);
    t.write(b"a\r\nb\r\nc\r\nd");
    t.grid.clear_dirty();
    let before = t.grid.cells.clone();
    t.write(b"\x1b[2;1H\x1b[M\x1b[4;2Hz\x1b[1;1H\x1b[K");
    for r in 0..4 {
        if t.grid.cells[r] != before[r] {
            assert_eq!(t.grid.dirty[r], 1);
        }
    }
    assert_eq!(t.grid.dirty[0], 1);
    assert_eq!(t.grid.dirty[1], 1);
}

#[test]
fn direct_colours_stay_distinct() {
    let mut t = term(4, 1);
    t.write(b"\x1b[38;2;255;0;0mA\x1b[38;2;250;0;0mB\x1b[48;2;1;2;3mC");
    let a = t.grid.cells[0][0];
    let b = t.grid.cells[0][1];
    let c = t.grid.cells[0][2];
    assert_eq!(a.fg, RGB_COLOR_BASE + 0xFF0000);
    assert_eq!(b.fg, RGB_COLOR_BASE + 0xFA0000);
    assert_ne!(a.fg, b.fg);
    assert_eq!(c.bg, RGB_COLOR_BASE + 0x010203);
    assert_eq!(c.fg, b.fg);
}

#[test]
fn charset_designations_change_nothing() {
    let mut t = term(5, 3);
    t.write(b"ab");
    t.write(b"\x1b7");
    t.write(b"\x1b[2;3H");
    let before = (t.cursor_row, t.cursor_col, t.saved_cursor_row, t.saved_cursor_col);
    t.write(b"\x1b(7\x1b(E\x1b(H\x1b)0\x1b(B\x1b(8\x1b(D\x1b(c");
    assert_eq!((t.cursor_row, t.cursor_col, t.saved_cursor_row, t.saved_cursor_col), before);
    assert_eq!(line(&t, 0), "ab   ");
    assert_eq!(t.tab_stops[2], 0);
    t.write(b"x");
    assert_eq!(line(&t, 1), "  x  ");
}

#[test]
fn leaving_alternate_screen_after_resize_fits_main_screen() {
    let mut t = term(6, 4);
    t.write(b"one\r\ntwo\r\nthree\r\nfour");
    t.write(b"\x1b[?1049h");
    t.resize(3, 2);
    t.write(b"\x1b[?1049l");
    assert!(!t.using_alt_screen);
    assert_eq!((t.cols, t.rows), (3, 2));
    assert_eq!((t.grid.cols, t.grid.rows), (3, 2));
    assert!(t.cursor_row < t.rows && t.cursor_col < t.cols);
    assert_eq!(line(&t, 0), "one");
    assert_eq!(line(&t, 1), "two");
    assert_eq!(t.scrollback.count, 2);
    assert_eq!((t.scroll_top, t.scroll_bottom), (0, 2));
    assert_eq!(t.grid.dirty[0], 1);
    assert_eq!(t.grid.dirty[1], 1);
}

#[test]
fn leaving_alternate_screen_after_growing_blanks_new_area() {
    let mut t = term(3, 2);
    t.write(b"abc\r\ndef");
    t.write(b"\x1b[?47h");
    t.resize(5, 3);
    t.write(b"\x1b[?47l");
    assert_eq!((t.grid.cols, t.grid.rows), (5, 3));
    assert_eq!(line(&t, 0), "abc  ");
    assert_eq!(line(&t, 1), "def  ");
    assert_eq!(line(&t, 2), "     ");
    assert_eq!(t.scrollback.count, 0);
}

#[test]
fn cursor_report_at_largest_position() {
    let mut t = term(256, 256);
    t.write(b"\x1b[256;256H\x1b[6n");
    assert_eq!(&t.response_buf[..t.response_len as usize], b"\x1b[256;256R");
}

#[test]
fn any_bytes_keep_cursor_on_screen() {
    let mut t = term(7, 4);
    let mut data: Vec<u8> = Vec::new();
    let mut x: u32 = 12345;
    for _ in 0..4000 {
        x = x.wrapping_mul(1103515245).wrapping_add(12345);
        let pick = (x >> 16) % 6;
        let b = match pick {
            0 => 0x1b,
            1 => b'[',
            2 => b"0123456789;?"[((x >> 8) % 12) as usize],
            3 => b"ABCDEFGHJKLMPSTXZ@`abdefghlmnrsu78DEMc#()"[((x >> 4) % 41) as usize],
            4 => b"\r\n\x08\t"[((x >> 3) % 4) as usize],
            _ => (x >> 20) as u8,
        };
        data.push(b);
    }
    for chunk in data.chunks(13) {
        for &b in chunk {
            assert!(t.accepts(b));
            t.write(&[b]);
        }
        assert!((t.cols, t.rows) == (7, 4));
        assert_eq!((t.grid.cols, t.grid.rows), (7, 4));
        assert!(t.cursor_row < t.rows && t.cursor_col < t.cols);
        assert!(t.saved_cursor_row < t.rows && t.saved_cursor_col < t.cols);
        assert!(t.scroll_top < t.scroll_bottom && t.scroll_bottom <= t.rows);
    }
}

#[test]
fn alternate_screen_round_trip_with_output() {
    let mut t = term(4, 3);
    t.write(b"ab\r\ncd\x1b[31m\x1b[2;3H");
    let cells = t.grid.cells.clone();
    let before = (t.cursor_row, t.cursor_col, t.current_fg, t.current_bg, t.current_flags);
    t.write(b"\x1b[?1049h\x1b[1mxyz\r\n\r\n\r\n\r\nmore\x1b[2J\x1b[H\x1b[44mq");
    assert!(t.using_alt_screen);
    t.write(b"\x1b[?1049l");
    assert_eq!(t.grid.cells, cells);
    assert_eq!((t.cursor_row, t.cursor_col, t.current_fg, t.current_bg, t.current_flags), before);
    assert!((0..3).all(|r| t.grid.dirty[r] == 1));
    assert_eq!(t.scrollback.count, 0);
}
