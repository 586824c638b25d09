use vstd::prelude::*;
use crate::grid::{MAX_COLS, MAX_ROWS, lemma_operations_keep_size};
use crate::parser::{Action, Parser};
use crate::dispatch::modes_from;
use crate::motion::{at_least_one, lemma_next_tab_stop};
use crate::terminal::{TerminalView, written, write_ok};

verus! {

impl TerminalView {
    /// The screen has the terminal's size, the cursor and the cursor saved by DECSC lie on
    /// it, the scroll region is a band of it, and there is a tab stop flag per column.
    pub open spec fn consistent(self) -> bool {
        &&& 1 <= self.cols <= MAX_COLS
        &&& 1 <= self.rows <= MAX_ROWS
        &&& self.grid.cols == self.cols
        &&& self.grid.rows == self.rows
        &&& self.cursor_row < self.rows
        &&& self.cursor_col < self.cols
        &&& self.saved_cursor_row < self.rows
        &&& self.saved_cursor_col < self.cols
        &&& self.scroll_top < self.scroll_bottom <= self.rows
        &&& self.tab_stops.len() == MAX_COLS
    }
}

/// A new terminal is consistent.
pub proof fn lemma_initial_consistent()
    ensures
        TerminalView::initial().consistent(),
{
}

/// A reset to a size in `1..=MAX` leaves the terminal consistent.
pub proof fn lemma_reset_consistent(t: TerminalView, cols: u16, rows: u16)
    requires
        1 <= cols <= MAX_COLS,
        1 <= rows <= MAX_ROWS,
    ensures
        t.reset(cols, rows).consistent(),
{
    lemma_operations_keep_size(t.grid, 0, 0, t.blank(), 0, 0, 0, 0, 0, 0, cols, rows);
}

proof fn lemma_linefeed_consistent(t: TerminalView)
    requires
        t.consistent(),
    ensures
        t.linefeed().consistent(),
{
    lemma_operations_keep_size(t.grid, 0, 0, t.blank(), 0, 0, t.scroll_top, t.scroll_bottom, 1, 0, 0, 0);
}

proof fn lemma_print_consistent(t: TerminalView, cp: u32)
    requires
        t.consistent(),
    ensures
        t.print(cp).consistent(),
{
    let s = TerminalView { cursor_col: 0, ..t };
    lemma_linefeed_consistent(s);
    let t1 = if t.wrap_pending { TerminalView { wrap_pending: false, ..s.linefeed() } } else { t };
    lemma_operations_keep_size(t1.grid, t1.cursor_row, t1.cursor_col, t1.styled(cp), 0, 0, 0, 0, 0, 0, 0, 0);
}

proof fn lemma_execute_consistent(t: TerminalView, byte: u8)
    requires
        t.consistent(),
    ensures
        t.execute_control(byte).consistent(),
{
    lemma_next_tab_stop(t.tab_stops, t.cursor_col + 1, t.cols as int);
    lemma_linefeed_consistent(t);
}

/// The editing sequences keep the terminal consistent.
proof fn lemma_edit_consistent(t: TerminalView, mode: u16, n: u16)
    requires
        t.consistent(),
    ensures
        t.erase_in_display(mode).consistent(),
        t.erase_in_line(mode).consistent(),
        t.erase_chars(n).consistent(),
        t.insert_lines(n).consistent(),
        t.delete_lines(n).consistent(),
        t.delete_chars(n).consistent(),
        t.insert_blanks(n).consistent(),
        t.scroll_up_n(n).consistent(),
        t.scroll_down_n(n).consistent(),
        t.decaln().consistent(),
        t.reverse_index().consistent(),
{
    let g = t.grid;
    let b = t.blank();
    let k = at_least_one(n);
    lemma_operations_keep_size(g, t.cursor_row, t.cursor_col, b, 0, t.shown_rows(t.cursor_row as int),
        t.cursor_row, t.scroll_bottom, k, t.cols, 0, 0);
    lemma_operations_keep_size(g, t.cursor_row, 0, b, 0, t.shown_rows(t.rows as int),
        t.scroll_top, t.scroll_bottom, k, (t.cursor_col + 1) as u16, 0, 0);
    lemma_operations_keep_size(g, t.cursor_row, t.cursor_col, b, 0, 0, t.scroll_top, t.scroll_bottom, 1,
        t.erase_end(n), 0, 0);
    let g0 = g.clear_range_as(t.cursor_row, t.cursor_col, t.cols, b);
    lemma_operations_keep_size(g0, 0, 0, b, t.cursor_row + 1, t.shown_rows(t.rows as int), 0, 0, 0, 0, 0, 0);
    let g1 = g.fill_rows(0, t.shown_rows(t.cursor_row as int), b);
    lemma_operations_keep_size(g1, t.cursor_row, 0, b, 0, 0, 0, 0, 0, (t.cursor_col + 1) as u16, 0, 0);
}

/// The screen brought back from aside has the terminal's size and the cursor on it.
proof fn lemma_fit_screen_consistent(t: TerminalView)
    requires
        1 <= t.cols <= MAX_COLS,
        1 <= t.rows <= MAX_ROWS,
    ensures
        t.fit_screen().grid.cols == t.cols,
        t.fit_screen().grid.rows == t.rows,
        t.fit_screen().cursor_row < t.rows,
        t.fit_screen().cursor_col < t.cols,
{
    reveal(TerminalView::fitted);
    let o = TerminalView { cols: t.grid.cols, rows: t.grid.rows, ..t };
    let k = o.cut_to_size(t.cols, t.rows).take_size(t.cols, t.rows);
    lemma_operations_keep_size(k.grid, 0, 0, crate::cell::blank_cell_with_bg(crate::cell::DEFAULT_COLOR),
        o.rows as int, k.rows as int, 0, 0, 0, 0, 0, 0);
}

proof fn lemma_switch_screen_consistent(t: TerminalView, alt: bool, save_cursor: bool)
    requires
        t.consistent(),
    ensures
        t.switch_screen(alt, save_cursor).consistent(),
{
    if alt != t.using_alt_screen {
        if alt {
            lemma_operations_keep_size(t.grid, 0, 0, t.blank(), 0, 0, 0, 0, 0, 0, t.cols, t.rows);
        } else {
            let t1 = TerminalView { grid: t.alt_grid, using_alt_screen: false, ..t };
            let t2 = if save_cursor { t1.restore_cursor_from_alt() } else { t1 };
            lemma_fit_screen_consistent(t2);
        }
    }
}

proof fn lemma_private_mode_consistent(t: TerminalView, mode: u16, enabled: bool)
    requires
        t.consistent(),
    ensures
        t.private_mode(mode, enabled).consistent(),
{
    lemma_switch_screen_consistent(t, enabled, false);
    lemma_switch_screen_consistent(t, enabled, true);
}

proof fn lemma_modes_consistent(t: TerminalView, p: Parser, i: int, count: int, enabled: bool)
    requires
        t.consistent(),
    ensures
        modes_from(t, p, i, count, enabled).consistent(),
    decreases count - i,
{
    if i < count {
        lemma_private_mode_consistent(t, p.params[i], enabled);
        lemma_modes_consistent(t.private_mode(p.params[i], enabled), p, i + 1, count, enabled);
    }
}

/// A CSI sequence can always be carried out on a consistent terminal.
proof fn lemma_csi_ok_consistent(t: TerminalView)
    requires
        t.consistent(),
    ensures
        t.csi_ok(),
{
}

/// A CSI sequence keeps a consistent terminal so.
#[verifier::spinoff_prover]
#[verifier::rlimit(100)]
proof fn lemma_csi_consistent(t: TerminalView)
    requires
        t.consistent(),
    ensures
        t.csi_dispatch().consistent(),
{
    let p = t.parser;
    let f = p.execute_byte;
    let arg = p.param_or(0, 1);
    lemma_edit_consistent(t, p.param_or(0, 0), arg);
    if p.csi_private == 0x3F {
        if f == 0x68 || f == 0x6C {
            let count: int = if p.param_count == 0 { 1 } else { p.param_count as int };
            lemma_modes_consistent(t, p, 0, count, f == 0x68);
        }
    }
    assert(t.csi_dispatch().consistent()) by {
        reveal(TerminalView::csi_dispatch);
    }
}

proof fn lemma_esc_consistent(t: TerminalView)
    requires
        t.consistent(),
    ensures
        t.esc_dispatch().consistent(),
{
    lemma_edit_consistent(t, 0, 0);
    lemma_linefeed_consistent(t);
    lemma_linefeed_consistent(t.carriage_return());
    lemma_reset_consistent(t, t.cols, t.rows);
}

/// One byte on a consistent terminal: it can be processed, and the terminal stays consistent.
pub proof fn lemma_step_consistent(t: TerminalView, byte: u8)
    requires
        t.consistent(),
    ensures
        t.step_ok(byte),
        t.step(byte).consistent(),
{
    reveal(TerminalView::step);
    let (p, a) = t.parser.step(byte);
    let s = TerminalView { parser: p, ..t };
    if a == Action::Print {
        lemma_print_consistent(s, p.print_char);
    } else if a == Action::Execute {
        lemma_execute_consistent(s, p.execute_byte);
    } else if a == Action::CsiDispatch {
        lemma_csi_ok_consistent(s);
        lemma_csi_consistent(s);
    } else if a == Action::EscDispatch {
        lemma_esc_consistent(s);
    }
}

/// A consistent terminal accepts any bytes at all: writing them can always be carried out,
/// and leaves it consistent, with the cursor on the screen and the screen the terminal's size.
pub proof fn lemma_write_consistent(t: TerminalView, data: Seq<u8>)
    requires
        t.consistent(),
    ensures
        write_ok(t, data),
        written(t, data).consistent(),
    decreases data.len(),
{
    if data.len() > 0 {
        lemma_step_consistent(t, data[0]);
        lemma_write_consistent(t.step(data[0]), data.drop_first());
    }
}

} // verus!
