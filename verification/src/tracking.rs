use vstd::prelude::*;
use crate::grid::{GridView, MAX_ROWS, changes_marked, lemma_changes_marked_trans, lemma_operations_mark_changes,
    lemma_operations_keep_shape};
use crate::parser::{Action, Parser};
use crate::dispatch::modes_from;
use crate::terminal::TerminalView;

verus! {

/// Dirty-row tracking on the screen: every row of `u`'s screen whose cells differ from
/// those of `t`, or that was already dirty in `t`, is dirty in `u`.
pub open spec fn screen_changes_marked(t: TerminalView, u: TerminalView) -> bool {
    forall|r: int| 0 <= r < u.rows && #[trigger] u.grid.dirty[r] != 1 ==>
        u.grid.cells[r] == t.grid.cells[r] && t.grid.dirty[r] != 1
}

/// A grid change that marks its changes marks them on the screen.
pub proof fn lemma_screen_from_grid(t: TerminalView, u: TerminalView)
    requires
        changes_marked(t.grid, u.grid),
        u.rows <= MAX_ROWS,
    ensures
        screen_changes_marked(t, u),
{
}

/// Two steps that each mark their changes mark the changes of both, on a screen that
/// does not grow in between.
pub proof fn lemma_screen_trans(t: TerminalView, u: TerminalView, v: TerminalView)
    requires
        screen_changes_marked(t, u),
        screen_changes_marked(u, v),
        v.rows <= u.rows,
    ensures
        screen_changes_marked(t, v),
{
    assert forall|r: int| 0 <= r < v.rows && #[trigger] v.grid.dirty[r] != 1 implies
        v.grid.cells[r] == t.grid.cells[r] && t.grid.dirty[r] != 1 by {
        assert(u.grid.dirty[r] != 1);
    }
}

/// An operation that leaves the grid and the size alone marks nothing it had to.
pub proof fn lemma_screen_same(t: TerminalView, u: TerminalView)
    requires
        u.grid == t.grid,
        u.rows == t.rows,
    ensures
        screen_changes_marked(t, u),
{
}

/// Writing one row and marking it dirty marks its change.
proof fn lemma_with_row_marks(g: GridView, row: int, cells: Seq<crate::cell::Cell>)
    requires
        g.wf(),
        0 <= row < MAX_ROWS,
    ensures
        changes_marked(g, g.with_row(row, cells)),
{
}

proof fn lemma_linefeed_marks(t: TerminalView)
    requires
        t.wf(),
    ensures
        screen_changes_marked(t, t.linefeed()),
        t.linefeed().rows == t.rows,
        t.linefeed().grid.wf(),
        t.linefeed().grid.fits(),
        t.linefeed().cursor_row < MAX_ROWS,
{
    lemma_operations_mark_changes(t.grid, 0, 0, t.blank(), 0, 0, t.scroll_top, t.scroll_bottom, 1, 0, 0, 0);
    lemma_operations_keep_shape(t.grid, 0, 0, t.blank(), 0, 0, t.scroll_top, t.scroll_bottom, 1, 0);
}

proof fn lemma_print_marks(t: TerminalView, cp: u32)
    requires
        t.wf(),
    ensures
        screen_changes_marked(t, t.print(cp)),
        t.print(cp).rows == t.rows,
{
    let t1 = if t.wrap_pending {
        TerminalView { wrap_pending: false, ..TerminalView { cursor_col: 0, ..t }.linefeed() }
    } else {
        t
    };
    if t.wrap_pending {
        let s = TerminalView { cursor_col: 0, ..t };
        lemma_linefeed_marks(s);
        lemma_screen_trans(t, s, s.linefeed());
        lemma_screen_same(s.linefeed(), t1);
        lemma_screen_trans(t, s.linefeed(), t1);
    } else {
        lemma_screen_same(t, t1);
    }
    assert(t1.grid.wf() && t1.grid.fits());
    lemma_operations_mark_changes(t1.grid, t1.cursor_row, t1.cursor_col, t1.styled(cp), 0, 0, 0, 0, 0, 0, 0, 0);
    let t2 = TerminalView { grid: t1.grid.set_cell(t1.cursor_row, t1.cursor_col, t1.styled(cp)), ..t1 };
    lemma_screen_from_grid(t1, t2);
    lemma_screen_trans(t, t1, t2);
    lemma_screen_same(t2, t.print(cp));
    lemma_screen_trans(t, t2, t.print(cp));
}

proof fn lemma_execute_marks(t: TerminalView, byte: u8)
    requires
        t.wf(),
    ensures
        screen_changes_marked(t, t.execute_control(byte)),
        t.execute_control(byte).rows == t.rows,
{
    if 0x0A <= byte <= 0x0C {
        lemma_linefeed_marks(t);
        let u = t.linefeed();
        if u.linefeed_mode {
            lemma_screen_same(u, u.carriage_return());
            lemma_screen_trans(t, u, u.carriage_return());
        }
    } else {
        lemma_screen_same(t, t.execute_control(byte));
    }
}

proof fn lemma_reset_marks(t: TerminalView, cols: u16, rows: u16)
    requires
        t.wf(),
        rows <= MAX_ROWS,
    ensures
        screen_changes_marked(t, t.reset(cols, rows)),
{
    lemma_operations_mark_changes(t.grid, 0, 0, t.blank(), 0, 0, 0, 0, 0, 0, cols, rows);
    lemma_screen_from_grid(t, t.reset(cols, rows));
}

proof fn lemma_decaln_marks(t: TerminalView)
    requires
        t.wf(),
    ensures
        screen_changes_marked(t, t.decaln()),
        t.decaln().rows == t.rows,
{
    let u = t.decaln();
    assert forall|r: int| 0 <= r < u.rows && #[trigger] u.grid.dirty[r] != 1 implies
        u.grid.cells[r] == t.grid.cells[r] && t.grid.dirty[r] != 1 by {
        if r < t.shown_rows(t.rows as int) {
            assert(u.grid.cells[r] =~= t.grid.cells[r]);
        }
    }
}

/// The ESC sequences mark the rows they change and keep the size.
proof fn lemma_esc_marks(t: TerminalView)
    requires
        t.wf(),
    ensures
        screen_changes_marked(t, t.esc_dispatch()),
        t.esc_dispatch().rows == t.rows,
{
    let p = t.parser;
    let b = p.execute_byte;
    if p.intermediate_count > 0 {
        if p.intermediates[0] == 0x23 && b == 0x38 {
            lemma_decaln_marks(t);
        } else {
            lemma_screen_same(t, t.esc_dispatch());
        }
    } else if b == 0x44 {
        lemma_linefeed_marks(t);
    } else if b == 0x45 {
        let c = t.carriage_return();
        lemma_screen_same(t, c);
        lemma_linefeed_marks(c);
        lemma_screen_trans(t, c, c.linefeed());
    } else if b == 0x4D {
        lemma_operations_mark_changes(t.grid, 0, 0, t.blank(), 0, 0, t.scroll_top, t.scroll_bottom, 1, 0, 0, 0);
        lemma_screen_from_grid(t, t.reverse_index());
    } else if b == 0x63 {
        lemma_reset_marks(t, t.cols, t.rows);
    } else {
        lemma_screen_same(t, t.esc_dispatch());
    }
}

/// The editing sequences (ED, EL, ECH, IL, DL, DCH, ICH, SU, SD) mark the rows they
/// change and keep the size.
proof fn lemma_edit_marks(t: TerminalView, mode: u16, n: u16)
    requires
        t.wf(),
    ensures
        screen_changes_marked(t, t.erase_in_display(mode)) && t.erase_in_display(mode).rows == t.rows,
        screen_changes_marked(t, t.erase_in_line(mode)) && t.erase_in_line(mode).rows == t.rows,
        screen_changes_marked(t, t.erase_chars(n)) && t.erase_chars(n).rows == t.rows,
        screen_changes_marked(t, t.insert_lines(n)) && t.insert_lines(n).rows == t.rows,
        screen_changes_marked(t, t.delete_lines(n)) && t.delete_lines(n).rows == t.rows,
        screen_changes_marked(t, t.delete_chars(n)) && t.delete_chars(n).rows == t.rows,
        screen_changes_marked(t, t.insert_blanks(n)) && t.insert_blanks(n).rows == t.rows,
        screen_changes_marked(t, t.scroll_up_n(n)) && t.scroll_up_n(n).rows == t.rows,
        screen_changes_marked(t, t.scroll_down_n(n)) && t.scroll_down_n(n).rows == t.rows,
{
    let g = t.grid;
    let b = t.blank();
    let k = crate::motion::at_least_one(n);
    // ED
    if mode == 0 {
        let g1 = g.clear_range_as(t.cursor_row, t.cursor_col, t.cols, b);
        lemma_operations_mark_changes(g, 0, t.cursor_col, b, 0, 0, 0, 0, 0, t.cols, 0, 0);
        lemma_operations_mark_changes(g, t.cursor_row, t.cursor_col, b, 0, 0, 0, 0, 0, t.cols, 0, 0);
        lemma_operations_keep_shape(g, t.cursor_row, t.cursor_col, b, 0, 0, 0, 0, 0, t.cols);
        lemma_operations_mark_changes(g1, 0, 0, b, t.cursor_row + 1, t.shown_rows(t.rows as int), 0, 0, 0, 0, 0, 0);
        lemma_changes_marked_trans(g, g1, t.erase_in_display(mode).grid);
    } else if mode == 1 {
        let g1 = g.fill_rows(0, t.shown_rows(t.cursor_row as int), b);
        lemma_operations_mark_changes(g, 0, 0, b, 0, t.shown_rows(t.cursor_row as int), 0, 0, 0, 0, 0, 0);
        lemma_operations_keep_shape(g, 0, 0, b, 0, t.shown_rows(t.cursor_row as int), 0, 0, 0, 0);
        lemma_operations_mark_changes(g1, t.cursor_row, 0, b, 0, 0, 0, 0, 0, (t.cursor_col + 1) as u16, 0, 0);
        lemma_changes_marked_trans(g, g1, t.erase_in_display(mode).grid);
    } else {
        lemma_operations_mark_changes(g, 0, 0, b, 0, t.shown_rows(t.rows as int), 0, 0, 0, 0, 0, 0);
    }
    lemma_screen_from_grid(t, t.erase_in_display(mode));
    // EL
    lemma_operations_mark_changes(g, t.cursor_row, t.cursor_col, b, 0, 0, 0, 0, 0, t.cols, 0, 0);
    lemma_operations_mark_changes(g, t.cursor_row, 0, b, 0, 0, 0, 0, 0, (t.cursor_col + 1) as u16, 0, 0);
    lemma_screen_from_grid(t, t.erase_in_line(mode));
    // ECH
    lemma_operations_mark_changes(g, t.cursor_row, t.cursor_col, b, 0, 0, 0, 0, 0, t.erase_end(n), 0, 0);
    lemma_screen_from_grid(t, t.erase_chars(n));
    // IL, DL
    lemma_operations_mark_changes(g, 0, 0, b, 0, 0, t.cursor_row, t.scroll_bottom, k, 0, 0, 0);
    lemma_screen_from_grid(t, t.insert_lines(n));
    lemma_screen_from_grid(t, t.delete_lines(n));
    // DCH, ICH
    lemma_with_row_marks(g, t.cursor_row as int, crate::edit::shifted_left(g.cells[t.cursor_row as int],
        t.cursor_col as int, k as int, t.cols as int, b));
    lemma_screen_from_grid(t, t.delete_chars(n));
    lemma_with_row_marks(g, t.cursor_row as int, crate::edit::shifted_right(g.cells[t.cursor_row as int],
        t.cursor_col as int, k as int, t.cols as int, b));
    lemma_screen_from_grid(t, t.insert_blanks(n));
    // SU, SD
    lemma_operations_mark_changes(g, 0, 0, b, 0, 0, t.scroll_top, t.scroll_bottom, k, 0, 0, 0);
    lemma_screen_from_grid(t, t.scroll_up_n(n));
    lemma_screen_from_grid(t, t.scroll_down_n(n));
}

/// Both screens have full-size arrays with the visible area inside them, and so does the
/// terminal's size.
spec fn screens_fit(t: TerminalView) -> bool {
    &&& t.grid.wf()
    &&& t.grid.fits()
    &&& t.alt_grid.wf()
    &&& t.alt_grid.fits()
    &&& t.rows <= MAX_ROWS
    &&& t.cols <= crate::grid::MAX_COLS
}

/// Blanking columns keeps the arrays' shape and the visible size.
proof fn lemma_blank_columns_shape(g: GridView, nrows: int, from: int, to: int)
    requires
        g.wf(),
    ensures
        g.blank_columns(nrows, from, to).wf(),
        g.blank_columns(nrows, from, to).cols == g.cols,
        g.blank_columns(nrows, from, to).rows == g.rows,
{
    let h = g.blank_columns(nrows, from, to);
    assert forall|r: int| 0 <= r < MAX_ROWS implies #[trigger] h.cells[r].len() == crate::grid::MAX_COLS by {
    }
}

/// Fitting a screen brought back from aside keeps both screens' shape and the size.
proof fn lemma_fit_screen_shape(t: TerminalView)
    requires
        screens_fit(t),
    ensures
        screens_fit(t.fit_screen()),
        t.fit_screen().rows == t.rows,
        t.fit_screen().cols == t.cols,
        t.fit_screen().alt_grid == t.alt_grid,
{
    reveal(TerminalView::fitted);
    let o = TerminalView { cols: t.grid.cols, rows: t.grid.rows, ..t };
    let c = o.cut_to_size(t.cols, t.rows);
    if t.cols < o.cols {
        lemma_blank_columns_shape(t.grid, crate::edit::min_int(t.rows as int, o.rows as int), t.cols as int, o.cols as int);
    }
    let k = c.take_size(t.cols, t.rows);
    assert(k.grid.wf() && k.grid.fits());
    let g3 = if k.rows > o.rows {
        k.grid.fill_rows(o.rows as int, k.rows as int, crate::cell::blank_cell_with_bg(crate::cell::DEFAULT_COLOR))
    } else {
        k.grid
    };
    lemma_operations_keep_shape(k.grid, 0, 0, crate::cell::blank_cell_with_bg(crate::cell::DEFAULT_COLOR),
        o.rows as int, k.rows as int, 0, 0, 0, 0);
    assert(g3.wf() && g3.fits() && g3.cols == t.cols && g3.rows == t.rows);
    let kept = crate::edit::min_int(o.rows as int, k.rows as int);
    lemma_blank_columns_shape(g3, kept, o.cols as int, k.cols as int);
}

proof fn lemma_switch_screen_marks(t: TerminalView, alt: bool, save_cursor: bool)
    requires
        screens_fit(t),
    ensures
        screen_changes_marked(t, t.switch_screen(alt, save_cursor)),
        t.switch_screen(alt, save_cursor).rows == t.rows,
        screens_fit(t.switch_screen(alt, save_cursor)),
{
    let u = t.switch_screen(alt, save_cursor);
    if alt != t.using_alt_screen {
        if alt {
            lemma_operations_mark_changes(t.grid, 0, 0, t.blank(), 0, 0, 0, 0, 0, 0, t.cols, t.rows);
            lemma_operations_keep_shape(t.grid, 0, 0, t.blank(), 0, 0, 0, t.rows, t.rows, t.cols);
            lemma_screen_from_grid(t, u);
        } else {
            let t1 = TerminalView { grid: t.alt_grid, using_alt_screen: false, ..t };
            let t2 = if save_cursor { t1.restore_cursor_from_alt() } else { t1 };
            lemma_fit_screen_shape(t2);
            assert(u.grid.dirty.len() == MAX_ROWS);
        }
    }
}

proof fn lemma_private_mode_marks(t: TerminalView, mode: u16, enabled: bool)
    requires
        screens_fit(t),
    ensures
        screen_changes_marked(t, t.private_mode(mode, enabled)),
        t.private_mode(mode, enabled).rows == t.rows,
        screens_fit(t.private_mode(mode, enabled)),
        t.private_mode(mode, enabled).parser == t.parser,
{
    if mode == 47 || mode == 1047 {
        lemma_switch_screen_marks(t, enabled, false);
    } else if mode == 1049 {
        lemma_switch_screen_marks(t, enabled, true);
    } else {
        lemma_screen_same(t, t.private_mode(mode, enabled));
    }
}

proof fn lemma_modes_marks(t: TerminalView, p: Parser, i: int, count: int, enabled: bool)
    requires
        screens_fit(t),
    ensures
        screen_changes_marked(t, modes_from(t, p, i, count, enabled)),
        modes_from(t, p, i, count, enabled).rows == t.rows,
        screens_fit(modes_from(t, p, i, count, enabled)),
    decreases count - i,
{
    if i >= count {
        lemma_screen_same(t, t);
    } else {
        let u = t.private_mode(p.params[i], enabled);
        lemma_private_mode_marks(t, p.params[i], enabled);
        lemma_modes_marks(u, p, i + 1, count, enabled);
        lemma_screen_trans(t, u, modes_from(u, p, i + 1, count, enabled));
    }
}

/// The CSI sequences mark the rows they change and keep the size.
proof fn lemma_csi_marks(t: TerminalView)
    requires
        t.wf(),
    ensures
        screen_changes_marked(t, t.csi_dispatch()),
        t.csi_dispatch().rows == t.rows,
{
    reveal(TerminalView::csi_dispatch);
    let p = t.parser;
    let f = p.execute_byte;
    let arg = p.param_or(0, 1);
    lemma_edit_marks(t, p.param_or(0, 0), arg);
    if p.csi_private == 0x3F {
        if f == 0x68 || f == 0x6C {
            let count: int = if p.param_count == 0 { 1 } else { p.param_count as int };
            lemma_modes_marks(t, p, 0, count, f == 0x68);
        } else {
            lemma_screen_same(t, t.csi_dispatch());
        }
    } else if p.csi_private == 0x21 && f == 0x70 {
        lemma_screen_same(t, t.csi_dispatch());
    } else if p.csi_private == 0x3E {
        lemma_screen_same(t, t.csi_dispatch());
    } else if f == 0x4A || f == 0x4B || f == 0x4C || f == 0x4D || f == 0x50 || f == 0x53 || f == 0x54
        || f == 0x58 || f == 0x40 {
    } else {
        lemma_screen_same(t, t.csi_dispatch());
    }
}

/// Dirty-row tracking: processing a byte marks every screen row whose cells it changes, clears
/// no dirty flag of the screen, and keeps the size.
pub proof fn lemma_step_marks_changes(t: TerminalView, byte: u8)
    requires
        t.wf(),
    ensures
        screen_changes_marked(t, t.step(byte)),
        t.step(byte).rows == t.rows,
{
    reveal(TerminalView::step);
    let (p, a) = t.parser.step(byte);
    let s = TerminalView { parser: p, ..t };
    assert(s.wf()) by {
        assert(p.wf()) by {
            crate::parser::lemma_step_wf(t.parser, byte);
        }
    }
    lemma_screen_same(t, s);
    if a == Action::Print {
        lemma_print_marks(s, p.print_char);
        lemma_screen_trans(t, s, s.print(p.print_char));
    } else if a == Action::Execute {
        lemma_execute_marks(s, p.execute_byte);
        lemma_screen_trans(t, s, s.execute_control(p.execute_byte));
    } else if a == Action::CsiDispatch {
        lemma_csi_marks(s);
        lemma_screen_trans(t, s, s.csi_dispatch());
    } else if a == Action::EscDispatch {
        lemma_esc_marks(s);
        lemma_screen_trans(t, s, s.esc_dispatch());
    } else if a == Action::OscDispatch {
        lemma_screen_same(s, s.osc());
        lemma_screen_trans(t, s, s.osc());
    }
}

/// A resize leaves every row of the new screen dirty, unless the size stays the same and
/// nothing changes at all.
pub proof fn lemma_resize_marks_all(t: TerminalView, cols: u16, rows: u16)
    requires
        t.wf(),
    ensures
        screen_changes_marked(t, t.resize(cols, rows)),
        t.resize(cols, rows) != t ==> forall|r: int| 0 <= r < t.resize(cols, rows).rows
            ==> #[trigger] t.resize(cols, rows).grid.dirty[r] == 1,
{
    let c = crate::terminal::clamped(cols, crate::grid::MAX_COLS as u16);
    let r = crate::terminal::clamped(rows, MAX_ROWS as u16);
    if c == t.cols && r == t.rows {
        lemma_screen_same(t, t.resize(cols, rows));
    } else {
        let t2 = t.cut_to_size(c, r).take_size(c, r);
        assert(t2.grid.dirty.len() == MAX_ROWS);
        assert(t2.grid.wf());
        lemma_operations_keep_shape(t2.grid, 0, 0, crate::cell::blank_cell_with_bg(crate::cell::DEFAULT_COLOR),
            t.rows as int, r as int, 0, 0, 0, 0);
        let t3 = t2.blank_new_area(t.cols, t.rows);
        assert(t3.grid.dirty.len() == MAX_ROWS);
    }
}

} // verus!
