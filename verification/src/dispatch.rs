use vstd::prelude::*;
use crate::grid::{GridView, fill_vec, fill_seq};
use crate::motion::at_least_one;
use crate::parser::{Parser, MAX_PARAMS};
use crate::terminal::{Terminal, TerminalView, written};

verus! {

impl TerminalView {
    /// Alternate screen on: the main screen is kept aside and a blank one shown; off: the
    /// kept screen comes back fitted to the current size (see `fit_screen`: the terminal may
    /// have been resized meanwhile), all of it marked dirty.  With `save_cursor` (mode 1049) the
    /// cursor and style are saved on the way in and restored on the way out.  Either way the
    /// scroll region becomes the whole screen.
    pub open spec fn switch_screen(self, alt: bool, save_cursor: bool) -> TerminalView {
        if alt == self.using_alt_screen {
            self
        } else if alt {
            let t = if save_cursor { self.save_cursor_to_alt() } else { self };
            TerminalView {
                alt_grid: t.grid,
                grid: t.grid.reset(t.cols, t.rows),
                using_alt_screen: true,
                scroll_top: 0,
                scroll_bottom: t.rows,
                ..t
            }
        } else {
            let t = TerminalView { grid: self.alt_grid, using_alt_screen: false, ..self };
            let t2 = if save_cursor { t.restore_cursor_from_alt() } else { t };
            let t3 = t2.fit_screen();
            TerminalView {
                grid: GridView { dirty: fill_seq(t3.grid.dirty, 0, t3.rows as int, 1u8), ..t3.grid },
                ..t3
            }
        }
    }

    /// DECSET / DECRST of one private mode.
    pub open spec fn private_mode(self, mode: u16, enabled: bool) -> TerminalView {
        if mode == 1 {
            TerminalView { cursor_keys_app: enabled, ..self }
        } else if mode == 6 {
            TerminalView { origin_mode: enabled, ..self }
        } else if mode == 7 {
            TerminalView { auto_wrap: enabled, ..self }
        } else if mode == 20 {
            TerminalView { linefeed_mode: enabled, ..self }
        } else if mode == 25 {
            TerminalView { cursor_visible: enabled, ..self }
        } else if mode == 47 || mode == 1047 {
            self.switch_screen(enabled, false)
        } else if mode == 1048 {
            if enabled { self.save_cursor() } else { self.restore_cursor() }
        } else if mode == 1049 {
            self.switch_screen(enabled, true)
        } else if mode == 2004 {
            TerminalView { bracketed_paste: enabled, ..self }
        } else {
            self
        }
    }

    /// Every mode listed (at least the first parameter) set or reset, in order.
    pub open spec fn set_private_modes(self, enabled: bool) -> TerminalView {
        let count: int = if self.parser.param_count == 0 { 1 } else { self.parser.param_count as int };
        modes_from(self, self.parser, 0, count, enabled)
    }

    pub open spec fn private_mode_dispatch(self, final_byte: u8) -> TerminalView {
        if final_byte == 0x68 {
            self.set_private_modes(true)
        } else if final_byte == 0x6C {
            self.set_private_modes(false)
        } else {
            self.log_unhandled(final_byte, 0x3F)
        }
    }

    /// What an ESC sequence does: DECSC, DECRC, IND, NEL, RI, RIS, HTS, and DECALN (`ESC # 8`).
    /// A sequence with an intermediate byte other than DECALN (such as the character set
    /// designations `ESC ( B` or `ESC ) 0`) changes nothing.
    pub open spec fn esc_dispatch(self) -> TerminalView {
        let p = self.parser;
        let b = p.execute_byte;
        if p.intermediate_count > 0 {
            if p.intermediates[0] == 0x23 && b == 0x38 { self.decaln() } else { self }
        } else if b == 0x37 {
            self.save_cursor()
        } else if b == 0x38 {
            self.restore_cursor()
        } else if b == 0x44 {
            self.linefeed()
        } else if b == 0x45 {
            self.carriage_return().linefeed()
        } else if b == 0x4D {
            self.reverse_index()
        } else if b == 0x63 {
            self.reset(self.cols, self.rows)
        } else if b == 0x48 {
            self.set_tab_stop()
        } else {
            self
        }
    }

    /// What a CSI sequence does, by its private marker and final byte.
    #[verifier::opaque]
    pub open spec fn csi_dispatch(self) -> TerminalView {
        let p = self.parser;
        let f = p.execute_byte;
        let arg = p.param_or(0, 1);
        if p.csi_private == 0x3F {
            self.private_mode_dispatch(f)
        } else if p.csi_private == 0x21 && f == 0x70 {
            self.soft_reset()
        } else if p.csi_private == 0x3E {
            self.log_unhandled(f, 0x3E)
        } else if f == 0x41 {
            self.cursor_up(arg)
        } else if f == 0x42 {
            self.cursor_down(arg)
        } else if f == 0x43 {
            self.cursor_forward(arg)
        } else if f == 0x44 {
            self.cursor_backward(arg)
        } else if f == 0x45 {
            TerminalView { cursor_col: 0, ..self.cursor_down(arg) }
        } else if f == 0x46 {
            TerminalView { cursor_col: 0, ..self.cursor_up(arg) }
        } else if f == 0x47 {
            self.cursor_to_column(arg)
        } else if f == 0x48 || f == 0x66 {
            self.cursor_position(arg, p.param_or(1, 1))
        } else if f == 0x4A {
            self.erase_in_display(p.param_or(0, 0))
        } else if f == 0x4B {
            self.erase_in_line(p.param_or(0, 0))
        } else if f == 0x4C {
            self.insert_lines(arg)
        } else if f == 0x4D {
            self.delete_lines(arg)
        } else if f == 0x50 {
            self.delete_chars(arg)
        } else if f == 0x53 {
            self.scroll_up_n(arg)
        } else if f == 0x54 {
            self.scroll_down_n(arg)
        } else if f == 0x58 {
            self.erase_chars(arg)
        } else if f == 0x61 {
            self.cursor_forward(arg)
        } else if f == 0x64 {
            self.cursor_to_row(arg)
        } else if f == 0x65 {
            self.cursor_down(arg)
        } else if f == 0x67 {
            self.clear_tab_stop(p.param_or(0, 0))
        } else if f == 0x6D {
            self.sgr()
        } else if f == 0x6E {
            self.device_status()
        } else if f == 0x72 {
            self.set_scroll_region(arg, p.param_or(1, self.rows))
        } else if f == 0x73 {
            self.save_cursor()
        } else if f == 0x74 {
            self
        } else if f == 0x75 {
            self.restore_cursor()
        } else if f == 0x40 {
            self.insert_blanks(arg)
        } else if f == 0x60 {
            self.cursor_to_column(arg)
        } else {
            self.log_unhandled(f, 0)
        }
    }

    /// The CSI sequence can be carried out: the erase operations that start at the cursor
    /// column (ED 0, EL 0, ECH, and ICH reaching the right margin) only run when the cursor
    /// column is not past the column they stop at, or the cursor row is off the grid.
    pub open spec fn csi_ok(self) -> bool {
        let p = self.parser;
        let f = p.execute_byte;
        let pr = p.csi_private;
        ||| pr == 0x3F
        ||| (pr == 0x21 && f == 0x70)
        ||| pr == 0x3E
        ||| {
            &&& ((f == 0x4A || f == 0x4B) && p.param_or(0, 0) == 0 ==> self.range_ok(self.cursor_col, self.cols))
            &&& (f == 0x58 ==> self.range_ok(self.cursor_col, self.erase_end(p.param_or(0, 1))))
            &&& (f == 0x40 && self.cursor_col + at_least_one(p.param_or(0, 1)) >= self.cols
                ==> self.range_ok(self.cursor_col, self.cols))
        }
    }
}

/// The private modes `params[i..count]` of `p` applied to `t` in order.
pub open spec fn modes_from(t: TerminalView, p: Parser, i: int, count: int, enabled: bool) -> TerminalView
    decreases count - i,
{
    if i >= count {
        t
    } else {
        modes_from(t.private_mode(p.params[i], enabled), p, i + 1, count, enabled)
    }
}

impl Terminal {
    /// Enters or leaves the alternate screen.
    #[verifier::spinoff_prover]
    #[verifier::rlimit(100)]
    fn switch_screen(&mut self, alt: bool, save_cursor: bool)
        requires
            old(self).wf(),
        ensures
            final(self).wf(),
            final(self)@ == old(self)@.switch_screen(alt, save_cursor),
    {
        if alt == self.using_alt_screen {
            return;
        }
        let ghost t0 = self@;
        if alt {
            if save_cursor {
                self.save_cursor_to_alt();
            }
            let ghost t = self@;
            assert(t == if save_cursor { t0.save_cursor_to_alt() } else { t0 });
            self.alt_grid = self.grid.duplicate();
            self.grid.reset(self.cols, self.rows);
            self.using_alt_screen = true;
            self.scroll_top = 0;
            self.scroll_bottom = self.rows;
            assert(self@ =~= (TerminalView {
                alt_grid: t.grid,
                grid: t.grid.reset(t.cols, t.rows),
                using_alt_screen: true,
                scroll_top: 0,
                scroll_bottom: t.rows,
                ..t
            }));
        } else {
            self.grid = self.alt_grid.duplicate();
            self.using_alt_screen = false;
            let ghost t = self@;
            assert(t == (TerminalView { grid: t0.alt_grid, using_alt_screen: false, ..t0 }));
            if save_cursor {
                self.restore_cursor_from_alt();
            }
            let ghost t2 = self@;
            assert(t2 == if save_cursor { t.restore_cursor_from_alt() } else { t });
            self.fit_screen();
            let ghost t3 = self@;
            let rows = self.rows as usize;
            fill_vec(&mut self.grid.dirty, 0, rows, 1u8);
            assert(self@ =~= (TerminalView {
                grid: GridView { dirty: fill_seq(t3.grid.dirty, 0, t3.rows as int, 1u8), ..t3.grid },
                ..t3
            }));
        }
    }

    /// DECSET / DECRST of one private mode.
    #[verifier::spinoff_prover]
    #[verifier::rlimit(100)]
    fn apply_private_mode(&mut self, mode: u16, enabled: bool)
        requires
            old(self).wf(),
        ensures
            final(self).wf(),
            final(self)@ == old(self)@.private_mode(mode, enabled),
            final(self).parser == old(self).parser,
    {
        if mode == 1 {
            self.cursor_keys_app = enabled;
        } else if mode == 6 {
            self.origin_mode = enabled;
        } else if mode == 7 {
            self.auto_wrap = enabled;
        } else if mode == 20 {
            self.linefeed_mode = enabled;
        } else if mode == 25 {
            self.cursor_visible = enabled;
        } else if mode == 47 || mode == 1047 {
            self.switch_screen(enabled, false);
        } else if mode == 1048 {
            if enabled {
                self.save_cursor();
            } else {
                self.restore_cursor();
            }
        } else if mode == 1049 {
            self.switch_screen(enabled, true);
        } else if mode == 2004 {
            self.bracketed_paste = enabled;
        }
    }

    fn set_private_mode(&mut self, enabled: bool)
        requires
            old(self).wf(),
        ensures
            final(self).wf(),
            final(self)@ == old(self)@.set_private_modes(enabled),
    {
        let count: u8 = if self.parser.param_count == 0 { 1 } else { self.parser.param_count };
        let ghost p = self.parser;
        let ghost target = old(self)@.set_private_modes(enabled);
        let mut i: usize = 0;
        while i < count as usize
            invariant
                self.wf(),
                self.parser == p,
                i <= count <= MAX_PARAMS,
                count as int == if p.param_count == 0 { 1 } else { p.param_count as int },
                modes_from(self@, p, i as int, count as int, enabled) == target,
            decreases count - i,
        {
            let mode = self.parser.params[i];
            self.apply_private_mode(mode, enabled);
            i += 1;
        }
    }

    fn handle_private_mode(&mut self, final_byte: u8)
        requires
            old(self).wf(),
        ensures
            final(self).wf(),
            final(self)@ == old(self)@.private_mode_dispatch(final_byte),
    {
        if final_byte == 0x68 {
            self.set_private_mode(true);
        } else if final_byte == 0x6C {
            self.set_private_mode(false);
        } else {
            self.log_unhandled(final_byte, 0x3F);
        }
    }

    /// Carries out the ESC sequence the parser has just finished.
    pub(crate) fn handle_esc(&mut self)
        requires
            old(self).wf(),
        ensures
            final(self).wf(),
            final(self)@ == old(self)@.esc_dispatch(),
    {
        let byte = self.parser.execute_byte;
        let has_inter = self.parser.intermediate_count > 0;
        let inter0 = if has_inter { self.parser.intermediates[0] } else { 0 };
        if has_inter {
            if inter0 == 0x23 && byte == 0x38 {
                self.decaln();
            }
            return;
        }
        if byte == 0x37 {
            self.save_cursor();
        } else if byte == 0x38 {
            self.restore_cursor();
        } else if byte == 0x44 {
            self.do_linefeed();
        } else if byte == 0x45 {
            self.carriage_return();
            self.do_linefeed();
        } else if byte == 0x4D {
            self.reverse_index();
        } else if byte == 0x63 {
            self.full_reset();
        } else if byte == 0x48 {
            self.set_tab_stop();
        }
    }

    /// RIS: a reset that keeps the current size.
    fn full_reset(&mut self)
        requires
            old(self).wf(),
        ensures
            final(self).wf(),
            final(self)@ == old(self)@.reset(old(self).cols, old(self).rows),
    {
        let cols = self.cols;
        let rows = self.rows;
        self.reset(cols, rows);
    }

    /// Carries out the CSI sequence the parser has just finished.
    #[verifier::spinoff_prover]
    #[verifier::rlimit(80)]
    pub(crate) fn handle_csi(&mut self)
        requires
            old(self).wf(),
            old(self)@.csi_ok(),
        ensures
            final(self).wf(),
            final(self)@ == old(self)@.csi_dispatch(),
    {
        proof { reveal(TerminalView::csi_dispatch); }
        let final_byte = self.parser.execute_byte;
        if self.parser.csi_private == 0x3F {
            self.handle_private_mode(final_byte);
            return;
        }
        if self.parser.csi_private == 0x21 && final_byte == 0x70 {
            self.soft_reset();
            return;
        }
        if self.parser.csi_private == 0x3E {
            self.log_unhandled(final_byte, 0x3E);
            return;
        }
        let arg = self.parser.get_param(0, 1);
        if final_byte == 0x41 {
            self.cursor_up(arg);
        } else if final_byte == 0x42 {
            self.cursor_down(arg);
        } else if final_byte == 0x43 {
            self.cursor_forward(arg);
        } else if final_byte == 0x44 {
            self.cursor_backward(arg);
        } else if final_byte == 0x45 {
            self.cursor_down(arg);
            self.cursor_col = 0;
        } else if final_byte == 0x46 {
            self.cursor_up(arg);
            self.cursor_col = 0;
        } else if final_byte == 0x47 {
            self.cursor_to_column(arg);
        } else if final_byte == 0x48 || final_byte == 0x66 {
            let col = self.parser.get_param(1, 1);
            self.cursor_position(arg, col);
        } else if final_byte == 0x4A {
            let mode = self.parser.get_param(0, 0);
            self.erase_in_display(mode);
        } else if final_byte == 0x4B {
            let mode = self.parser.get_param(0, 0);
            self.erase_in_line(mode);
        } else if final_byte == 0x4C {
            self.insert_lines(arg);
        } else if final_byte == 0x4D {
            self.delete_lines(arg);
        } else if final_byte == 0x50 {
            self.delete_chars(arg);
        } else if final_byte == 0x53 {
            self.scroll_up_n(arg);
        } else if final_byte == 0x54 {
            self.scroll_down_n(arg);
        } else if final_byte == 0x58 {
            self.erase_chars(arg);
        } else if final_byte == 0x61 {
            self.cursor_forward(arg);
        } else if final_byte == 0x64 {
            self.cursor_to_row(arg);
        } else if final_byte == 0x65 {
            self.cursor_down(arg);
        } else if final_byte == 0x67 {
            let mode = self.parser.get_param(0, 0);
            self.clear_tab_stop(mode);
        } else if final_byte == 0x6D {
            self.handle_sgr();
        } else if final_byte == 0x6E {
            self.handle_device_status();
        } else if final_byte == 0x72 {
            let bottom = self.parser.get_param(1, self.rows);
            self.set_scroll_region(arg, bottom);
        } else if final_byte == 0x73 {
            self.save_cursor();
        } else if final_byte == 0x74 {
        } else if final_byte == 0x75 {
            self.restore_cursor();
        } else if final_byte == 0x40 {
            self.insert_blanks(arg);
        } else if final_byte == 0x60 {
            self.cursor_to_column(arg);
        } else {
            self.log_unhandled(final_byte, 0);
        }
    }
}

/// What the alternate screen keeps of the main screen, and the size: unchanged from `t` to `u`.
pub open spec fn main_screen_kept(t: TerminalView, u: TerminalView) -> bool {
    &&& u.alt_grid == t.alt_grid
    &&& u.alt_saved_cursor_row == t.alt_saved_cursor_row
    &&& u.alt_saved_cursor_col == t.alt_saved_cursor_col
    &&& u.alt_saved_fg == t.alt_saved_fg
    &&& u.alt_saved_bg == t.alt_saved_bg
    &&& u.alt_saved_flags == t.alt_saved_flags
    &&& u.cols == t.cols
    &&& u.rows == t.rows
}

/// Private modes set on the alternate screen keep it, and what it keeps aside.
proof fn lemma_modes_on_alt(t: TerminalView, p: Parser, i: int, count: int)
    requires
        t.using_alt_screen,
    ensures
        modes_from(t, p, i, count, true).using_alt_screen,
        main_screen_kept(t, modes_from(t, p, i, count, true)),
    decreases count - i,
{
    if i < count {
        lemma_modes_on_alt(t.private_mode(p.params[i], true), p, i + 1, count);
    }
}

/// Private modes reset on the main screen never bring up the alternate screen.
proof fn lemma_modes_reset_on_main(t: TerminalView, p: Parser, i: int, count: int)
    requires
        !t.using_alt_screen,
    ensures
        !modes_from(t, p, i, count, false).using_alt_screen,
    decreases count - i,
{
    if i < count {
        lemma_modes_reset_on_main(t.private_mode(p.params[i], false), p, i + 1, count);
    }
}

/// Private modes reset on the alternate screen that leave the terminal on it keep what it
/// keeps aside.
proof fn lemma_modes_reset_on_alt(t: TerminalView, p: Parser, i: int, count: int)
    requires
        t.using_alt_screen,
        modes_from(t, p, i, count, false).using_alt_screen,
    ensures
        main_screen_kept(t, modes_from(t, p, i, count, false)),
    decreases count - i,
{
    if i < count {
        let u = t.private_mode(p.params[i], false);
        if u.using_alt_screen {
            lemma_modes_reset_on_alt(u, p, i + 1, count);
        } else {
            lemma_modes_reset_on_main(u, p, i + 1, count);
        }
    }
}

/// A CSI sequence carried out on the alternate screen that leaves the terminal on it keeps
/// what it keeps aside.
proof fn lemma_csi_on_alt(t: TerminalView)
    requires
        t.using_alt_screen,
        t.csi_dispatch().using_alt_screen,
    ensures
        main_screen_kept(t, t.csi_dispatch()),
{
    reveal(TerminalView::csi_dispatch);
    let p = t.parser;
    let f = p.execute_byte;
    let count: int = if p.param_count == 0 { 1 } else { p.param_count as int };
    if p.csi_private == 0x3F {
        if f == 0x68 {
            lemma_modes_on_alt(t, p, 0, count);
        } else if f == 0x6C {
            lemma_modes_reset_on_alt(t, p, 0, count);
        }
    }
}

/// One byte processed on the alternate screen that leaves the terminal on it does not touch
/// the main screen kept aside, the cursor and style saved with it, or the size.
pub proof fn lemma_step_keeps_main_screen(t: TerminalView, byte: u8)
    requires
        t.using_alt_screen,
        t.step(byte).using_alt_screen,
    ensures
        main_screen_kept(t, t.step(byte)),
{
    reveal(TerminalView::step);
    let (p, a) = t.parser.step(byte);
    let s = TerminalView { parser: p, ..t };
    if a == crate::parser::Action::CsiDispatch {
        lemma_csi_on_alt(s);
    }
}

/// Output written on the alternate screen that never leaves it keeps what it keeps aside.
pub proof fn lemma_write_keeps_main_screen(t: TerminalView, x: Seq<u8>)
    requires
        t.using_alt_screen,
        forall|i: int| 0 <= i <= x.len() ==> #[trigger] written(t, x.take(i)).using_alt_screen,
    ensures
        main_screen_kept(t, written(t, x)),
    decreases x.len(),
{
    if x.len() > 0 {
        let u = t.step(x[0]);
        let rest = x.drop_first();
        assert(x.take(0) =~= Seq::<u8>::empty());
        assert(x.take(1) =~= seq![x[0]]);
        assert(written(t, x.take(1)) == u) by {
            assert(x.take(1).drop_first() =~= Seq::<u8>::empty());
            reveal_with_fuel(written, 2);
        }
        assert forall|i: int| 0 <= i <= rest.len() implies #[trigger] written(u, rest.take(i)).using_alt_screen by {
            assert(x.take(i + 1).drop_first() =~= rest.take(i));
            assert(x.take(i + 1)[0] == x[0]);
            assert(written(t, x.take(i + 1)).using_alt_screen);
        }
        lemma_step_keeps_main_screen(t, x[0]);
        lemma_write_keeps_main_screen(u, rest);
        assert(x.take(x.len() as int) =~= x);
    }
}

/// The alternate screen gives the main screen back: entering it (mode 47/1047, or 1049 with
/// `save_cursor`), writing output `x` that stays on it, and leaving it again brings back
/// the main screen's cells at the same size with every row marked for redrawing, and
/// leaves the scrollback as the output left it; with mode 1049 also the cursor position
/// and style of the moment the alternate screen was entered.
pub proof fn lemma_alt_screen_round_trip(t: TerminalView, x: Seq<u8>, save_cursor: bool)
    requires
        t.wf(),
        !t.using_alt_screen,
        t.grid.cols == t.cols,
        t.grid.rows == t.rows,
        t.cursor_row < t.rows,
        t.cursor_col < t.cols,
        forall|i: int| 0 <= i <= x.len() ==>
            #[trigger] written(t.switch_screen(true, save_cursor), x.take(i)).using_alt_screen,
    ensures
        ({
            let a = written(t.switch_screen(true, save_cursor), x);
            let u = a.switch_screen(false, save_cursor);
            &&& !u.using_alt_screen
            &&& u.grid.cells == t.grid.cells
            &&& u.grid.cols == t.cols
            &&& u.grid.rows == t.rows
            &&& u.cols == t.cols
            &&& u.rows == t.rows
            &&& u.scrollback == a.scrollback
            &&& forall|r: int| 0 <= r < u.rows ==> #[trigger] u.grid.dirty[r] == 1
            &&& save_cursor ==> {
                &&& u.cursor_row == t.cursor_row
                &&& u.cursor_col == t.cursor_col
                &&& u.current_fg == t.current_fg
                &&& u.current_bg == t.current_bg
                &&& u.current_flags == t.current_flags
            }
        }),
{
    reveal(TerminalView::fitted);
    let e = t.switch_screen(true, save_cursor);
    let a = written(e, x);
    lemma_write_keeps_main_screen(e, x);
    let u = a.switch_screen(false, save_cursor);
    let t1 = TerminalView { grid: a.alt_grid, using_alt_screen: false, ..a };
    let t2 = if save_cursor { t1.restore_cursor_from_alt() } else { t1 };
    let o = TerminalView { cols: t2.grid.cols, rows: t2.grid.rows, ..t2 };
    assert(o.cut_to_size(t2.cols, t2.rows) == o);
    let k = o.take_size(t2.cols, t2.rows);
    assert(k.grid == t.grid);
    assert(k.blank_new_area(t.cols, t.rows) == k);
    assert(x.take(x.len() as int) =~= x);
}

/// Entering the alternate screen shows a blank screen of the same size, keeps the main
/// screen aside unchanged and, with mode 1049, the cursor position and style as well;
/// the history is left alone.
pub proof fn lemma_enter_alt_screen(t: TerminalView, save_cursor: bool)
    requires
        t.wf(),
        !t.using_alt_screen,
    ensures
        ({
            let u = t.switch_screen(true, save_cursor);
            &&& u.using_alt_screen
            &&& u.alt_grid == t.grid
            &&& forall|r: int, c: int| 0 <= r < t.rows && 0 <= c < t.cols ==>
                #[trigger] u.grid.cells[r][c] == crate::cell::blank_cell_with_bg(crate::cell::DEFAULT_COLOR)
            &&& u.grid.cols == t.cols && u.grid.rows == t.rows
            &&& u.scrollback == t.scrollback
            &&& u.scroll_top == 0 && u.scroll_bottom == t.rows
            &&& save_cursor ==> u.alt_saved_cursor_row == t.cursor_row && u.alt_saved_cursor_col == t.cursor_col
                && u.alt_saved_fg == t.current_fg && u.alt_saved_bg == t.current_bg
                && u.alt_saved_flags == t.current_flags
        }),
{
    let g = GridView { cols: t.cols, rows: t.rows, ..t.grid };
    crate::grid::lemma_clear_reset_def(t.grid, t.cols, t.rows);
    crate::grid::lemma_clear_reset_def(g, 0, 0);
    crate::grid::lemma_fill_rows_def(g, 0, t.rows as int,
        crate::cell::blank_cell_with_bg(crate::cell::DEFAULT_COLOR));
    let u = t.switch_screen(true, save_cursor);
    assert forall|r: int, c: int| 0 <= r < t.rows && 0 <= c < t.cols implies
        #[trigger] u.grid.cells[r][c] == crate::cell::blank_cell_with_bg(crate::cell::DEFAULT_COLOR) by {
        assert(t.grid.cells[r].len() == crate::grid::MAX_COLS);
    }
}

/// DECSET / DECRST switch the modes they name: cursor keys (1), origin (6), auto-wrap (7),
/// line feed / new line (20), cursor visible (25) and bracketed paste (2004).
pub proof fn lemma_private_mode_flags(t: TerminalView, mode: u16, enabled: bool)
    ensures
        ({
            let u = t.private_mode(mode, enabled);
            &&& mode == 1 ==> u.cursor_keys_app == enabled
            &&& mode == 6 ==> u.origin_mode == enabled
            &&& mode == 7 ==> u.auto_wrap == enabled
            &&& mode == 20 ==> u.linefeed_mode == enabled
            &&& mode == 25 ==> u.cursor_visible == enabled
            &&& mode == 2004 ==> u.bracketed_paste == enabled
            &&& (mode == 1 || mode == 6 || mode == 7 || mode == 20 || mode == 25 || mode == 2004)
                ==> u.grid == t.grid && u.cursor_row == t.cursor_row && u.cursor_col == t.cursor_col
        }),
{
}

} // verus!
