use vstd::prelude::*;
use crate::cell::{Cell, DEFAULT_COLOR};
use crate::grid::MAX_COLS;
use crate::terminal::{Terminal, TerminalView};

verus! {

/// A count parameter of 0 means 1.
pub open spec fn at_least_one(n: u16) -> u16 {
    if n == 0 { 1 } else { n }
}

pub open spec fn sat_add(a: u16, b: u16) -> u16 {
    if a + b > u16::MAX { u16::MAX } else { (a + b) as u16 }
}

pub open spec fn sat_sub(a: u16, b: u16) -> u16 {
    if a < b { 0 } else { (a - b) as u16 }
}

pub open spec fn min_u16(a: u16, b: u16) -> u16 {
    if a < b { a } else { b }
}

/// A 1-based position parameter made 0-based (0 counts as 1).
pub open spec fn zero_based(p: u16) -> u16 {
    if p == 0 { 0 } else { (p - 1) as u16 }
}

/// The first tab stop at or after `col` and before `cols`, or the last column if there is none.
pub open spec fn next_tab_stop(stops: Seq<u8>, col: int, cols: int) -> int
    decreases cols - col,
{
    if col >= cols {
        cols - 1
    } else if stops[col] == 1 {
        col
    } else {
        next_tab_stop(stops, col + 1, cols)
    }
}

impl TerminalView {
    pub open spec fn cursor_up(self, n: u16) -> TerminalView {
        TerminalView { cursor_row: sat_sub(self.cursor_row, at_least_one(n)), wrap_pending: false, ..self }
    }

    pub open spec fn cursor_down(self, n: u16) -> TerminalView {
        TerminalView {
            cursor_row: min_u16(sat_add(self.cursor_row, at_least_one(n)), (self.rows - 1) as u16),
            wrap_pending: false,
            ..self
        }
    }

    pub open spec fn cursor_forward(self, n: u16) -> TerminalView {
        TerminalView {
            cursor_col: min_u16(sat_add(self.cursor_col, at_least_one(n)), (self.cols - 1) as u16),
            wrap_pending: false,
            ..self
        }
    }

    pub open spec fn cursor_backward(self, n: u16) -> TerminalView {
        TerminalView { cursor_col: sat_sub(self.cursor_col, at_least_one(n)), wrap_pending: false, ..self }
    }

    pub open spec fn cursor_position(self, row_param: u16, col_param: u16) -> TerminalView {
        TerminalView {
            cursor_row: min_u16(zero_based(row_param), (self.rows - 1) as u16),
            cursor_col: min_u16(zero_based(col_param), (self.cols - 1) as u16),
            wrap_pending: false,
            ..self
        }
    }

    pub open spec fn cursor_to_column(self, col_param: u16) -> TerminalView {
        TerminalView { cursor_col: min_u16(zero_based(col_param), (self.cols - 1) as u16), wrap_pending: false, ..self }
    }

    pub open spec fn cursor_to_row(self, row_param: u16) -> TerminalView {
        TerminalView { cursor_row: min_u16(zero_based(row_param), (self.rows - 1) as u16), wrap_pending: false, ..self }
    }

    pub open spec fn carriage_return(self) -> TerminalView {
        TerminalView { cursor_col: 0, wrap_pending: false, ..self }
    }

    pub open spec fn backspace(self) -> TerminalView {
        if self.cursor_col > 0 {
            TerminalView { cursor_col: (self.cursor_col - 1) as u16, wrap_pending: false, ..self }
        } else {
            self
        }
    }

    pub open spec fn horizontal_tab(self) -> TerminalView {
        TerminalView {
            cursor_col: next_tab_stop(self.tab_stops, self.cursor_col + 1, self.cols as int) as u16,
            wrap_pending: false,
            ..self
        }
    }

    /// Moves down a line; at the bottom of the scroll region the region scrolls up instead,
    /// and on the main screen with a region starting at the top the line that leaves
    /// goes to the scrollback.
    pub open spec fn linefeed(self) -> TerminalView {
        if self.cursor_row + 1 >= self.scroll_bottom {
            TerminalView {
                scrollback: if !self.using_alt_screen && self.scroll_top == 0 {
                    self.scrollback.push(self.grid.cells[self.scroll_top as int], self.cols)
                } else {
                    self.scrollback
                },
                grid: self.grid.scroll_up(self.scroll_top, self.scroll_bottom, 1, self.blank()),
                ..self
            }
        } else {
            TerminalView { cursor_row: (self.cursor_row + 1) as u16, ..self }
        }
    }

    /// The cell `print` writes for code point `cp`.
    pub open spec fn styled(self, cp: u32) -> Cell {
        Cell { char: cp, fg: self.current_fg, bg: self.current_bg, flags: self.current_flags, _pad1: 0, _pad2: 0, _pad3: 0 }
    }

    /// Writes `cp` at the cursor (first wrapping to the next line if a wrap is pending) and
    /// advances; in the last column the cursor stays and a wrap becomes pending.
    pub open spec fn print(self, cp: u32) -> TerminalView {
        let t = if self.wrap_pending {
            TerminalView { wrap_pending: false, ..TerminalView { cursor_col: 0, ..self }.linefeed() }
        } else {
            self
        };
        let t2 = TerminalView { grid: t.grid.set_cell(t.cursor_row, t.cursor_col, t.styled(cp)), ..t };
        if t2.cursor_col < t2.cols - 1 {
            TerminalView { cursor_col: (t2.cursor_col + 1) as u16, ..t2 }
        } else if t2.auto_wrap {
            TerminalView { wrap_pending: true, ..t2 }
        } else {
            t2
        }
    }

    pub open spec fn execute_control(self, byte: u8) -> TerminalView {
        if byte == 0x08 || byte == 0x7F {
            self.backspace()
        } else if byte == 0x09 {
            self.horizontal_tab()
        } else if 0x0A <= byte <= 0x0C {
            if self.linefeed().linefeed_mode { self.linefeed().carriage_return() } else { self.linefeed() }
        } else if byte == 0x0D {
            self.carriage_return()
        } else {
            self
        }
    }

    pub open spec fn save_cursor(self) -> TerminalView {
        TerminalView {
            saved_cursor_row: self.cursor_row,
            saved_cursor_col: self.cursor_col,
            saved_fg: self.current_fg,
            saved_bg: self.current_bg,
            saved_flags: self.current_flags,
            ..self
        }
    }

    pub open spec fn restore_cursor(self) -> TerminalView {
        TerminalView {
            cursor_row: self.saved_cursor_row,
            cursor_col: self.saved_cursor_col,
            current_fg: self.saved_fg,
            current_bg: self.saved_bg,
            current_flags: self.saved_flags,
            wrap_pending: false,
            ..self
        }
    }

    pub open spec fn save_cursor_to_alt(self) -> TerminalView {
        TerminalView {
            alt_saved_cursor_row: self.cursor_row,
            alt_saved_cursor_col: self.cursor_col,
            alt_saved_fg: self.current_fg,
            alt_saved_bg: self.current_bg,
            alt_saved_flags: self.current_flags,
            ..self
        }
    }

    pub open spec fn restore_cursor_from_alt(self) -> TerminalView {
        TerminalView {
            cursor_row: self.alt_saved_cursor_row,
            cursor_col: self.alt_saved_cursor_col,
            current_fg: self.alt_saved_fg,
            current_bg: self.alt_saved_bg,
            current_flags: self.alt_saved_flags,
            wrap_pending: false,
            ..self
        }
    }

    pub open spec fn reset_style(self) -> TerminalView {
        TerminalView { current_fg: DEFAULT_COLOR, current_bg: DEFAULT_COLOR, current_flags: 0, ..self }
    }

    pub open spec fn soft_reset(self) -> TerminalView {
        TerminalView {
            cursor_visible: true,
            origin_mode: false,
            auto_wrap: true,
            cursor_keys_app: false,
            bracketed_paste: false,
            scroll_top: 0,
            scroll_bottom: self.rows,
            ..self
        }.reset_style()
    }

    pub open spec fn set_tab_stop(self) -> TerminalView {
        if self.cursor_col < MAX_COLS {
            TerminalView { tab_stops: self.tab_stops.update(self.cursor_col as int, 1u8), ..self }
        } else {
            self
        }
    }

    pub open spec fn clear_tab_stop(self, mode: u16) -> TerminalView {
        if mode == 0 {
            if self.cursor_col < MAX_COLS {
                TerminalView { tab_stops: self.tab_stops.update(self.cursor_col as int, 0u8), ..self }
            } else {
                self
            }
        } else if mode == 3 {
            TerminalView { tab_stops: Seq::new(self.tab_stops.len(), |i: int| 0u8), ..self }
        } else {
            self
        }
    }

    /// Moves up a line; at the top of the scroll region the region scrolls down instead.
    pub open spec fn reverse_index(self) -> TerminalView {
        if self.cursor_row == self.scroll_top {
            TerminalView { grid: self.grid.scroll_down(self.scroll_top, self.scroll_bottom, 1, self.blank()), ..self }
        } else if self.cursor_row > 0 {
            TerminalView { cursor_row: (self.cursor_row - 1) as u16, ..self }
        } else {
            self
        }
    }

    /// DECSTBM: a valid region (top above bottom, bottom cut to the screen) is taken and
    /// the cursor goes home (to the region's top in origin mode); an invalid one is ignored.
    pub open spec fn set_scroll_region(self, top_param: u16, bottom_param: u16) -> TerminalView {
        let top = zero_based(top_param);
        let bottom = min_u16(bottom_param, self.rows);
        if top < bottom {
            TerminalView {
                scroll_top: top,
                scroll_bottom: bottom,
                cursor_row: if self.origin_mode { top } else { 0 },
                cursor_col: 0,
                wrap_pending: false,
                ..self
            }
        } else {
            self
        }
    }
}

impl Terminal {
    pub(crate) fn cursor_up(&mut self, n: u16)
        requires
            old(self).wf(),
        ensures
            final(self).wf(),
            final(self)@ == old(self)@.cursor_up(n),
    {
        let amount = if n == 0 { 1 } else { n };
        self.cursor_row = self.cursor_row.saturating_sub(amount);
        self.wrap_pending = false;
    }

    pub(crate) fn cursor_down(&mut self, n: u16)
        requires
            old(self).wf(),
        ensures
            final(self).wf(),
            final(self)@ == old(self)@.cursor_down(n),
    {
        let amount = if n == 0 { 1 } else { n };
        let max = self.rows - 1;
        let moved = self.cursor_row.saturating_add(amount);
        self.cursor_row = if moved < max { moved } else { max };
        self.wrap_pending = false;
    }

    pub(crate) fn cursor_forward(&mut self, n: u16)
        requires
            old(self).wf(),
        ensures
            final(self).wf(),
            final(self)@ == old(self)@.cursor_forward(n),
    {
        let amount = if n == 0 { 1 } else { n };
        let max = self.cols - 1;
        let moved = self.cursor_col.saturating_add(amount);
        self.cursor_col = if moved < max { moved } else { max };
        self.wrap_pending = false;
    }

    pub(crate) fn cursor_backward(&mut self, n: u16)
        requires
            old(self).wf(),
        ensures
            final(self).wf(),
            final(self)@ == old(self)@.cursor_backward(n),
    {
        let amount = if n == 0 { 1 } else { n };
        self.cursor_col = self.cursor_col.saturating_sub(amount);
        self.wrap_pending = false;
    }

    pub(crate) fn cursor_position(&mut self, row_param: u16, col_param: u16)
        requires
            old(self).wf(),
        ensures
            final(self).wf(),
            final(self)@ == old(self)@.cursor_position(row_param, col_param),
    {
        let row = if row_param == 0 { 0 } else { row_param - 1 };
        let col = if col_param == 0 { 0 } else { col_param - 1 };
        self.cursor_row = if row < self.rows - 1 { row } else { self.rows - 1 };
        self.cursor_col = if col < self.cols - 1 { col } else { self.cols - 1 };
        self.wrap_pending = false;
    }

    pub(crate) fn cursor_to_column(&mut self, col_param: u16)
        requires
            old(self).wf(),
        ensures
            final(self).wf(),
            final(self)@ == old(self)@.cursor_to_column(col_param),
    {
        let col = if col_param == 0 { 0 } else { col_param - 1 };
        self.cursor_col = if col < self.cols - 1 { col } else { self.cols - 1 };
        self.wrap_pending = false;
    }

    pub(crate) fn cursor_to_row(&mut self, row_param: u16)
        requires
            old(self).wf(),
        ensures
            final(self).wf(),
            final(self)@ == old(self)@.cursor_to_row(row_param),
    {
        let row = if row_param == 0 { 0 } else { row_param - 1 };
        self.cursor_row = if row < self.rows - 1 { row } else { self.rows - 1 };
        self.wrap_pending = false;
    }

    pub(crate) fn carriage_return(&mut self)
        requires
            old(self).wf(),
        ensures
            final(self).wf(),
            final(self)@ == old(self)@.carriage_return(),
    {
        self.cursor_col = 0;
        self.wrap_pending = false;
    }

    pub(crate) fn backspace(&mut self)
        requires
            old(self).wf(),
        ensures
            final(self).wf(),
            final(self)@ == old(self)@.backspace(),
    {
        if self.cursor_col > 0 {
            self.cursor_col -= 1;
            self.wrap_pending = false;
        }
    }

    pub(crate) fn horizontal_tab(&mut self)
        requires
            old(self).wf(),
        ensures
            final(self).wf(),
            final(self)@ == old(self)@.horizontal_tab(),
    {
        let ghost start = self.cursor_col + 1;
        let mut col = self.cursor_col as usize + 1;
        while col < self.cols as usize && self.tab_stops[col] != 1
            invariant
                start <= col,
                col <= self.cols || col == start,
                self.wf(),
                self@ == old(self)@,
                next_tab_stop(self@.tab_stops, start, self.cols as int)
                    == next_tab_stop(self@.tab_stops, col as int, self.cols as int),
            decreases MAX_COLS + 1 - col,
        {
            col += 1;
        }
        self.cursor_col = if col >= self.cols as usize { self.cols - 1 } else { col as u16 };
        self.wrap_pending = false;
    }

    /// Line feed with scrolling at the bottom of the scroll region.
    pub(crate) fn do_linefeed(&mut self)
        requires
            old(self).wf(),
        ensures
            final(self).wf(),
            final(self)@ == old(self)@.linefeed(),
    {
        if self.cursor_row + 1 >= self.scroll_bottom {
            let blank = self.blank_cell();
            if !self.using_alt_screen && self.scroll_top == 0 {
                proof { self.grid.lemma_row_len(self.scroll_top as int); }
                self.scrollback.push(self.grid.cells[self.scroll_top as usize].as_slice(), self.cols);
            }
            self.grid.scroll_up(self.scroll_top, self.scroll_bottom, 1, blank);
        } else {
            self.cursor_row += 1;
        }
    }

    /// Writes a character at the cursor and advances it.
    #[verifier::rlimit(40)]
    pub(crate) fn print_char(&mut self, codepoint: u32)
        requires
            old(self).wf(),
        ensures
            final(self).wf(),
            final(self)@ == old(self)@.print(codepoint),
    {
        let ghost t0 = self@;
        if self.wrap_pending {
            self.cursor_col = 0;
            self.do_linefeed();
            self.wrap_pending = false;
        }
        let ghost t1 = if t0.wrap_pending {
            TerminalView { wrap_pending: false, ..TerminalView { cursor_col: 0, ..t0 }.linefeed() }
        } else {
            t0
        };
        assert(self@ == t1);
        let cell = Cell {
            char: codepoint,
            fg: self.current_fg,
            bg: self.current_bg,
            flags: self.current_flags,
            _pad1: 0,
            _pad2: 0,
            _pad3: 0,
        };
        self.grid.set_cell(self.cursor_row, self.cursor_col, cell);
        if self.cursor_col < self.cols - 1 {
            self.cursor_col += 1;
        } else if self.auto_wrap {
            self.wrap_pending = true;
        }
    }

    /// BS, DEL, HT, LF/VT/FF and CR; other control bytes are ignored.
    pub(crate) fn execute_control(&mut self, byte: u8)
        requires
            old(self).wf(),
        ensures
            final(self).wf(),
            final(self)@ == old(self)@.execute_control(byte),
    {
        if byte == 0x08 || byte == 0x7F {
            self.backspace();
        } else if byte == 0x09 {
            self.horizontal_tab();
        } else if 0x0A <= byte && byte <= 0x0C {
            self.do_linefeed();
            if self.linefeed_mode {
                self.carriage_return();
            }
        } else if byte == 0x0D {
            self.carriage_return();
        }
    }

    pub(crate) fn save_cursor(&mut self)
        requires
            old(self).wf(),
        ensures
            final(self).wf(),
            final(self)@ == old(self)@.save_cursor(),
    {
        self.saved_cursor_row = self.cursor_row;
        self.saved_cursor_col = self.cursor_col;
        self.saved_fg = self.current_fg;
        self.saved_bg = self.current_bg;
        self.saved_flags = self.current_flags;
    }

    pub(crate) fn restore_cursor(&mut self)
        requires
            old(self).wf(),
        ensures
            final(self).wf(),
            final(self)@ == old(self)@.restore_cursor(),
    {
        self.cursor_row = self.saved_cursor_row;
        self.cursor_col = self.saved_cursor_col;
        self.current_fg = self.saved_fg;
        self.current_bg = self.saved_bg;
        self.current_flags = self.saved_flags;
        self.wrap_pending = false;
    }

    pub(crate) fn save_cursor_to_alt(&mut self)
        requires
            old(self).wf(),
        ensures
            final(self).wf(),
            final(self)@ == old(self)@.save_cursor_to_alt(),
    {
        self.alt_saved_cursor_row = self.cursor_row;
        self.alt_saved_cursor_col = self.cursor_col;
        self.alt_saved_fg = self.current_fg;
        self.alt_saved_bg = self.current_bg;
        self.alt_saved_flags = self.current_flags;
    }

    pub(crate) fn restore_cursor_from_alt(&mut self)
        requires
            old(self).wf(),
        ensures
            final(self).wf(),
            final(self)@ == old(self)@.restore_cursor_from_alt(),
    {
        self.cursor_row = self.alt_saved_cursor_row;
        self.cursor_col = self.alt_saved_cursor_col;
        self.current_fg = self.alt_saved_fg;
        self.current_bg = self.alt_saved_bg;
        self.current_flags = self.alt_saved_flags;
        self.wrap_pending = false;
    }

    pub(crate) fn reset_style(&mut self)
        requires
            old(self).wf(),
        ensures
            final(self).wf(),
            final(self)@ == old(self)@.reset_style(),
    {
        self.current_fg = DEFAULT_COLOR;
        self.current_bg = DEFAULT_COLOR;
        self.current_flags = 0;
    }

    pub(crate) fn soft_reset(&mut self)
        requires
            old(self).wf(),
        ensures
            final(self).wf(),
            final(self)@ == old(self)@.soft_reset(),
    {
        self.cursor_visible = true;
        self.origin_mode = false;
        self.auto_wrap = true;
        self.cursor_keys_app = false;
        self.bracketed_paste = false;
        self.scroll_top = 0;
        self.scroll_bottom = self.rows;
        self.reset_style();
    }

    pub(crate) fn set_tab_stop(&mut self)
        requires
            old(self).wf(),
        ensures
            final(self).wf(),
            final(self)@ == old(self)@.set_tab_stop(),
    {
        if self.cursor_col < MAX_COLS as u16 {
            self.tab_stops[self.cursor_col as usize] = 1;
        }
    }

    pub(crate) fn clear_tab_stop(&mut self, mode: u16)
        requires
            old(self).wf(),
        ensures
            final(self).wf(),
            final(self)@ == old(self)@.clear_tab_stop(mode),
    {
        if mode == 0 {
            if self.cursor_col < MAX_COLS as u16 {
                self.tab_stops[self.cursor_col as usize] = 0;
            }
        } else if mode == 3 {
            self.tab_stops = [0u8; 256];
            assert(self.tab_stops@ =~= Seq::new(MAX_COLS as nat, |i: int| 0u8));
        }
    }

    pub(crate) fn reverse_index(&mut self)
        requires
            old(self).wf(),
        ensures
            final(self).wf(),
            final(self)@ == old(self)@.reverse_index(),
    {
        if self.cursor_row == self.scroll_top {
            let blank = self.blank_cell();
            self.grid.scroll_down(self.scroll_top, self.scroll_bottom, 1, blank);
        } else if self.cursor_row > 0 {
            self.cursor_row -= 1;
        }
    }

    pub(crate) fn set_scroll_region(&mut self, top_param: u16, bottom_param: u16)
        requires
            old(self).wf(),
        ensures
            final(self).wf(),
            final(self)@ == old(self)@.set_scroll_region(top_param, bottom_param),
    {
        let top = if top_param == 0 { 0 } else { top_param - 1 };
        let bottom = if bottom_param < self.rows { bottom_param } else { self.rows };
        if top < bottom {
            self.scroll_top = top;
            self.scroll_bottom = bottom;
            self.cursor_row = if self.origin_mode { top } else { 0 };
            self.cursor_col = 0;
            self.wrap_pending = false;
        }
    }
}

/// DECRC after DECSC brings back the cursor position and style that were saved.
pub proof fn lemma_save_restore(t: TerminalView)
    ensures
        t.save_cursor().restore_cursor().cursor_row == t.cursor_row,
        t.save_cursor().restore_cursor().cursor_col == t.cursor_col,
        t.save_cursor().restore_cursor().current_fg == t.current_fg,
        t.save_cursor().restore_cursor().current_bg == t.current_bg,
        t.save_cursor().restore_cursor().current_flags == t.current_flags,
        t.save_cursor().restore_cursor().grid == t.grid,
{
}

/// A tab moves right to the next tab stop, or to the last column if none is left.
pub proof fn lemma_next_tab_stop(stops: Seq<u8>, col: int, cols: int)
    requires
        0 <= col,
        cols <= stops.len(),
    ensures
        col < cols ==> col <= next_tab_stop(stops, col, cols) < cols,
        col >= cols ==> next_tab_stop(stops, col, cols) == cols - 1,
        next_tab_stop(stops, col, cols) < cols - 1 ==> stops[next_tab_stop(stops, col, cols)] == 1,
        forall|k: int| col <= k < next_tab_stop(stops, col, cols) ==> stops[k] != 1,
    decreases cols - col,
{
    if col < cols && stops[col] != 1 {
        lemma_next_tab_stop(stops, col + 1, cols);
    }
}

/// Printing without a pending wrap puts the styled character at the cursor, when the cursor
/// is on the grid, and moves the cursor one column right unless it is in the last column.
pub proof fn lemma_print_at_cursor(t: TerminalView, cp: u32)
    requires
        t.wf(),
        !t.wrap_pending,
        t.cursor_row < t.grid.rows,
        t.cursor_col < t.grid.cols,
    ensures
        t.print(cp).grid.cell_at(t.cursor_row as int, t.cursor_col as int) == t.styled(cp),
        t.cursor_col < t.cols - 1 ==> t.print(cp).cursor_col == t.cursor_col + 1,
        t.cursor_col >= t.cols - 1 && t.auto_wrap ==> t.print(cp).wrap_pending,
        t.print(cp).cursor_row == t.cursor_row,
{
    crate::grid::lemma_get_after_set(t.grid, t.cursor_row, t.cursor_col, t.styled(cp),
        t.cursor_row as int, t.cursor_col as int);
}

/// A line feed at the bottom of a scroll region that starts at the top of the main screen
/// sends the top line into the scrollback, where it is the newest line.
pub proof fn lemma_linefeed_saves_top_line(t: TerminalView)
    requires
        t.wf(),
        t.cursor_row + 1 >= t.scroll_bottom,
        !t.using_alt_screen,
        t.scroll_top == 0,
    ensures
        t.linefeed().scrollback.history().len() > 0,
        t.linefeed().scrollback.history()[0].len == t.cols,
        t.linefeed().scrollback.history()[0].cells.take(t.cols as int) == t.grid.cells[0].take(t.cols as int),
{
    assert(t.grid.cells[0].len() == MAX_COLS);
    crate::scrollback::lemma_push_history(t.scrollback, t.grid.cells[0], t.cols);
}

/// CUU, CUD, CUF and CUB move the cursor by their count (0 counting as 1), stopping at the
/// edge of the screen, and leave the other coordinate where it was.
pub proof fn lemma_cursor_moves_by_count(t: TerminalView, n: u16)
    requires
        t.wf(),
    ensures
        ({
            let m: int = if n == 0 { 1 } else { n as int };
            &&& t.cursor_up(n).cursor_row == if t.cursor_row - m < 0 { 0 } else { t.cursor_row - m }
            &&& t.cursor_up(n).cursor_col == t.cursor_col
            &&& t.cursor_down(n).cursor_row == if t.cursor_row + m > t.rows - 1 { t.rows - 1 } else { t.cursor_row + m }
            &&& t.cursor_down(n).cursor_col == t.cursor_col
            &&& t.cursor_forward(n).cursor_col == if t.cursor_col + m > t.cols - 1 { t.cols - 1 } else { t.cursor_col + m }
            &&& t.cursor_forward(n).cursor_row == t.cursor_row
            &&& t.cursor_backward(n).cursor_col == if t.cursor_col - m < 0 { 0 } else { t.cursor_col - m }
            &&& t.cursor_backward(n).cursor_row == t.cursor_row
        }),
{
}

/// CUP, CHA and VPA go to the 1-based position given (0 counting as 1), stopping at the
/// edge of the screen; CHA keeps the row and VPA the column.
pub proof fn lemma_cursor_goes_to_position(t: TerminalView, row: u16, col: u16)
    requires
        t.wf(),
    ensures
        ({
            let r: int = if row == 0 { 0 } else { row - 1 };
            let c: int = if col == 0 { 0 } else { col - 1 };
            &&& t.cursor_position(row, col).cursor_row == if r > t.rows - 1 { t.rows - 1 } else { r }
            &&& t.cursor_position(row, col).cursor_col == if c > t.cols - 1 { t.cols - 1 } else { c }
            &&& t.cursor_to_column(col).cursor_col == if c > t.cols - 1 { t.cols - 1 } else { c }
            &&& t.cursor_to_column(col).cursor_row == t.cursor_row
            &&& t.cursor_to_row(row).cursor_row == if r > t.rows - 1 { t.rows - 1 } else { r }
            &&& t.cursor_to_row(row).cursor_col == t.cursor_col
        }),
{
}

/// A line feed moves the cursor down a row; on the last row of the scroll region (or below
/// it) the cursor stays and the region's lines move up one, a blank line coming in at its
/// bottom, and the lines outside the region stay.  Only on the main screen with a region
/// starting at the top does a line reach the history (see `lemma_linefeed_saves_top_line`).
pub proof fn lemma_linefeed_cells(t: TerminalView)
    requires
        t.wf(),
        t.consistent(),
    ensures
        ({
            let u = t.linefeed();
            let row = t.cursor_row as int;
            let top = t.scroll_top as int;
            let bottom = t.scroll_bottom as int;
            &&& u.cursor_col == t.cursor_col
            &&& (t.using_alt_screen || t.scroll_top > 0) ==> u.scrollback == t.scrollback
            &&& row + 1 < bottom ==> u.cursor_row == row + 1 && u.grid == t.grid && u.scrollback == t.scrollback
            &&& row + 1 >= bottom ==> u.cursor_row == row && forall|r: int, c: int| 0 <= r < t.rows && 0 <= c < t.cols ==>
                #[trigger] u.grid.cells[r][c] == if r < top || r >= bottom {
                    t.grid.cells[r][c]
                } else if r < bottom - 1 {
                    t.grid.cells[r + 1][c]
                } else {
                    t.blank()
                }
        }),
{
    crate::grid::lemma_scroll_def(t.grid, t.scroll_top, t.scroll_bottom, 1, t.blank());
}

/// A reverse index moves the cursor up a row; on the top row of the scroll region the
/// cursor stays and the region's lines move down one, a blank line coming in at its top.
pub proof fn lemma_reverse_index_cells(t: TerminalView)
    requires
        t.wf(),
        t.consistent(),
    ensures
        ({
            let u = t.reverse_index();
            let row = t.cursor_row as int;
            let top = t.scroll_top as int;
            let bottom = t.scroll_bottom as int;
            &&& u.cursor_col == t.cursor_col
            &&& row != top ==> u.grid == t.grid && u.cursor_row == if row > 0 { row - 1 } else { 0 }
            &&& row == top ==> u.cursor_row == row && forall|r: int, c: int| 0 <= r < t.rows && 0 <= c < t.cols ==>
                #[trigger] u.grid.cells[r][c] == if r < top || r >= bottom {
                    t.grid.cells[r][c]
                } else if r == top {
                    t.blank()
                } else {
                    t.grid.cells[r - 1][c]
                }
        }),
{
    crate::grid::lemma_scroll_def(t.grid, t.scroll_top, t.scroll_bottom, 1, t.blank());
}

/// Carriage return goes to column 0 and backspace one column left (not past column 0);
/// both keep the row.
pub proof fn lemma_return_and_backspace(t: TerminalView)
    ensures
        t.carriage_return().cursor_col == 0,
        t.carriage_return().cursor_row == t.cursor_row,
        t.backspace().cursor_col == if t.cursor_col > 0 { t.cursor_col - 1 } else { 0 },
        t.backspace().cursor_row == t.cursor_row,
        t.carriage_return().grid == t.grid,
        t.backspace().grid == t.grid,
{
}

/// DECSTBM with 1-based top and bottom (0 counting as the first row, a bottom past the
/// screen as its last row) takes the region when top lies above bottom and homes the cursor
/// (to the region's top in origin mode); otherwise nothing changes.
pub proof fn lemma_scroll_region_set(t: TerminalView, top_param: u16, bottom_param: u16)
    ensures
        ({
            let top: int = if top_param == 0 { 0 } else { top_param - 1 };
            let bottom: int = if bottom_param > t.rows { t.rows as int } else { bottom_param as int };
            let u = t.set_scroll_region(top_param, bottom_param);
            &&& top < bottom ==> {
                &&& u.scroll_top == top
                &&& u.scroll_bottom == bottom
                &&& u.cursor_row == if t.origin_mode { top } else { 0 }
                &&& u.cursor_col == 0
                &&& u.grid == t.grid
            }
            &&& top >= bottom ==> u == t
        }),
{
}

/// Printing with a wrap pending first goes to column 0 of the next line (scrolling at the
/// bottom of the region), then writes the character there and moves one column right.
pub proof fn lemma_print_wraps(t: TerminalView, cp: u32)
    requires
        t.wf(),
        t.consistent(),
        t.wrap_pending,
        t.cols > 1,
    ensures
        ({
            let row: int = if t.cursor_row + 1 < t.scroll_bottom { t.cursor_row + 1 } else { t.cursor_row as int };
            let u = t.print(cp);
            &&& u.cursor_row == row
            &&& u.cursor_col == 1
            &&& u.grid.cells[row][0] == t.styled(cp)
            &&& !u.wrap_pending
        }),
{
    let s = TerminalView { cursor_col: 0, ..t };
    let t1 = TerminalView { wrap_pending: false, ..s.linefeed() };
    crate::grid::lemma_operations_keep_size(s.grid, 0, 0, s.blank(), 0, 0, s.scroll_top, s.scroll_bottom, 1, 0, 0, 0);
    crate::grid::lemma_operations_keep_shape(s.grid, 0, 0, s.blank(), 0, 0, s.scroll_top, s.scroll_bottom, 1, 0);
    crate::grid::lemma_set_cell(t1.grid, t1.cursor_row, 0, t1.styled(cp));
    assert(t1.grid.cells[t1.cursor_row as int].len() == MAX_COLS);
}

/// HTS sets a tab stop at the cursor column; TBC 0 clears it there and TBC 3 clears every
/// stop.  A tab moves right to the next stop after the cursor, skipping no stop, or to the
/// last column when no stop is left.
pub proof fn lemma_tab_stops(t: TerminalView, mode: u16)
    requires
        t.wf(),
        t.cursor_col < t.cols,
    ensures
        t.set_tab_stop().tab_stops == t.tab_stops.update(t.cursor_col as int, 1u8),
        mode == 0 ==> t.clear_tab_stop(mode).tab_stops == t.tab_stops.update(t.cursor_col as int, 0u8),
        mode == 3 ==> forall|i: int| 0 <= i < MAX_COLS ==> #[trigger] t.clear_tab_stop(mode).tab_stops[i] == 0,
        ({
            let c = t.horizontal_tab().cursor_col as int;
            &&& t.cursor_col < c < t.cols || (c == t.cols - 1 && t.cursor_col == t.cols - 1)
            &&& c < t.cols - 1 ==> t.tab_stops[c] == 1
            &&& forall|k: int| t.cursor_col < k < c ==> t.tab_stops[k] != 1
            &&& t.horizontal_tab().cursor_row == t.cursor_row
        }),
{
    lemma_next_tab_stop(t.tab_stops, t.cursor_col + 1, t.cols as int);
}

} // verus!
