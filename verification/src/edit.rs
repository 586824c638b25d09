use vstd::prelude::*;
use crate::cell::{Cell, DEFAULT_COLOR};
use crate::grid::{GridView, MAX_COLS, MAX_ROWS, fill_seq, lemma_fill_rows_step, lemma_fill_rows_empty};
use crate::scrollback::ScrollbackView;
use crate::motion::{at_least_one, sat_add, min_u16};
use crate::terminal::{Terminal, TerminalView};

verus! {

pub open spec fn min_int(a: int, b: int) -> int {
    if a < b { a } else { b }
}

/// `row` with the cells from `from` on moved `count` places left within the first `cols`
/// columns, the freed cells at the right end set to `blank`.
pub open spec fn shifted_left(row: Seq<Cell>, from: int, count: int, cols: int, blank: Cell) -> Seq<Cell> {
    Seq::new(row.len(), |c: int|
        if from <= c && c + count < cols {
            row[c + count]
        } else if from <= c < cols {
            blank
        } else {
            row[c]
        })
}

/// `row` with the cells from `from` on moved `count` places right within the first `cols`
/// columns, the opened cells set to `blank`.
pub open spec fn shifted_right(row: Seq<Cell>, from: int, count: int, cols: int, blank: Cell) -> Seq<Cell> {
    Seq::new(row.len(), |c: int|
        if from + count <= c < cols {
            row[c - count]
        } else if from <= c < from + count {
            blank
        } else {
            row[c]
        })
}

/// The first `k` rows from row `first` pushed into the scrollback one after another.
pub open spec fn push_rows(sb: ScrollbackView, cells: Seq<Seq<Cell>>, first: int, k: int, len: u16) -> ScrollbackView
    decreases k,
{
    if k <= 0 {
        sb
    } else {
        push_rows(sb, cells, first, k - 1, len).push(cells[first + k - 1], len)
    }
}

/// The cell DECALN fills the screen with.
pub open spec fn alignment_cell() -> Cell {
    Cell { char: 69, fg: DEFAULT_COLOR, bg: DEFAULT_COLOR, flags: 0, _pad1: 0, _pad2: 0, _pad3: 0 }
}

impl GridView {
    /// The top-left `nr` x `nc` block set to `v`, its rows marked dirty when it is not empty.
    pub open spec fn fill_block(self, nr: int, nc: int, v: Cell) -> GridView {
        GridView {
            cells: Seq::new(self.cells.len(), |r: int| if r < nr { fill_seq(self.cells[r], 0, nc, v) } else { self.cells[r] }),
            dirty: Seq::new(self.dirty.len(), |r: int| if r < nr && nc > 0 { 1u8 } else { self.dirty[r] }),
            ..self
        }
    }

    /// Row `row` replaced by `cells` and marked dirty.
    pub open spec fn with_row(self, row: int, cells: Seq<Cell>) -> GridView {
        GridView { cells: self.cells.update(row, cells), dirty: self.dirty.update(row, 1u8), ..self }
    }
}

impl TerminalView {
    /// The cursor row lies below the grid's visible rows, or the cursor column lies at or
    /// before the end column that `clear_range_as` would stop at.
    pub open spec fn range_ok(self, start: u16, end: u16) -> bool {
        self.cursor_row >= self.grid.rows || start <= self.grid.range_end(end)
    }

    /// How many of the terminal's rows the grid shows.
    pub open spec fn shown_rows(self, upto: int) -> int {
        min_int(upto, self.grid.rows as int)
    }

    pub open spec fn erase_in_display(self, mode: u16) -> TerminalView {
        let b = self.blank();
        if mode == 0 {
            let g = self.grid.clear_range_as(self.cursor_row, self.cursor_col, self.cols, b);
            TerminalView { grid: g.fill_rows(self.cursor_row + 1, self.shown_rows(self.rows as int), b), ..self }
        } else if mode == 1 {
            let g = self.grid.fill_rows(0, self.shown_rows(self.cursor_row as int), b);
            TerminalView { grid: g.clear_range_as(self.cursor_row, 0, (self.cursor_col + 1) as u16, b), ..self }
        } else if mode == 2 || mode == 3 {
            TerminalView {
                grid: self.grid.fill_rows(0, self.shown_rows(self.rows as int), b),
                scrollback: if mode == 3 { self.scrollback.reset() } else { self.scrollback },
                ..self
            }
        } else {
            self
        }
    }

    pub open spec fn erase_in_line(self, mode: u16) -> TerminalView {
        let b = self.blank();
        if mode == 0 {
            TerminalView { grid: self.grid.clear_range_as(self.cursor_row, self.cursor_col, self.cols, b), ..self }
        } else if mode == 1 {
            TerminalView { grid: self.grid.clear_range_as(self.cursor_row, 0, (self.cursor_col + 1) as u16, b), ..self }
        } else if mode == 2 {
            TerminalView { grid: self.grid.clear_row_as(self.cursor_row, b), ..self }
        } else {
            self
        }
    }

    /// End column of an ECH of `n` cells.
    pub open spec fn erase_end(self, n: u16) -> u16 {
        min_u16(sat_add(self.cursor_col, at_least_one(n)), self.cols)
    }

    pub open spec fn erase_chars(self, n: u16) -> TerminalView {
        TerminalView { grid: self.grid.clear_range_as(self.cursor_row, self.cursor_col, self.erase_end(n), self.blank()), ..self }
    }

    pub open spec fn in_scroll_region(self) -> bool {
        self.scroll_top <= self.cursor_row < self.scroll_bottom
    }

    pub open spec fn insert_lines(self, n: u16) -> TerminalView {
        if !self.in_scroll_region() {
            self
        } else {
            TerminalView {
                grid: self.grid.scroll_down(self.cursor_row, self.scroll_bottom, at_least_one(n), self.blank()),
                ..self
            }
        }
    }

    pub open spec fn delete_lines(self, n: u16) -> TerminalView {
        if !self.in_scroll_region() {
            self
        } else {
            TerminalView {
                grid: self.grid.scroll_up(self.cursor_row, self.scroll_bottom, at_least_one(n), self.blank()),
                ..self
            }
        }
    }

    pub open spec fn delete_chars(self, n: u16) -> TerminalView {
        let row = self.cursor_row as int;
        TerminalView {
            grid: self.grid.with_row(row, shifted_left(self.grid.cells[row], self.cursor_col as int,
                at_least_one(n) as int, self.cols as int, self.blank())),
            ..self
        }
    }

    pub open spec fn insert_blanks(self, n: u16) -> TerminalView {
        let count = at_least_one(n) as int;
        let row = self.cursor_row as int;
        if self.cursor_col + count >= self.cols {
            TerminalView { grid: self.grid.clear_range_as(self.cursor_row, self.cursor_col, self.cols, self.blank()), ..self }
        } else {
            TerminalView {
                grid: self.grid.with_row(row, shifted_right(self.grid.cells[row], self.cursor_col as int,
                    count, self.cols as int, self.blank())),
                ..self
            }
        }
    }

    /// SU: on the main screen with a region starting at the top, the lines that scroll out
    /// go to the scrollback first.
    pub open spec fn scroll_up_n(self, n: u16) -> TerminalView {
        let count = at_least_one(n);
        TerminalView {
            scrollback: if !self.using_alt_screen && self.scroll_top == 0 {
                push_rows(self.scrollback, self.grid.cells, self.scroll_top as int,
                    min_int(count as int, self.scroll_bottom - self.scroll_top), self.cols)
            } else {
                self.scrollback
            },
            grid: self.grid.scroll_up(self.scroll_top, self.scroll_bottom, count, self.blank()),
            ..self
        }
    }

    pub open spec fn scroll_down_n(self, n: u16) -> TerminalView {
        TerminalView { grid: self.grid.scroll_down(self.scroll_top, self.scroll_bottom, at_least_one(n), self.blank()), ..self }
    }

    /// DECALN: the screen filled with `E` and the cursor sent home.
    pub open spec fn decaln(self) -> TerminalView {
        TerminalView {
            grid: self.grid.fill_block(self.shown_rows(self.rows as int),
                min_int(self.cols as int, self.grid.cols as int), alignment_cell()),
            cursor_row: 0,
            cursor_col: 0,
            ..self
        }
    }
}

impl Terminal {
    /// Blanks rows `[from, to)` of the screen one by one with `clear_row_as`.
    pub(crate) fn clear_rows_between(&mut self, from: u16, to: u16, blank: Cell)
        requires
            old(self).wf(),
            to <= MAX_ROWS,
        ensures
            final(self).wf(),
            final(self)@ == (TerminalView {
                grid: old(self)@.grid.fill_rows(from as int, old(self)@.shown_rows(to as int), blank),
                ..old(self)@
            }),
    {
        let ghost g0 = self@.grid;
        let ghost t0 = self@;
        if from >= to {
            proof {
                lemma_fill_rows_empty(g0, from as int, t0.shown_rows(to as int), blank);
            }
            return;
        }
        let mut row = from;
        proof {
            lemma_fill_rows_empty(g0, from as int, min_int(from as int, g0.rows as int), blank);
        }
        while row < to
            invariant
                from <= row <= to <= MAX_ROWS,
                self.wf(),
                self@ == (TerminalView { grid: self@.grid, ..t0 }),
                self@.grid == g0.fill_rows(from as int, min_int(row as int, g0.rows as int), blank),
                self@.grid.rows == g0.rows,
                g0 == t0.grid,
                g0.wf(),
            decreases to - row,
        {
            proof {
                if row < g0.rows {
                    lemma_fill_rows_step(g0, from as int, row as int, blank);
                }
            }
            self.grid.clear_row_as(row, blank);
            row += 1;
        }
    }

    /// ED: 0 erases from the cursor to the end of the screen, 1 from the start to the
    /// cursor, 2 the whole screen, 3 the whole screen and the scrollback.
    #[verifier::rlimit(50)]
    pub(crate) fn erase_in_display(&mut self, mode: u16)
        requires
            old(self).wf(),
            mode == 0 ==> old(self)@.range_ok(old(self).cursor_col, old(self).cols),
        ensures
            final(self).wf(),
            final(self)@ == old(self)@.erase_in_display(mode),
    {
        let blank = self.blank_cell();
        let ghost t0 = self@;
        if mode == 0 {
            self.grid.clear_range_as(self.cursor_row, self.cursor_col, self.cols, blank);
            assert(self@ == (TerminalView { grid: t0.grid.clear_range_as(t0.cursor_row, t0.cursor_col, t0.cols, blank), ..t0 }));
            self.clear_rows_between(self.cursor_row + 1, self.rows, blank);
        } else if mode == 1 {
            self.clear_rows_between(0, self.cursor_row, blank);
            assert(self@ == (TerminalView { grid: t0.grid.fill_rows(0, t0.shown_rows(t0.cursor_row as int), blank), ..t0 }));
            self.grid.clear_range_as(self.cursor_row, 0, self.cursor_col + 1, blank);
        } else if mode == 2 || mode == 3 {
            self.clear_rows_between(0, self.rows, blank);
            if mode == 3 {
                self.scrollback.reset();
            }
        }
    }

    /// EL: 0 erases from the cursor to the end of the line, 1 from its start to the
    /// cursor, 2 the whole line.
    pub(crate) fn erase_in_line(&mut self, mode: u16)
        requires
            old(self).wf(),
            mode == 0 ==> old(self)@.range_ok(old(self).cursor_col, old(self).cols),
        ensures
            final(self).wf(),
            final(self)@ == old(self)@.erase_in_line(mode),
    {
        let blank = self.blank_cell();
        if mode == 0 {
            self.grid.clear_range_as(self.cursor_row, self.cursor_col, self.cols, blank);
        } else if mode == 1 {
            self.grid.clear_range_as(self.cursor_row, 0, self.cursor_col + 1, blank);
        } else if mode == 2 {
            self.grid.clear_row_as(self.cursor_row, blank);
        }
    }

    /// ECH: blanks `n` cells from the cursor on, stopping at the right margin.
    pub(crate) fn erase_chars(&mut self, n: u16)
        requires
            old(self).wf(),
            old(self)@.range_ok(old(self).cursor_col, old(self)@.erase_end(n)),
        ensures
            final(self).wf(),
            final(self)@ == old(self)@.erase_chars(n),
    {
        let count = if n == 0 { 1 } else { n };
        let moved = self.cursor_col.saturating_add(count);
        let end = if moved < self.cols { moved } else { self.cols };
        let blank = self.blank_cell();
        self.grid.clear_range_as(self.cursor_row, self.cursor_col, end, blank);
    }

    /// IL: inside the scroll region, pushes the lines from the cursor down by `n`.
    pub(crate) fn insert_lines(&mut self, n: u16)
        requires
            old(self).wf(),
        ensures
            final(self).wf(),
            final(self)@ == old(self)@.insert_lines(n),
    {
        if self.cursor_row < self.scroll_top || self.cursor_row >= self.scroll_bottom {
            return;
        }
        let blank = self.blank_cell();
        self.grid.scroll_down(self.cursor_row, self.scroll_bottom, if n == 0 { 1 } else { n }, blank);
    }

    /// DL: inside the scroll region, pulls the lines below the cursor up by `n`.
    pub(crate) fn delete_lines(&mut self, n: u16)
        requires
            old(self).wf(),
        ensures
            final(self).wf(),
            final(self)@ == old(self)@.delete_lines(n),
    {
        if self.cursor_row < self.scroll_top || self.cursor_row >= self.scroll_bottom {
            return;
        }
        let blank = self.blank_cell();
        self.grid.scroll_up(self.cursor_row, self.scroll_bottom, if n == 0 { 1 } else { n }, blank);
    }

    /// DCH: removes `n` cells at the cursor, pulling the rest of the line left.
    pub(crate) fn delete_chars(&mut self, n: u16)
        requires
            old(self).wf(),
        ensures
            final(self).wf(),
            final(self)@ == old(self)@.delete_chars(n),
    {
        let count = if n == 0 { 1 } else { n } as usize;
        let row = self.cursor_row as usize;
        let cols = self.cols as usize;
        let blank = self.blank_cell();
        let ghost t0 = self@;
        proof { self.grid.lemma_row_len(row as int); }
        shift_row_left(&mut self.grid.cells[row], self.cursor_col as usize, count, cols, blank);
        self.grid.dirty.set(row, 1);
        assert(self@.grid.cells =~= t0.grid.cells.update(row as int,
            shifted_left(t0.grid.cells[row as int], t0.cursor_col as int, count as int, cols as int, blank)));
        assert(self@ =~= t0.delete_chars(n));
    }

    /// ICH: opens `n` blank cells at the cursor, pushing the rest of the line right.
    pub(crate) fn insert_blanks(&mut self, n: u16)
        requires
            old(self).wf(),
            old(self).cursor_col + at_least_one(n) >= old(self).cols
                ==> old(self)@.range_ok(old(self).cursor_col, old(self).cols),
        ensures
            final(self).wf(),
            final(self)@ == old(self)@.insert_blanks(n),
    {
        let count = if n == 0 { 1 } else { n } as usize;
        let row = self.cursor_row as usize;
        let start = self.cursor_col as usize;
        let cols = self.cols as usize;
        let blank = self.blank_cell();
        if start + count >= cols {
            self.grid.clear_range_as(self.cursor_row, self.cursor_col, self.cols, blank);
            return;
        }
        let ghost t0 = self@;
        proof { self.grid.lemma_row_len(row as int); }
        shift_row_right(&mut self.grid.cells[row], start, count, cols, blank);
        self.grid.dirty.set(row, 1);
        assert(self@.grid.cells =~= t0.grid.cells.update(row as int,
            shifted_right(t0.grid.cells[row as int], start as int, count as int, cols as int, blank)));
        assert(self@ =~= t0.insert_blanks(n));
    }

    /// SU: scrolls the region up by `n`, first saving the lines that leave it to the
    /// scrollback when on the main screen with a region starting at the top.
    pub(crate) fn scroll_up_n(&mut self, n: u16)
        requires
            old(self).wf(),
        ensures
            final(self).wf(),
            final(self)@ == old(self)@.scroll_up_n(n),
    {
        let count = if n == 0 { 1 } else { n };
        let ghost t0 = self@;
        if !self.using_alt_screen && self.scroll_top == 0 {
            let span = self.scroll_bottom - self.scroll_top;
            let k = if count < span { count } else { span };
            assert(k as int == min_int(count as int, t0.scroll_bottom - t0.scroll_top));
            self.save_rows_to_scrollback(self.scroll_top, self.scroll_top + k, self.cols);
        }
        let ghost t1 = self@;
        assert(t1 == (TerminalView { scrollback: t0.scroll_up_n(n).scrollback, ..t0 }));
        let blank = self.blank_cell();
        self.grid.scroll_up(self.scroll_top, self.scroll_bottom, count, blank);
        assert(self@ == (TerminalView { grid: t1.grid.scroll_up(t1.scroll_top, t1.scroll_bottom, count, blank), ..t1 }));
    }

    /// SD: scrolls the region down by `n`.
    pub(crate) fn scroll_down_n(&mut self, n: u16)
        requires
            old(self).wf(),
        ensures
            final(self).wf(),
            final(self)@ == old(self)@.scroll_down_n(n),
    {
        let blank = self.blank_cell();
        self.grid.scroll_down(self.scroll_top, self.scroll_bottom, if n == 0 { 1 } else { n }, blank);
    }

    /// DECALN: fills the screen with `E` and homes the cursor.
    pub(crate) fn decaln(&mut self)
        requires
            old(self).wf(),
        ensures
            final(self).wf(),
            final(self)@ == old(self)@.decaln(),
    {
        let ghost t0 = self@;
        let ghost g0 = t0.grid;
        let ghost nc = min_int(t0.cols as int, g0.cols as int);
        let e = Cell { char: 69, ..Cell::blank() };
        assert(e == alignment_cell());
        let mut row: u16 = 0;
        while row < self.rows
            invariant
                self.wf(),
                row <= self.rows,
                self.rows == t0.rows,
                self.cols == t0.cols,
                self@ == (TerminalView { grid: self@.grid, ..t0 }),
                self@.grid.cols == g0.cols,
                self@.grid.rows == g0.rows,
                forall|r: int| 0 <= r < MAX_ROWS ==> #[trigger] self@.grid.cells[r] ==
                    if r < min_int(row as int, g0.rows as int) { fill_seq(g0.cells[r], 0, nc, e) } else { g0.cells[r] },
                forall|r: int| 0 <= r < MAX_ROWS ==> #[trigger] self@.grid.dirty[r] ==
                    if r < min_int(row as int, g0.rows as int) && nc > 0 { 1u8 } else { g0.dirty[r] },
                e == alignment_cell(),
                nc == min_int(t0.cols as int, g0.cols as int),
            decreases self.rows - row,
        {
            let mut col: u16 = 0;
            while col < self.cols
                invariant
                    self.wf(),
                    row < self.rows,
                    col <= self.cols,
                    self.rows == t0.rows,
                    self.cols == t0.cols,
                    self@ == (TerminalView { grid: self@.grid, ..t0 }),
                    self@.grid.cols == g0.cols,
                    self@.grid.rows == g0.rows,
                    forall|r: int| 0 <= r < MAX_ROWS ==> #[trigger] self@.grid.cells[r] ==
                        if r < min_int(row as int, g0.rows as int) { fill_seq(g0.cells[r], 0, nc, e) }
                        else if r == row && row < g0.rows { fill_seq(g0.cells[r], 0, min_int(col as int, g0.cols as int), e) }
                        else { g0.cells[r] },
                    forall|r: int| 0 <= r < MAX_ROWS ==> #[trigger] self@.grid.dirty[r] ==
                        if (r < min_int(row as int, g0.rows as int) && nc > 0)
                            || (r == row && row < g0.rows && min_int(col as int, g0.cols as int) > 0) { 1u8 }
                        else { g0.dirty[r] },
                    e == alignment_cell(),
                    nc == min_int(t0.cols as int, g0.cols as int),
                decreases self.cols - col,
            {
                let ghost before = self@.grid;
                proof { crate::grid::lemma_set_cell(before, row, col, e); }
                self.grid.set_cell(row, col, e);
                proof {
                    if row < g0.rows && col < g0.cols {
                        assert(self@.grid.cells[row as int] =~= fill_seq(g0.cells[row as int], 0, min_int(col + 1, g0.cols as int), e));
                    } else if row < g0.rows {
                        assert(fill_seq(g0.cells[row as int], 0, min_int(col + 1, g0.cols as int), e)
                            =~= fill_seq(g0.cells[row as int], 0, min_int(col as int, g0.cols as int), e));
                    }
                }
                col += 1;
            }
            proof {
                assert forall|r: int| 0 <= r < MAX_ROWS implies #[trigger] self@.grid.cells[r] ==
                    if r < min_int(row + 1, g0.rows as int) { fill_seq(g0.cells[r], 0, nc, e) } else { g0.cells[r] } by {
                }
            }
            row += 1;
        }
        self.cursor_row = 0;
        self.cursor_col = 0;
        assert(self@.grid.cells =~= t0.decaln().grid.cells);
        assert(self@.grid.dirty =~= t0.decaln().grid.dirty);
        assert(self@ =~= t0.decaln());
    }
}

/// The cell moves of DCH on one row.
fn shift_row_left(row: &mut Vec<Cell>, from: usize, count: usize, cols: usize, blank: Cell)
    requires
        old(row)@.len() == MAX_COLS,
        cols <= MAX_COLS,
        count >= 1,
        count <= u16::MAX,
        from < MAX_COLS,
    ensures
        final(row)@ == shifted_left(old(row)@, from as int, count as int, cols as int, blank),
{
    let ghost r0 = row@;
    let mut col = from;
    while col + count < cols
        invariant
            from <= col,
            col < MAX_COLS,
            col == from || col + count <= cols,
            count >= 1,
            count <= u16::MAX,
            cols <= MAX_COLS,
            row@.len() == MAX_COLS,
            forall|c: int| 0 <= c < MAX_COLS ==> #[trigger] row@[c] ==
                if from <= c < col { r0[c + count] } else { r0[c] },
        decreases cols - col,
    {
        let moved = row[col + count];
        row.set(col, moved);
        col += 1;
    }
    while col < cols
        invariant
            from <= col,
            col + count >= cols || col >= cols,
            count >= 1,
            count <= u16::MAX,
            cols <= MAX_COLS,
            row@.len() == MAX_COLS,
            forall|c: int| 0 <= c < MAX_COLS ==> #[trigger] row@[c] ==
                if from <= c && c + count < cols { r0[c + count] }
                else if from <= c < col && c < cols { blank }
                else { r0[c] },
        decreases cols - col,
    {
        row.set(col, blank);
        col += 1;
    }
    assert(row@ =~= shifted_left(r0, from as int, count as int, cols as int, blank));
}

/// The cell moves of ICH on one row, when the opened cells end before `cols`.
fn shift_row_right(row: &mut Vec<Cell>, from: usize, count: usize, cols: usize, blank: Cell)
    requires
        old(row)@.len() == MAX_COLS,
        cols <= MAX_COLS,
        from + count < cols,
    ensures
        final(row)@ == shifted_right(old(row)@, from as int, count as int, cols as int, blank),
{
    let ghost r0 = row@;
    let mut col = cols;
    while col > from + count
        invariant
            from + count <= col <= cols,
            cols <= MAX_COLS,
            row@.len() == MAX_COLS,
            forall|c: int| 0 <= c < MAX_COLS ==> #[trigger] row@[c] ==
                if col <= c < cols { r0[c - count] } else { r0[c] },
        decreases col,
    {
        col -= 1;
        let moved = row[col - count];
        row.set(col, moved);
    }
    let end = from + count;
    let mut col = from;
    while col < end
        invariant
            from <= col <= end,
            end == from + count,
            end < cols,
            cols <= MAX_COLS,
            row@.len() == MAX_COLS,
            forall|c: int| 0 <= c < MAX_COLS ==> #[trigger] row@[c] ==
                if end <= c < cols { r0[c - count] } else if from <= c < col { blank } else { r0[c] },
        decreases end - col,
    {
        row.set(col, blank);
        col += 1;
    }
    assert(row@ =~= shifted_right(r0, from as int, count as int, cols as int, blank));
}

/// ED 2 leaves every visible cell of the screen blank in the current background colour.
pub proof fn lemma_erase_display_blanks(t: TerminalView, r: int, c: int)
    requires
        t.wf(),
        0 <= r < t.rows,
        0 <= c < t.cols,
    ensures
        t.erase_in_display(2).grid.cell_at(r, c) == if r < t.grid.rows && c < t.grid.cols {
            t.blank()
        } else {
            crate::cell::blank_cell_with_bg(DEFAULT_COLOR)
        },
{
    crate::grid::lemma_fill_rows_cells(t.grid, 0, t.shown_rows(t.rows as int), t.blank(), r, c);
}

/// Pushing rows `[first, first + k)` of `cells` puts them in front of the history, the last
/// of them newest, each keeping its first `len` cells; the earlier history follows behind
/// them in order, and the history holds at most `MAX_SCROLLBACK_LINES` lines.
pub proof fn lemma_push_rows_history(sb: ScrollbackView, cells: Seq<Seq<Cell>>, first: int, k: int, len: u16)
    requires
        sb.wf(),
        0 <= k,
        len <= MAX_COLS,
        forall|i: int| 0 <= i < k ==> len <= #[trigger] cells[first + i].len(),
    ensures
        push_rows(sb, cells, first, k, len).wf(),
        push_rows(sb, cells, first, k, len).history().len()
            == min_int(sb.count + k, crate::scrollback::MAX_SCROLLBACK_LINES as int),
        forall|j: int| 0 <= j < k && j < push_rows(sb, cells, first, k, len).history().len() ==> {
            &&& (#[trigger] push_rows(sb, cells, first, k, len).history()[j]).len == len
            &&& push_rows(sb, cells, first, k, len).history()[j].cells.take(len as int)
                == cells[first + k - 1 - j].take(len as int)
        },
        forall|j: int| k <= j < push_rows(sb, cells, first, k, len).history().len() ==>
            #[trigger] push_rows(sb, cells, first, k, len).history()[j] == sb.history()[j - k],
    decreases k,
{
    if k > 0 {
        let s1 = push_rows(sb, cells, first, k - 1, len);
        assert forall|i: int| 0 <= i < k - 1 implies len <= #[trigger] cells[first + i].len() by {
            assert(len <= cells[first + i].len());
        }
        lemma_push_rows_history(sb, cells, first, k - 1, len);
        assert(len <= cells[first + (k - 1)].len());
        crate::scrollback::lemma_push_history(s1, cells[first + k - 1], len);
        let h = push_rows(sb, cells, first, k, len).history();
        let h1 = s1.history();
        assert forall|j: int| 0 <= j < k && j < h.len() implies {
            &&& (#[trigger] h[j]).len == len
            &&& h[j].cells.take(len as int) == cells[first + k - 1 - j].take(len as int)
        } by {
            if j > 0 {
                assert(h[j] == h1[j - 1]);
            }
        }
        assert forall|j: int| k <= j < h.len() implies #[trigger] h[j] == sb.history()[j - k] by {
            assert(h[j] == h1[j - 1]);
        }
    }
}

/// ED 0, 1 and 2 leave the history alone; ED 3 empties it.  ED never moves the cursor.
pub proof fn lemma_erase_display_history(t: TerminalView, mode: u16)
    ensures
        mode != 3 ==> t.erase_in_display(mode).scrollback == t.scrollback,
        mode == 3 ==> t.erase_in_display(mode).scrollback.history().len() == 0,
        t.erase_in_display(mode).cursor_row == t.cursor_row,
        t.erase_in_display(mode).cursor_col == t.cursor_col,
        t.erase_in_line(mode).scrollback == t.scrollback,
{
}

/// SU on the main screen with a region that starts at the top row: the lines that scroll
/// out (as many as the count, 0 counting as 1, but at most the region's height) go to the
/// history, the lowest of them newest, each holding the row's visible cells as they were;
/// the earlier history follows behind them.  Elsewhere SU leaves the history alone.
pub proof fn lemma_scroll_up_saves_lines(t: TerminalView, n: u16)
    requires
        t.wf(),
    ensures
        ({
            let m: int = if n == 0 { 1 } else { n as int };
            let k: int = if m < t.scroll_bottom - t.scroll_top { m } else { t.scroll_bottom - t.scroll_top };
            let h = t.scroll_up_n(n).scrollback.history();
            &&& (t.using_alt_screen || t.scroll_top > 0) ==> t.scroll_up_n(n).scrollback == t.scrollback
            &&& (!t.using_alt_screen && t.scroll_top == 0) ==> {
                &&& h.len() == min_int(t.scrollback.count + k, crate::scrollback::MAX_SCROLLBACK_LINES as int)
                &&& forall|j: int| 0 <= j < k && j < h.len() ==> {
                    &&& (#[trigger] h[j]).len == t.cols
                    &&& h[j].cells.take(t.cols as int) == t.grid.cells[k - 1 - j].take(t.cols as int)
                }
                &&& forall|j: int| k <= j < h.len() ==> #[trigger] h[j] == t.scrollback.history()[j - k]
            }
        }),
{
    if !t.using_alt_screen && t.scroll_top == 0 {
        let m: int = if n == 0 { 1 } else { n as int };
        let k: int = if m < t.scroll_bottom - t.scroll_top { m } else { t.scroll_bottom - t.scroll_top };
        assert forall|i: int| 0 <= i < k implies t.cols <= #[trigger] t.grid.cells[0 + i].len() by {
            assert(t.grid.cells[i].len() == MAX_COLS);
        }
        lemma_push_rows_history(t.scrollback, t.grid.cells, 0, k, t.cols);
    }
}

/// ED and EL blank, in the current background colour, exactly the visible cells they name:
/// ED 0 from the cursor to the end of the screen, ED 1 from the start of the screen to the
/// cursor, ED 2 the whole screen; EL 0, 1 and 2 the same within the cursor's row.  Every
/// other cell keeps its character and attributes.
pub proof fn lemma_erase_cells(t: TerminalView, mode: u16)
    requires
        t.wf(),
        t.consistent(),
        mode <= 2,
    ensures
        forall|r: int, c: int| 0 <= r < t.rows && 0 <= c < t.cols ==>
            #[trigger] t.erase_in_display(mode).grid.cells[r][c] == if (mode == 0 && (r > t.cursor_row
                || (r == t.cursor_row && c >= t.cursor_col))) || (mode == 1 && (r < t.cursor_row
                || (r == t.cursor_row && c <= t.cursor_col))) || mode == 2 {
                t.blank()
            } else {
                t.grid.cells[r][c]
            },
        forall|r: int, c: int| 0 <= r < t.rows && 0 <= c < t.cols ==>
            #[trigger] t.erase_in_line(mode).grid.cells[r][c] == if r == t.cursor_row && ((mode == 0
                && c >= t.cursor_col) || (mode == 1 && c <= t.cursor_col) || mode == 2) {
                t.blank()
            } else {
                t.grid.cells[r][c]
            },
{
    let g = t.grid;
    let b = t.blank();
    crate::grid::lemma_clear_as_def(g, t.cursor_row, t.cursor_col, t.cols, 0, 0, b);
    crate::grid::lemma_clear_as_def(g, t.cursor_row, 0, (t.cursor_col + 1) as u16, 0, 0, b);
    crate::grid::lemma_fill_rows_def(g, 0, t.rows as int, b);
    crate::grid::lemma_fill_rows_def(g, t.cursor_row as int, t.cursor_row + 1, b);
    let g0 = g.clear_range_as(t.cursor_row, t.cursor_col, t.cols, b);
    crate::grid::lemma_fill_rows_def(g0, t.cursor_row + 1, t.rows as int, b);
    let g1 = g.fill_rows(0, t.cursor_row as int, b);
    crate::grid::lemma_fill_rows_def(g, 0, t.cursor_row as int, b);
    crate::grid::lemma_clear_as_def(g1, t.cursor_row, 0, (t.cursor_col + 1) as u16, 0, 0, b);
}

/// ECH blanks as many cells as its count (0 counting as 1) from the cursor on, stopping at
/// the right edge; every other cell keeps what it held.
pub proof fn lemma_erase_chars_cells(t: TerminalView, n: u16)
    requires
        t.wf(),
        t.consistent(),
    ensures
        ({
            let m: int = if n == 0 { 1 } else { n as int };
            forall|r: int, c: int| 0 <= r < t.rows && 0 <= c < t.cols ==>
                #[trigger] t.erase_chars(n).grid.cells[r][c] == if r == t.cursor_row && t.cursor_col <= c
                    < t.cursor_col + m {
                    t.blank()
                } else {
                    t.grid.cells[r][c]
                }
        }),
{
    crate::grid::lemma_clear_as_def(t.grid, t.cursor_row, t.cursor_col, t.erase_end(n), 0, 0, t.blank());
}

/// DCH removes as many cells as its count (0 counting as 1) at the cursor: the rest of the
/// row moves left and blanks come in at the right edge.  ICH opens as many blank cells at
/// the cursor: the rest of the row moves right and what passes the right edge is lost.
/// Other rows and the cells left of the cursor are untouched.
pub proof fn lemma_delete_insert_chars_cells(t: TerminalView, n: u16)
    requires
        t.wf(),
        t.consistent(),
    ensures
        ({
            let m: int = if n == 0 { 1 } else { n as int };
            let row = t.cursor_row as int;
            let col = t.cursor_col as int;
            &&& forall|r: int, c: int| 0 <= r < t.rows && 0 <= c < t.cols ==>
                #[trigger] t.delete_chars(n).grid.cells[r][c] == if r != row || c < col {
                    t.grid.cells[r][c]
                } else if c + m < t.cols {
                    t.grid.cells[r][c + m]
                } else {
                    t.blank()
                }
            &&& forall|r: int, c: int| 0 <= r < t.rows && 0 <= c < t.cols ==>
                #[trigger] t.insert_blanks(n).grid.cells[r][c] == if r != row || c < col {
                    t.grid.cells[r][c]
                } else if c < col + m {
                    t.blank()
                } else {
                    t.grid.cells[r][c - m]
                }
        }),
{
    crate::grid::lemma_clear_as_def(t.grid, t.cursor_row, t.cursor_col, t.cols, 0, 0, t.blank());
    assert(t.grid.cells[t.cursor_row as int].len() == MAX_COLS);
}

/// IL inserts as many blank lines as its count (0 counting as 1) at the cursor row, pushing
/// the lines below it down within the scroll region (those that pass its bottom are lost);
/// DL deletes as many lines at the cursor row, pulling the lines below up and bringing in
/// blank lines at the region's bottom.  Outside the scroll region neither does anything.
pub proof fn lemma_insert_delete_lines_cells(t: TerminalView, n: u16)
    requires
        t.wf(),
        t.consistent(),
    ensures
        ({
            let m: int = if n == 0 { 1 } else { n as int };
            let row = t.cursor_row as int;
            let bottom = t.scroll_bottom as int;
            let k: int = if m < bottom - row { m } else { bottom - row };
            let inside = t.scroll_top <= row < bottom;
            &&& !inside ==> t.insert_lines(n) == t && t.delete_lines(n) == t
            &&& inside ==> forall|r: int, c: int| 0 <= r < t.rows && 0 <= c < t.cols ==>
                #[trigger] t.insert_lines(n).grid.cells[r][c] == if r < row || r >= bottom {
                    t.grid.cells[r][c]
                } else if r < row + k {
                    t.blank()
                } else {
                    t.grid.cells[r - k][c]
                }
            &&& inside ==> forall|r: int, c: int| 0 <= r < t.rows && 0 <= c < t.cols ==>
                #[trigger] t.delete_lines(n).grid.cells[r][c] == if r < row || r >= bottom {
                    t.grid.cells[r][c]
                } else if r < bottom - k {
                    t.grid.cells[r + k][c]
                } else {
                    t.blank()
                }
        }),
{
    crate::grid::lemma_scroll_def(t.grid, t.cursor_row, t.scroll_bottom, at_least_one(n), t.blank());
}

/// SU moves the lines of the scroll region up by its count (0 counting as 1, at most the
/// region's height) with blank lines coming in at the bottom; SD moves them down with blank
/// lines coming in at the top.  Lines outside the region stay.
pub proof fn lemma_scroll_region_cells(t: TerminalView, n: u16)
    requires
        t.wf(),
        t.consistent(),
    ensures
        ({
            let m: int = if n == 0 { 1 } else { n as int };
            let top = t.scroll_top as int;
            let bottom = t.scroll_bottom as int;
            let k: int = if m < bottom - top { m } else { bottom - top };
            &&& forall|r: int, c: int| 0 <= r < t.rows && 0 <= c < t.cols ==>
                #[trigger] t.scroll_up_n(n).grid.cells[r][c] == if r < top || r >= bottom {
                    t.grid.cells[r][c]
                } else if r < bottom - k {
                    t.grid.cells[r + k][c]
                } else {
                    t.blank()
                }
            &&& forall|r: int, c: int| 0 <= r < t.rows && 0 <= c < t.cols ==>
                #[trigger] t.scroll_down_n(n).grid.cells[r][c] == if r < top || r >= bottom {
                    t.grid.cells[r][c]
                } else if r < top + k {
                    t.blank()
                } else {
                    t.grid.cells[r - k][c]
                }
        }),
{
    crate::grid::lemma_scroll_def(t.grid, t.scroll_top, t.scroll_bottom, at_least_one(n), t.blank());
}

/// DECALN fills every visible cell with `E` in the default colours and sends the cursor home.
pub proof fn lemma_decaln_cells(t: TerminalView)
    requires
        t.wf(),
        t.consistent(),
    ensures
        forall|r: int, c: int| 0 <= r < t.rows && 0 <= c < t.cols ==>
            #[trigger] t.decaln().grid.cells[r][c] == (Cell { char: 0x45, fg: DEFAULT_COLOR,
                bg: DEFAULT_COLOR, flags: 0, _pad1: 0, _pad2: 0, _pad3: 0 }),
        t.decaln().cursor_row == 0,
        t.decaln().cursor_col == 0,
{
}

} // verus!
