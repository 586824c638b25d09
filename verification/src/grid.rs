use vstd::prelude::*;
use crate::cell::{Cell, DEFAULT_COLOR, blank_cell_with_bg};

verus! {

pub const MAX_COLS: usize = 256;
pub const MAX_ROWS: usize = 256;

/// The screen: a fixed `MAX_ROWS` x `MAX_COLS` array of cells of which the top-left
/// `rows` x `cols` are visible, and one dirty flag per row.
pub struct Grid {
    pub cells: Vec<Vec<Cell>>,
    pub cols: u16,
    pub rows: u16,
    pub dirty: Vec<u8>,
}

/// Mathematical picture of a grid.
#[verifier::ext_equal]
pub struct GridView {
    pub cells: Seq<Seq<Cell>>,
    pub cols: u16,
    pub rows: u16,
    pub dirty: Seq<u8>,
}

impl View for Grid {
    type V = GridView;

    open spec fn view(&self) -> GridView {
        GridView {
            cells: self.cells@.map_values(|r: Vec<Cell>| r@),
            cols: self.cols,
            rows: self.rows,
            dirty: self.dirty@,
        }
    }
}

/// `row` with the columns in `[start, end)` replaced by `v`.
pub open spec fn fill_seq<T>(row: Seq<T>, start: int, end: int, v: T) -> Seq<T> {
    Seq::new(row.len(), |c: int| if start <= c < end { v } else { row[c] })
}

impl GridView {
    /// Every row array and the dirty array are full size.
    pub open spec fn wf(self) -> bool {
        &&& self.cells.len() == MAX_ROWS
        &&& forall|r: int| 0 <= r < MAX_ROWS ==> #[trigger] self.cells[r].len() == MAX_COLS
        &&& self.dirty.len() == MAX_ROWS
    }

    /// The visible area lies inside the cell arrays.
    pub open spec fn fits(self) -> bool {
        self.cols <= MAX_COLS && self.rows <= MAX_ROWS
    }

    /// A grid of the given size, all blank and all rows dirty.
    pub open spec fn fresh(cols: u16, rows: u16) -> GridView {
        GridView {
            cells: Seq::new(MAX_ROWS as nat, |r: int| Seq::new(MAX_COLS as nat, |c: int| blank_cell_with_bg(DEFAULT_COLOR))),
            cols,
            rows,
            dirty: Seq::new(MAX_ROWS as nat, |r: int| 1u8),
        }
    }

    /// What `get_cell` reads: the cell, or a blank outside the visible area.
    pub open spec fn cell_at(self, row: int, col: int) -> Cell {
        if row >= self.rows || col >= self.cols {
            blank_cell_with_bg(DEFAULT_COLOR)
        } else {
            self.cells[row][col]
        }
    }

    pub closed spec fn set_cell(self, row: u16, col: u16, cell: Cell) -> GridView {
        if row >= self.rows || col >= self.cols {
            self
        } else {
            GridView {
                cells: self.cells.update(row as int, self.cells[row as int].update(col as int, cell)),
                dirty: self.dirty.update(row as int, 1u8),
                ..self
            }
        }
    }

    /// Rows `[start, end)` have their visible columns set to `blank` and are marked dirty.
    pub closed spec fn fill_rows(self, start: int, end: int, blank: Cell) -> GridView {
        GridView {
            cells: Seq::new(self.cells.len(), |r: int|
                if start <= r < end { fill_seq(self.cells[r], 0, self.cols as int, blank) } else { self.cells[r] }),
            dirty: fill_seq(self.dirty, start, end, 1u8),
            ..self
        }
    }

    pub closed spec fn clear(self) -> GridView {
        self.fill_rows(0, self.rows as int, blank_cell_with_bg(DEFAULT_COLOR))
    }

    pub closed spec fn reset(self, cols: u16, rows: u16) -> GridView {
        GridView { cols, rows, ..self }.clear()
    }

    pub closed spec fn clear_row_as(self, row: u16, blank: Cell) -> GridView {
        if row >= self.rows {
            self
        } else {
            self.fill_rows(row as int, row + 1, blank)
        }
    }

    /// The end column that `clear_range_as` stops at.
    pub open spec fn range_end(self, end_col: u16) -> int {
        if end_col < self.cols { end_col as int } else { self.cols as int }
    }

    pub closed spec fn clear_range_as(self, row: u16, start_col: u16, end_col: u16, blank: Cell) -> GridView {
        if row >= self.rows {
            self
        } else {
            GridView {
                cells: self.cells.update(row as int,
                    fill_seq(self.cells[row as int], start_col as int, self.range_end(end_col), blank)),
                dirty: self.dirty.update(row as int, 1u8),
                ..self
            }
        }
    }

    pub closed spec fn clear_rows_as(self, start_row: u16, end_row: u16, blank: Cell) -> GridView {
        let start = if start_row < self.rows { start_row as int } else { self.rows as int };
        let end = if end_row < self.rows { end_row as int } else { self.rows as int };
        if start >= end {
            self
        } else {
            self.fill_rows(start, end, blank)
        }
    }

    /// Number of rows a scroll of `count` moves within `[top, bottom)`.
    pub open spec fn scroll_amount(top: u16, bottom: u16, count: u16) -> int {
        if count < bottom - top { count as int } else { bottom - top }
    }

    /// Rows `[top, bottom)` move up by `n`; the `n` rows freed at the bottom are blanked.
    pub closed spec fn scroll_up(self, top: u16, bottom: u16, count: u16, blank: Cell) -> GridView {
        if count == 0 || top >= bottom {
            self
        } else {
            let n = Self::scroll_amount(top, bottom, count);
            GridView {
                cells: Seq::new(self.cells.len(), |r: int|
                    if top <= r < bottom - n {
                        self.cells[r + n]
                    } else if bottom - n <= r < bottom {
                        fill_seq(self.cells[r], 0, self.cols as int, blank)
                    } else {
                        self.cells[r]
                    }),
                dirty: fill_seq(self.dirty, top as int, bottom as int, 1u8),
                ..self
            }
        }
    }

    /// Rows `[top, bottom)` move down by `n`; the `n` rows freed at the top are blanked.
    pub closed spec fn scroll_down(self, top: u16, bottom: u16, count: u16, blank: Cell) -> GridView {
        if count == 0 || top >= bottom {
            self
        } else {
            let n = Self::scroll_amount(top, bottom, count);
            GridView {
                cells: Seq::new(self.cells.len(), |r: int|
                    if top + n <= r < bottom {
                        self.cells[r - n]
                    } else if top <= r < top + n {
                        fill_seq(self.cells[r], 0, self.cols as int, blank)
                    } else {
                        self.cells[r]
                    }),
                dirty: fill_seq(self.dirty, top as int, bottom as int, 1u8),
                ..self
            }
        }
    }

    /// Columns `[from, to)` of the first `nrows` rows set to the blank cell; dirty flags unchanged.
    pub open spec fn blank_columns(self, nrows: int, from: int, to: int) -> GridView {
        GridView {
            cells: Seq::new(self.cells.len(), |r: int|
                if r < nrows { fill_seq(self.cells[r], from, to, blank_cell_with_bg(DEFAULT_COLOR)) } else { self.cells[r] }),
            ..self
        }
    }

    pub closed spec fn clear_dirty(self) -> GridView {
        GridView { dirty: fill_seq(self.dirty, 0, self.rows as int, 0u8), ..self }
    }
}

/// Blanking one more row after a run of blanked rows extends the run; a row below the
/// visible area is left alone.
pub proof fn lemma_fill_rows_step(g: GridView, a: int, r: int, blank: Cell)
    requires
        g.wf(),
        0 <= a <= r < MAX_ROWS,
    ensures
        g.fill_rows(a, r, blank).clear_row_as(r as u16, blank)
            == if r < g.rows { g.fill_rows(a, r + 1, blank) } else { g.fill_rows(a, r, blank) },
{
    if r < g.rows {
        let lhs = g.fill_rows(a, r, blank).clear_row_as(r as u16, blank);
        assert(lhs.cells =~= g.fill_rows(a, r + 1, blank).cells);
        assert(lhs.dirty =~= g.fill_rows(a, r + 1, blank).dirty);
    }
}

/// What `set_cell` does, spelt out.
pub proof fn lemma_set_cell(g: GridView, row: u16, col: u16, cell: Cell)
    ensures
        g.set_cell(row, col, cell) == if row >= g.rows || col >= g.cols {
            g
        } else {
            GridView {
                cells: g.cells.update(row as int, g.cells[row as int].update(col as int, cell)),
                dirty: g.dirty.update(row as int, 1u8),
                ..g
            }
        },
{
}

/// What `fill_rows` does, spelt out.
pub proof fn lemma_fill_rows_def(g: GridView, start: int, end: int, blank: Cell)
    ensures
        g.fill_rows(start, end, blank) == (GridView {
            cells: Seq::new(g.cells.len(), |r: int|
                if start <= r < end { fill_seq(g.cells[r], 0, g.cols as int, blank) } else { g.cells[r] }),
            dirty: fill_seq(g.dirty, start, end, 1u8),
            ..g
        }),
{
}

/// What `clear` and `reset` do, spelt out.
pub proof fn lemma_clear_reset_def(g: GridView, cols: u16, rows: u16)
    ensures
        g.clear() == g.fill_rows(0, g.rows as int, blank_cell_with_bg(DEFAULT_COLOR)),
        g.reset(cols, rows) == (GridView { cols, rows, ..g }).clear(),
{
}

/// What `clear_row_as`, `clear_range_as` and `clear_rows_as` do, spelt out.
pub proof fn lemma_clear_as_def(g: GridView, row: u16, start_col: u16, end_col: u16, start_row: u16,
    end_row: u16, blank: Cell)
    ensures
        g.clear_row_as(row, blank) == if row >= g.rows { g } else { g.fill_rows(row as int, row + 1, blank) },
        g.clear_range_as(row, start_col, end_col, blank) == if row >= g.rows {
            g
        } else {
            GridView {
                cells: g.cells.update(row as int,
                    fill_seq(g.cells[row as int], start_col as int, g.range_end(end_col), blank)),
                dirty: g.dirty.update(row as int, 1u8),
                ..g
            }
        },
        g.clear_rows_as(start_row, end_row, blank) == ({
            let start = if start_row < g.rows { start_row as int } else { g.rows as int };
            let end = if end_row < g.rows { end_row as int } else { g.rows as int };
            if start >= end { g } else { g.fill_rows(start, end, blank) }
        }),
{
}

/// What `scroll_up` and `scroll_down` do, spelt out.
pub proof fn lemma_scroll_def(g: GridView, top: u16, bottom: u16, count: u16, blank: Cell)
    ensures
        g.scroll_up(top, bottom, count, blank) == if count == 0 || top >= bottom {
            g
        } else {
            let n = GridView::scroll_amount(top, bottom, count);
            GridView {
                cells: Seq::new(g.cells.len(), |r: int|
                    if top <= r < bottom - n {
                        g.cells[r + n]
                    } else if bottom - n <= r < bottom {
                        fill_seq(g.cells[r], 0, g.cols as int, blank)
                    } else {
                        g.cells[r]
                    }),
                dirty: fill_seq(g.dirty, top as int, bottom as int, 1u8),
                ..g
            }
        },
        g.scroll_down(top, bottom, count, blank) == if count == 0 || top >= bottom {
            g
        } else {
            let n = GridView::scroll_amount(top, bottom, count);
            GridView {
                cells: Seq::new(g.cells.len(), |r: int|
                    if top + n <= r < bottom {
                        g.cells[r - n]
                    } else if top <= r < top + n {
                        fill_seq(g.cells[r], 0, g.cols as int, blank)
                    } else {
                        g.cells[r]
                    }),
                dirty: fill_seq(g.dirty, top as int, bottom as int, 1u8),
                ..g
            }
        },
{
}

/// What `clear_dirty` does, spelt out.
pub proof fn lemma_clear_dirty_def(g: GridView)
    ensures
        g.clear_dirty() == (GridView { dirty: fill_seq(g.dirty, 0, g.rows as int, 0u8), ..g }),
{
}

/// The grid operations keep the visible size (`reset` takes the one it is given).
pub proof fn lemma_operations_keep_size(g: GridView, row: u16, col: u16, cell: Cell, a: int, b: int,
    top: u16, bottom: u16, count: u16, end_col: u16, cols: u16, rows: u16)
    ensures
        g.set_cell(row, col, cell).cols == g.cols && g.set_cell(row, col, cell).rows == g.rows,
        g.fill_rows(a, b, cell).cols == g.cols && g.fill_rows(a, b, cell).rows == g.rows,
        g.clear_row_as(row, cell).cols == g.cols && g.clear_row_as(row, cell).rows == g.rows,
        g.clear_range_as(row, col, end_col, cell).cols == g.cols && g.clear_range_as(row, col, end_col, cell).rows == g.rows,
        g.scroll_up(top, bottom, count, cell).cols == g.cols && g.scroll_up(top, bottom, count, cell).rows == g.rows,
        g.scroll_down(top, bottom, count, cell).cols == g.cols && g.scroll_down(top, bottom, count, cell).rows == g.rows,
        g.reset(cols, rows).cols == cols && g.reset(cols, rows).rows == rows,
{
}

/// Blanking no rows changes nothing.
pub proof fn lemma_fill_rows_empty(g: GridView, a: int, b: int, blank: Cell)
    requires
        a >= b,
    ensures
        g.fill_rows(a, b, blank) == g,
{
    assert(g.fill_rows(a, b, blank).cells =~= g.cells);
    assert(g.fill_rows(a, b, blank).dirty =~= g.dirty);
}

/// Sets `row[start..end]` to `v`.
pub(crate) fn fill_vec<T: Copy>(row: &mut Vec<T>, start: usize, end: usize, v: T)
    requires
        start <= end <= old(row).len(),
    ensures
        final(row)@ == fill_seq(old(row)@, start as int, end as int, v),
{
    let mut i = start;
    while i < end
        invariant
            start <= i <= end <= row.len(),
            row@ == fill_seq(old(row)@, start as int, i as int, v),
        decreases end - i,
    {
        row.set(i, v);
        i += 1;
    }
}

impl Grid {
    pub open spec fn wf(&self) -> bool {
        self@.wf()
    }

    pub(crate) proof fn lemma_row_len(&self, r: int)
        requires
            self.wf(),
            0 <= r < MAX_ROWS,
        ensures
            self.cells@[r]@.len() == MAX_COLS,
            self.cells@[r]@ == self@.cells[r],
    {
        assert(self@.cells[r].len() == MAX_COLS);
    }

    /// A blank grid with every row dirty.
    pub fn new(cols: u16, rows: u16) -> (g: Grid)
        ensures
            g.wf(),
            g@ == GridView::fresh(cols, rows),
    {
        let mut cells: Vec<Vec<Cell>> = Vec::new();
        let mut r: usize = 0;
        while r < MAX_ROWS
            invariant
                r <= MAX_ROWS,
                cells@.len() == r,
                forall|i: int| 0 <= i < r ==> #[trigger] cells@[i]@ == Seq::new(MAX_COLS as nat, |c: int| blank_cell_with_bg(DEFAULT_COLOR)),
            decreases MAX_ROWS - r,
        {
            let mut row: Vec<Cell> = Vec::new();
            let mut c: usize = 0;
            while c < MAX_COLS
                invariant
                    c <= MAX_COLS,
                    row@.len() == c,
                    forall|j: int| 0 <= j < c ==> #[trigger] row@[j] == blank_cell_with_bg(DEFAULT_COLOR),
                decreases MAX_COLS - c,
            {
                row.push(Cell::blank());
                c += 1;
            }
            assert(row@ =~= Seq::new(MAX_COLS as nat, |c: int| blank_cell_with_bg(DEFAULT_COLOR)));
            cells.push(row);
            r += 1;
        }
        let mut dirty: Vec<u8> = Vec::new();
        let mut d: usize = 0;
        while d < MAX_ROWS
            invariant
                d <= MAX_ROWS,
                dirty@.len() == d,
                forall|j: int| 0 <= j < d ==> #[trigger] dirty@[j] == 1u8,
            decreases MAX_ROWS - d,
        {
            dirty.push(1);
            d += 1;
        }
        let g = Grid { cells, cols, rows, dirty };
        assert(g@ =~= GridView::fresh(cols, rows));
        g
    }

    /// A copy of the whole grid, invisible cells included.
    pub fn duplicate(&self) -> (g: Grid)
        requires
            self.wf(),
        ensures
            g.wf(),
            g@ == self@,
    {
        let mut cells: Vec<Vec<Cell>> = Vec::new();
        let mut r: usize = 0;
        while r < MAX_ROWS
            invariant
                r <= MAX_ROWS,
                self.wf(),
                cells@.len() == r,
                forall|i: int| 0 <= i < r ==> #[trigger] cells@[i]@ == self@.cells[i],
            decreases MAX_ROWS - r,
        {
            proof { self.lemma_row_len(r as int); }
            let row = self.cells[r].clone();
            assert(row@ =~= self@.cells[r as int]);
            cells.push(row);
            r += 1;
        }
        let mut dirty: Vec<u8> = Vec::new();
        let mut d: usize = 0;
        while d < MAX_ROWS
            invariant
                d <= MAX_ROWS,
                self.wf(),
                dirty@ == self.dirty@.take(d as int),
            decreases MAX_ROWS - d,
        {
            dirty.push(self.dirty[d]);
            d += 1;
            assert(dirty@ =~= self.dirty@.take(d as int));
        }
        assert(dirty@ =~= self.dirty@);
        let g = Grid { cells, cols: self.cols, rows: self.rows, dirty };
        assert(g@ =~= self@);
        g
    }

    /// Sets columns `[from, to)` of the first `nrows` rows to the blank cell, leaving the
    /// dirty flags alone.
    pub fn blank_columns(&mut self, nrows: usize, from: usize, to: usize)
        requires
            old(self).wf(),
            nrows <= MAX_ROWS,
            from <= to <= MAX_COLS,
        ensures
            final(self).wf(),
            final(self)@ == old(self)@.blank_columns(nrows as int, from as int, to as int),
    {
        let ghost g0 = self@;
        let mut r: usize = 0;
        while r < nrows
            invariant
                r <= nrows <= MAX_ROWS,
                from <= to <= MAX_COLS,
                self.wf(),
                self@ == g0.blank_columns(r as int, from as int, to as int),
            decreases nrows - r,
        {
            proof { self.lemma_row_len(r as int); }
            let ghost before = self@;
            fill_vec(&mut self.cells[r], from, to, Cell::blank());
            assert(self@.cells =~= before.cells.update(r as int,
                fill_seq(before.cells[r as int], from as int, to as int, blank_cell_with_bg(DEFAULT_COLOR))));
            assert(self@ =~= g0.blank_columns(r + 1, from as int, to as int));
            r += 1;
        }
    }

    /// Blanks the visible columns of rows `[start, end)` and marks them dirty.
    fn fill_rows(&mut self, start: usize, end: usize, blank: Cell)
        requires
            old(self).wf(),
            start <= end <= MAX_ROWS,
            start < end ==> old(self).cols <= MAX_COLS,
        ensures
            final(self).wf(),
            final(self)@ == old(self)@.fill_rows(start as int, end as int, blank),
    {
        let ghost g0 = self@;
        let cols = self.cols as usize;
        let mut r = start;
        while r < end
            invariant
                start <= r <= end <= MAX_ROWS,
                cols == self.cols,
                start < end ==> cols <= MAX_COLS,
                self.wf(),
                self@ == g0.fill_rows(start as int, r as int, blank),
            decreases end - r,
        {
            proof { self.lemma_row_len(r as int); }
            let ghost before = self@;
            fill_vec(&mut self.cells[r], 0, cols, blank);
            self.dirty.set(r, 1);
            assert(self@.cells =~= before.cells.update(r as int, fill_seq(before.cells[r as int], 0, cols as int, blank)));
            assert(self@ =~= g0.fill_rows(start as int, r + 1, blank));
            r += 1;
        }
    }

    /// Resizes the visible area and blanks it.
    pub fn reset(&mut self, cols: u16, rows: u16)
        requires
            old(self).wf(),
            rows <= MAX_ROWS,
            rows > 0 ==> cols <= MAX_COLS,
        ensures
            final(self).wf(),
            final(self).cols == cols,
            final(self).rows == rows,
            final(self)@ == old(self)@.reset(cols, rows),
    {
        self.cols = cols;
        self.rows = rows;
        self.clear();
    }

    /// The cell at `(row, col)`, or a blank cell outside the visible area.
    pub fn get_cell(&self, row: u16, col: u16) -> (c: Cell)
        requires
            self.wf(),
            row < self.rows && col < self.cols ==> row < MAX_ROWS && col < MAX_COLS,
        ensures
            c == self@.cell_at(row as int, col as int),
    {
        if row >= self.rows || col >= self.cols {
            return Cell::blank();
        }
        proof { self.lemma_row_len(row as int); }
        self.cells[row as usize][col as usize]
    }

    /// Writes `cell` at `(row, col)` and marks the row dirty; does nothing outside the visible area.
    pub fn set_cell(&mut self, row: u16, col: u16, cell: Cell)
        requires
            old(self).wf(),
            row < old(self).rows && col < old(self).cols ==> row < MAX_ROWS && col < MAX_COLS,
        ensures
            final(self).wf(),
            final(self).cols == old(self).cols,
            final(self).rows == old(self).rows,
            final(self)@ == old(self)@.set_cell(row, col, cell),
    {
        if row >= self.rows || col >= self.cols {
            return;
        }
        let ghost g0 = self@;
        proof { self.lemma_row_len(row as int); }
        self.cells[row as usize].set(col as usize, cell);
        self.dirty.set(row as usize, 1);
        assert(self@ =~= g0.set_cell(row, col, cell));
    }

    /// Blanks the visible area and marks every visible row dirty.
    pub fn clear(&mut self)
        requires
            old(self).wf(),
            old(self).rows <= MAX_ROWS,
            old(self).rows > 0 ==> old(self).cols <= MAX_COLS,
        ensures
            final(self).wf(),
            final(self).cols == old(self).cols,
            final(self).rows == old(self).rows,
            final(self)@ == old(self)@.clear(),
    {
        let rows = self.rows as usize;
        self.fill_rows(0, rows, Cell::blank());
    }

    /// Fills the visible columns of `row` with `blank`; does nothing below the visible area.
    pub fn clear_row_as(&mut self, row: u16, blank: Cell)
        requires
            old(self).wf(),
            row < old(self).rows ==> row < MAX_ROWS && old(self).cols <= MAX_COLS,
        ensures
            final(self).wf(),
            final(self).cols == old(self).cols,
            final(self).rows == old(self).rows,
            final(self)@ == old(self)@.clear_row_as(row, blank),
            row >= old(self).rows ==> final(self)@ == old(self)@,
    {
        if row >= self.rows {
            return;
        }
        self.fill_rows(row as usize, row as usize + 1, blank);
    }

    /// `clear_range_as` with the default blank cell.
    pub fn clear_range(&mut self, row: u16, start_col: u16, end_col: u16)
        requires
            old(self).wf(),
            row < old(self).rows ==> {
                &&& row < MAX_ROWS
                &&& start_col <= old(self)@.range_end(end_col)
                &&& old(self)@.range_end(end_col) <= MAX_COLS
            },
        ensures
            final(self).wf(),
            final(self).cols == old(self).cols,
            final(self).rows == old(self).rows,
            final(self)@ == old(self)@.clear_range_as(row, start_col, end_col, blank_cell_with_bg(DEFAULT_COLOR)),
    {
        self.clear_range_as(row, start_col, end_col, Cell::blank());
    }

    /// Fills columns `[start_col, min(end_col, cols))` of `row` with `blank` and marks it dirty;
    /// does nothing below the visible area.
    pub fn clear_range_as(&mut self, row: u16, start_col: u16, end_col: u16, blank: Cell)
        requires
            old(self).wf(),
            row < old(self).rows ==> {
                &&& row < MAX_ROWS
                &&& start_col <= old(self)@.range_end(end_col)
                &&& old(self)@.range_end(end_col) <= MAX_COLS
            },
        ensures
            final(self).wf(),
            final(self).cols == old(self).cols,
            final(self).rows == old(self).rows,
            final(self)@ == old(self)@.clear_range_as(row, start_col, end_col, blank),
    {
        if row >= self.rows {
            return;
        }
        let ghost g0 = self@;
        let end = if end_col < self.cols { end_col } else { self.cols } as usize;
        proof { self.lemma_row_len(row as int); }
        fill_vec(&mut self.cells[row as usize], start_col as usize, end, blank);
        self.dirty.set(row as usize, 1);
        assert(self@ =~= g0.clear_range_as(row, start_col, end_col, blank));
    }

    /// Fills the visible columns of rows `[start_row, end_row)`, cut to the visible rows.
    pub fn clear_rows_as(&mut self, start_row: u16, end_row: u16, blank: Cell)
        requires
            old(self).wf(),
            ({
                let start = if start_row < old(self).rows { start_row } else { old(self).rows };
                let end = if end_row < old(self).rows { end_row } else { old(self).rows };
                start < end ==> end <= MAX_ROWS && old(self).cols <= MAX_COLS
            }),
        ensures
            final(self).wf(),
            final(self).cols == old(self).cols,
            final(self).rows == old(self).rows,
            final(self)@ == old(self)@.clear_rows_as(start_row, end_row, blank),
    {
        let start = if start_row < self.rows { start_row } else { self.rows } as usize;
        let end = if end_row < self.rows { end_row } else { self.rows } as usize;
        if start >= end {
            return;
        }
        self.fill_rows(start, end, blank);
    }

    /// Moves rows `[top, bottom)` up by `min(count, bottom - top)`, blanking the rows freed at
    /// the bottom and marking the region dirty.
    pub fn scroll_up(&mut self, top: u16, bottom: u16, count: u16, blank: Cell)
        requires
            old(self).wf(),
            count != 0 && top < bottom ==> bottom <= MAX_ROWS && old(self).cols <= MAX_COLS,
        ensures
            final(self).wf(),
            final(self).cols == old(self).cols,
            final(self).rows == old(self).rows,
            final(self)@ == old(self)@.scroll_up(top, bottom, count, blank),
    {
        if count == 0 || top >= bottom {
            return;
        }
        let ghost g0 = self@;
        let n = if count < bottom - top { count } else { bottom - top } as usize;
        let top = top as usize;
        let bottom = bottom as usize;
        let mut r = top;
        while r < bottom - n
            invariant
                top <= r <= bottom - n,
                n <= bottom - top,
                bottom <= MAX_ROWS,
                g0.cols <= MAX_COLS,
                self.wf(),
                self.cols == g0.cols,
                self.rows == g0.rows,
                self.dirty@ == g0.dirty,
                forall|i: int| 0 <= i < MAX_ROWS ==> #[trigger] self@.cells[i] ==
                    if top <= i < r { g0.cells[i + n] } else { g0.cells[i] },
            decreases bottom - n - r,
        {
            proof { self.lemma_row_len((r + n) as int); }
            let row = self.cells[r + n].clone();
            assert(row@ =~= g0.cells[r + n]);
            let ghost before = self@;
            self.cells.set(r, row);
            assert(forall|i: int| 0 <= i < MAX_ROWS && i != r ==> #[trigger] self@.cells[i] == before.cells[i]);
            r += 1;
        }
        fill_vec(&mut self.dirty, top, bottom - n, 1u8);
        self.fill_rows(bottom - n, bottom, blank);
        assert(self@ =~= g0.scroll_up(top as u16, bottom as u16, count, blank));
    }

    /// Moves rows `[top, bottom)` down by `min(count, bottom - top)`, blanking the rows freed at
    /// the top and marking the region dirty.
    pub fn scroll_down(&mut self, top: u16, bottom: u16, count: u16, blank: Cell)
        requires
            old(self).wf(),
            count != 0 && top < bottom ==> bottom <= MAX_ROWS && old(self).cols <= MAX_COLS,
        ensures
            final(self).wf(),
            final(self).cols == old(self).cols,
            final(self).rows == old(self).rows,
            final(self)@ == old(self)@.scroll_down(top, bottom, count, blank),
    {
        if count == 0 || top >= bottom {
            return;
        }
        let ghost g0 = self@;
        let n = if count < bottom - top { count } else { bottom - top } as usize;
        let top = top as usize;
        let bottom = bottom as usize;
        let mut r = bottom;
        while r > top + n
            invariant
                top + n <= r <= bottom,
                n <= bottom - top,
                bottom <= MAX_ROWS,
                g0.cols <= MAX_COLS,
                self.wf(),
                self.cols == g0.cols,
                self.rows == g0.rows,
                self.dirty@ == g0.dirty,
                forall|i: int| 0 <= i < MAX_ROWS ==> #[trigger] self@.cells[i] ==
                    if r <= i < bottom { g0.cells[i - n] } else { g0.cells[i] },
            decreases r,
        {
            r -= 1;
            proof { self.lemma_row_len((r - n) as int); }
            let row = self.cells[r - n].clone();
            assert(row@ =~= g0.cells[r - n]);
            let ghost before = self@;
            self.cells.set(r, row);
            assert(forall|i: int| 0 <= i < MAX_ROWS && i != r ==> #[trigger] self@.cells[i] == before.cells[i]);
        }
        fill_vec(&mut self.dirty, top + n, bottom, 1u8);
        self.fill_rows(top, top + n, blank);
        assert(self@ =~= g0.scroll_down(top as u16, bottom as u16, count, blank));
    }

    /// Clears the dirty flag of every visible row.
    pub fn clear_dirty(&mut self)
        requires
            old(self).wf(),
            old(self).rows <= MAX_ROWS,
        ensures
            final(self).wf(),
            final(self).cols == old(self).cols,
            final(self).rows == old(self).rows,
            final(self)@ == old(self)@.clear_dirty(),
    {
        let rows = self.rows as usize;
        fill_vec(&mut self.dirty, 0, rows, 0u8);
        assert(self@ =~= old(self)@.clear_dirty());
    }
}

/// Reading a cell gives back what was last written there; writing one cell leaves every
/// other cell as it was.
pub proof fn lemma_get_after_set(g: GridView, row: u16, col: u16, cell: Cell, r: int, c: int)
    requires
        g.wf(),
        g.fits(),
        0 <= r,
        0 <= c,
    ensures
        g.set_cell(row, col, cell).cell_at(r, c) == if r == row && c == col && row < g.rows && col < g.cols {
            cell
        } else {
            g.cell_at(r, c)
        },
{
}

/// Every row whose cells changed from `g` to `h`, or that was already dirty in `g`, is
/// dirty in `h`.
pub open spec fn changes_marked(g: GridView, h: GridView) -> bool {
    forall|r: int| 0 <= r < MAX_ROWS && #[trigger] h.dirty[r] != 1 ==> h.cells[r] == g.cells[r] && g.dirty[r] != 1
}

/// Marking is transitive: two steps that each mark their changes mark the changes of both.
pub proof fn lemma_changes_marked_trans(g: GridView, h: GridView, k: GridView)
    requires
        changes_marked(g, h),
        changes_marked(h, k),
    ensures
        changes_marked(g, k),
{
    assert forall|r: int| 0 <= r < MAX_ROWS && #[trigger] k.dirty[r] != 1 implies k.cells[r] == g.cells[r]
        && g.dirty[r] != 1 by {
        assert(h.dirty[r] != 1);
    }
}

/// Dirty-row tracking: every grid operation marks the rows whose cells it changes, and
/// clears no dirty flag.
pub proof fn lemma_operations_mark_changes(g: GridView, row: u16, col: u16, cell: Cell, a: int, b: int,
    top: u16, bottom: u16, count: u16, end_col: u16, cols: u16, rows: u16)
    requires
        g.wf(),
        g.fits(),
    ensures
        changes_marked(g, g),
        changes_marked(g, g.set_cell(row, col, cell)),
        changes_marked(g, g.fill_rows(a, b, cell)),
        changes_marked(g, g.clear_row_as(row, cell)),
        changes_marked(g, g.clear_range_as(row, col, end_col, cell)),
        changes_marked(g, g.clear_rows_as(top, bottom, cell)),
        changes_marked(g, g.scroll_up(top, bottom, count, cell)),
        changes_marked(g, g.scroll_down(top, bottom, count, cell)),
        changes_marked(g, g.clear()),
        changes_marked(g, g.reset(cols, rows)),
{
    let f = g.fill_rows(a, b, cell);
    assert forall|r: int| 0 <= r < MAX_ROWS && #[trigger] f.dirty[r] != 1 implies f.cells[r] == g.cells[r]
        && g.dirty[r] != 1 by {
    }
    let c = g.clear();
    assert forall|r: int| 0 <= r < MAX_ROWS && #[trigger] c.dirty[r] != 1 implies c.cells[r] == g.cells[r]
        && g.dirty[r] != 1 by {
    }
    let z = g.reset(cols, rows);
    assert forall|r: int| 0 <= r < MAX_ROWS && #[trigger] z.dirty[r] != 1 implies z.cells[r] == g.cells[r]
        && g.dirty[r] != 1 by {
    }
}

/// The grid operations keep the arrays' shape and, but for `reset`, the visible size.
pub proof fn lemma_operations_keep_shape(g: GridView, row: u16, col: u16, cell: Cell, a: int, b: int,
    top: u16, bottom: u16, count: u16, end_col: u16)
    requires
        g.wf(),
        g.fits(),
        bottom <= MAX_ROWS,
    ensures
        g.set_cell(row, col, cell).wf() && g.set_cell(row, col, cell).cols == g.cols && g.set_cell(row, col, cell).rows == g.rows,
        g.fill_rows(a, b, cell).wf() && g.fill_rows(a, b, cell).cols == g.cols && g.fill_rows(a, b, cell).rows == g.rows,
        g.clear_row_as(row, cell).wf() && g.clear_row_as(row, cell).cols == g.cols && g.clear_row_as(row, cell).rows == g.rows,
        g.clear_range_as(row, col, end_col, cell).wf() && g.clear_range_as(row, col, end_col, cell).cols == g.cols
            && g.clear_range_as(row, col, end_col, cell).rows == g.rows,
        g.scroll_up(top, bottom, count, cell).wf() && g.scroll_up(top, bottom, count, cell).cols == g.cols
            && g.scroll_up(top, bottom, count, cell).rows == g.rows,
        g.scroll_down(top, bottom, count, cell).wf() && g.scroll_down(top, bottom, count, cell).cols == g.cols
            && g.scroll_down(top, bottom, count, cell).rows == g.rows,
        g.reset(end_col, count).wf() && g.reset(end_col, count).cols == end_col && g.reset(end_col, count).rows == count,
{
    assert forall|r: int| 0 <= r < MAX_ROWS implies #[trigger] g.set_cell(row, col, cell).cells[r].len() == MAX_COLS by {
        if row < g.rows && col < g.cols && r == row {
        }
    }
    assert forall|r: int| 0 <= r < MAX_ROWS implies #[trigger] g.clear_range_as(row, col, end_col, cell).cells[r].len() == MAX_COLS by {
    }
}

/// Blanking rows `[a, b)` sets their visible cells and leaves other rows alone.
pub proof fn lemma_fill_rows_cells(g: GridView, a: int, b: int, blank: Cell, r: int, c: int)
    requires
        g.wf(),
        g.fits(),
        0 <= r < MAX_ROWS,
        0 <= c < MAX_COLS,
    ensures
        g.fill_rows(a, b, blank).cells[r][c] == if a <= r < b && c < g.cols { blank } else { g.cells[r][c] },
        g.fill_rows(a, b, blank).cols == g.cols,
        g.fill_rows(a, b, blank).rows == g.rows,
{
}

/// Resetting to a size twice is resetting once.
pub proof fn lemma_reset_twice(g: GridView, cols: u16, rows: u16)
    requires
        g.wf(),
    ensures
        g.reset(cols, rows).reset(cols, rows) == g.reset(cols, rows),
{
    let once = g.reset(cols, rows);
    assert forall|r: int| 0 <= r < once.cells.len() implies #[trigger] once.reset(cols, rows).cells[r] == once.cells[r] by {
        assert(once.reset(cols, rows).cells[r] =~= once.cells[r]);
    }
    assert(once.reset(cols, rows).cells =~= once.cells);
    assert(once.reset(cols, rows).dirty =~= once.dirty);
}

} // verus!
