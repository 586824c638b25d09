use vstd::prelude::*;
use crate::cell::{Cell, DEFAULT_COLOR, blank_cell_with_bg};
use crate::grid::MAX_COLS;

verus! {

pub const MAX_SCROLLBACK_LINES: usize = 1000;

/// A line that scrolled off the screen: `MAX_COLS` cells of which the first `len` count.
pub struct ScrollbackLine {
    pub cells: Vec<Cell>,
    pub len: u16,
}

#[verifier::ext_equal]
pub struct ScrollbackLineView {
    pub cells: Seq<Cell>,
    pub len: u16,
}

impl View for ScrollbackLine {
    type V = ScrollbackLineView;

    open spec fn view(&self) -> ScrollbackLineView {
        ScrollbackLineView { cells: self.cells@, len: self.len }
    }
}

/// A blank line of length 0.
pub open spec fn empty_line() -> ScrollbackLineView {
    ScrollbackLineView { cells: Seq::new(MAX_COLS as nat, |c: int| blank_cell_with_bg(DEFAULT_COLOR)), len: 0 }
}

impl ScrollbackLine {
    pub fn new() -> (l: ScrollbackLine)
        ensures
            l@ == empty_line(),
    {
        let mut cells: Vec<Cell> = Vec::new();
        let mut c: usize = 0;
        while c < MAX_COLS
            invariant
                c <= MAX_COLS,
                cells@.len() == c,
                forall|j: int| 0 <= j < c ==> #[trigger] cells@[j] == blank_cell_with_bg(DEFAULT_COLOR),
            decreases MAX_COLS - c,
        {
            cells.push(Cell::blank());
            c += 1;
        }
        let l = ScrollbackLine { cells, len: 0 };
        assert(l@ =~= empty_line());
        l
    }
}

/// A ring buffer of the last `MAX_SCROLLBACK_LINES` lines that left the screen.
/// `write_pos` is the slot the next line goes to; `count` how many slots hold history.
pub struct Scrollback {
    pub lines: Vec<ScrollbackLine>,
    pub count: u32,
    pub write_pos: u32,
}

#[verifier::ext_equal]
pub struct ScrollbackView {
    pub lines: Seq<ScrollbackLineView>,
    pub count: u32,
    pub write_pos: u32,
}

impl View for Scrollback {
    type V = ScrollbackView;

    open spec fn view(&self) -> ScrollbackView {
        ScrollbackView {
            lines: self.lines@.map_values(|l: ScrollbackLine| l@),
            count: self.count,
            write_pos: self.write_pos,
        }
    }
}

impl ScrollbackView {
    pub open spec fn wf(self) -> bool {
        &&& self.lines.len() == MAX_SCROLLBACK_LINES
        &&& forall|i: int| 0 <= i < MAX_SCROLLBACK_LINES ==> #[trigger] self.lines[i].cells.len() == MAX_COLS
        &&& self.count <= MAX_SCROLLBACK_LINES
        &&& self.write_pos < MAX_SCROLLBACK_LINES
        &&& self.count < MAX_SCROLLBACK_LINES ==> self.write_pos == self.count
    }

    /// The slot holding the line `offset` places back from the newest one.
    pub open spec fn slot(self, offset: int) -> int {
        if self.count < MAX_SCROLLBACK_LINES {
            self.count - 1 - offset
        } else {
            (self.write_pos + MAX_SCROLLBACK_LINES - 1 - offset) % (MAX_SCROLLBACK_LINES as int)
        }
    }

    /// The stored lines, newest first.
    pub open spec fn history(self) -> Seq<ScrollbackLineView> {
        Seq::new(self.count as nat, |k: int| self.lines[self.slot(k)])
    }

    /// No history, every slot holding an empty line.
    pub open spec fn empty() -> ScrollbackView {
        ScrollbackView {
            lines: Seq::new(MAX_SCROLLBACK_LINES as nat, |i: int| empty_line()),
            count: 0,
            write_pos: 0,
        }
    }

    pub open spec fn reset(self) -> ScrollbackView {
        ScrollbackView { count: 0, write_pos: 0, ..self }
    }

    /// The line that `push(row, len)` stores: the old contents of the slot with its first
    /// `len` cells taken from `row`.
    pub open spec fn pushed_line(self, row: Seq<Cell>, len: u16) -> ScrollbackLineView {
        let old_line = self.lines[self.write_pos as int];
        ScrollbackLineView {
            cells: Seq::new(old_line.cells.len(), |c: int| if c < len { row[c] } else { old_line.cells[c] }),
            len,
        }
    }

    pub open spec fn push(self, row: Seq<Cell>, len: u16) -> ScrollbackView {
        ScrollbackView {
            lines: self.lines.update(self.write_pos as int, self.pushed_line(row, len)),
            count: if self.count < MAX_SCROLLBACK_LINES { (self.count + 1) as u32 } else { self.count },
            write_pos: ((self.write_pos + 1) % (MAX_SCROLLBACK_LINES as int)) as u32,
        }
    }
}

/// Pushing a line puts it in front of the history, which keeps every earlier line behind it
/// in order, up to `MAX_SCROLLBACK_LINES` lines; the oldest line is dropped when full.
pub proof fn lemma_push_history(s: ScrollbackView, row: Seq<Cell>, len: u16)
    requires
        s.wf(),
        len <= row.len(),
        len <= MAX_COLS,
    ensures
        s.push(row, len).wf(),
        s.push(row, len).history().len() == if s.count < MAX_SCROLLBACK_LINES { s.count + 1 } else { s.count as int },
        s.push(row, len).history()[0] == s.pushed_line(row, len),
        s.push(row, len).history()[0].len == len,
        s.push(row, len).history()[0].cells.take(len as int) == row.take(len as int),
        forall|k: int| 1 <= k < s.push(row, len).history().len() ==>
            #[trigger] s.push(row, len).history()[k] == s.history()[k - 1],
{
    let t = s.push(row, len);
    let m = MAX_SCROLLBACK_LINES as int;
    assert(s.lines[s.write_pos as int].cells.len() == MAX_COLS);
    assert(t.lines[s.write_pos as int] == s.pushed_line(row, len));
    assert forall|i: int| 0 <= i < MAX_SCROLLBACK_LINES implies #[trigger] t.lines[i].cells.len() == MAX_COLS by {
        if i != s.write_pos {
            assert(t.lines[i] == s.lines[i]);
        }
    }
    assert(t.slot(0) == s.write_pos);
    assert forall|k: int| 1 <= k < t.history().len() implies #[trigger] t.history()[k] == s.history()[k - 1] by {
        assert(t.slot(k) == s.slot(k - 1));
        assert(s.slot(k - 1) != s.write_pos);
    }
    assert(t.history()[0] == s.pushed_line(row, len));
    assert(t.history()[0].cells.take(len as int) =~= row.take(len as int));
}

impl Scrollback {
    pub open spec fn wf(&self) -> bool {
        self@.wf()
    }

    /// An empty scrollback.
    pub fn new() -> (s: Scrollback)
        ensures
            s.wf(),
            s@ == ScrollbackView::empty(),
    {
        let mut lines: Vec<ScrollbackLine> = Vec::new();
        let mut i: usize = 0;
        while i < MAX_SCROLLBACK_LINES
            invariant
                i <= MAX_SCROLLBACK_LINES,
                lines@.len() == i,
                forall|j: int| 0 <= j < i ==> #[trigger] lines@[j]@ == empty_line(),
            decreases MAX_SCROLLBACK_LINES - i,
        {
            lines.push(ScrollbackLine::new());
            i += 1;
        }
        let s = Scrollback { lines, count: 0, write_pos: 0 };
        assert(s@ =~= ScrollbackView::empty());
        s
    }

    /// Forgets every stored line.
    pub fn reset(&mut self)
        requires
            old(self).wf(),
        ensures
            final(self).wf(),
            final(self)@ == old(self)@.reset(),
    {
        self.count = 0;
        self.write_pos = 0;
    }

    /// Stores the first `len` cells of `row` as the newest line, evicting the oldest line
    /// when the buffer is full.
    pub fn push(&mut self, row: &[Cell], len: u16)
        requires
            old(self).wf(),
            len <= row@.len(),
            len <= MAX_COLS,
        ensures
            final(self).wf(),
            final(self)@ == old(self)@.push(row@, len),
    {
        let ghost s0 = self@;
        let w = self.write_pos as usize;
        assert(s0.lines[w as int].cells.len() == MAX_COLS);
        let limit = len as usize;
        let mut c: usize = 0;
        while c < limit
            invariant
                c <= limit <= MAX_COLS,
                limit == len,
                len <= row@.len(),
                w == s0.write_pos,
                w < MAX_SCROLLBACK_LINES,
                self.lines@.len() == MAX_SCROLLBACK_LINES,
                s0.wf(),
                self.write_pos == s0.write_pos,
                self.count == s0.count,
                self@.lines.len() == MAX_SCROLLBACK_LINES,
                forall|i: int| 0 <= i < MAX_SCROLLBACK_LINES && i != w ==> #[trigger] self@.lines[i] == s0.lines[i],
                self@.lines[w as int].len == s0.lines[w as int].len,
                self@.lines[w as int].cells == Seq::new(MAX_COLS as nat, |j: int|
                    if j < c { row@[j] } else { s0.lines[w as int].cells[j] }),
            decreases limit - c,
        {
            let ghost before = self@;
            self.lines[w].cells.set(c, row[c]);
            assert(forall|i: int| 0 <= i < MAX_SCROLLBACK_LINES && i != w ==> #[trigger] self@.lines[i] == before.lines[i]);
            c += 1;
            assert(self@.lines[w as int].cells =~= Seq::new(MAX_COLS as nat, |j: int|
                    if j < c { row@[j] } else { s0.lines[w as int].cells[j] }));
        }
        let ghost before = self@;
        self.lines[w].len = len;
        assert(forall|i: int| 0 <= i < MAX_SCROLLBACK_LINES && i != w ==> #[trigger] self@.lines[i] == before.lines[i]);
        assert(self@.lines[w as int] =~= s0.pushed_line(row@, len));
        self.write_pos = (self.write_pos + 1) % (MAX_SCROLLBACK_LINES as u32);
        if self.count < MAX_SCROLLBACK_LINES as u32 {
            self.count += 1;
        }
        assert(self@.lines =~= s0.push(row@, len).lines);
    }

    /// The line `offset` places back from the newest one, if there is one.
    pub fn get_line(&self, offset: u32) -> (r: Option<&ScrollbackLine>)
        requires
            self.wf(),
        ensures
            r.is_some() == (offset < self.count),
            r matches Some(l) ==> l@ == self@.history()[offset as int],
    {
        if offset >= self.count {
            return None;
        }
        let idx = if self.count < MAX_SCROLLBACK_LINES as u32 {
            self.count - 1 - offset
        } else {
            (self.write_pos + MAX_SCROLLBACK_LINES as u32 - 1 - offset) % (MAX_SCROLLBACK_LINES as u32)
        };
        Some(&self.lines[idx as usize])
    }
}

} // verus!
