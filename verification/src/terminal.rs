use vstd::prelude::*;
use vstd::array::spec_array_fill_for_copy_type;
use crate::cell::{Cell, DEFAULT_COLOR, blank_cell_with_bg};
use crate::grid::{Grid, GridView, MAX_COLS, MAX_ROWS, fill_vec};
use crate::parser::{Action, Parser};
use crate::grid::fill_seq;
use crate::edit::{push_rows, min_int};
use crate::tracking::{screen_changes_marked, lemma_screen_same, lemma_screen_trans, lemma_step_marks_changes};
use crate::scrollback::{Scrollback, ScrollbackView};

verus! {

pub const DEBUG_LOG_MAX: usize = 32;

/// A record of a control sequence the terminal does not implement.
#[derive(Clone, Copy)]
pub struct DebugLogEntry {
    pub final_byte: u8,
    pub private_marker: u8,
    pub param_count: u8,
    pub _pad: u8,
    pub params: [u16; 4],
}

pub open spec fn empty_log_entry() -> DebugLogEntry {
    DebugLogEntry {
        final_byte: 0,
        private_marker: 0,
        param_count: 0,
        _pad: 0,
        params: spec_array_fill_for_copy_type::<u16, 4>(0),
    }
}

impl Default for DebugLogEntry {
    /// The empty entry: all fields zero.
    fn default() -> (e: DebugLogEntry)
        ensures
            e == empty_log_entry(),
    {
        new_log_entry()
    }
}

fn new_log_entry() -> (e: DebugLogEntry)
    ensures
        e == empty_log_entry(),
{
    DebugLogEntry { final_byte: 0, private_marker: 0, param_count: 0, _pad: 0, params: [0u16; 4] }
}

/// The terminal: screen, alternate screen, scrollback, parser, cursor and modes.
pub struct Terminal {
    pub grid: Grid,
    pub parser: Parser,
    pub scrollback: Scrollback,
    pub cols: u16,
    pub rows: u16,
    pub cursor_row: u16,
    pub cursor_col: u16,
    pub cursor_visible: bool,
    pub wrap_pending: bool,
    pub saved_cursor_row: u16,
    pub saved_cursor_col: u16,
    pub saved_fg: u32,
    pub saved_bg: u32,
    pub saved_flags: u8,
    pub current_fg: u32,
    pub current_bg: u32,
    pub current_flags: u8,
    pub scroll_top: u16,
    pub scroll_bottom: u16,
    pub auto_wrap: bool,
    pub origin_mode: bool,
    pub cursor_keys_app: bool,
    pub bracketed_paste: bool,
    pub linefeed_mode: bool,
    pub alt_grid: Grid,
    pub alt_saved_cursor_row: u16,
    pub alt_saved_cursor_col: u16,
    pub alt_saved_fg: u32,
    pub alt_saved_bg: u32,
    pub alt_saved_flags: u8,
    pub using_alt_screen: bool,
    pub title_buf: [u8; 256],
    pub title_len: u16,
    pub title_changed: bool,
    pub response_buf: [u8; 64],
    pub response_len: u8,
    pub debug_log: [DebugLogEntry; DEBUG_LOG_MAX],
    pub debug_log_idx: u8,
    pub debug_log_count: u32,
    pub tab_stops: [u8; MAX_COLS],
}

/// Mathematical picture of a terminal: the same fields, with grids, scrollback and
/// buffers seen as sequences.
#[verifier::ext_equal]
pub struct TerminalView {
    pub grid: GridView,
    pub parser: Parser,
    pub scrollback: ScrollbackView,
    pub cols: u16,
    pub rows: u16,
    pub cursor_row: u16,
    pub cursor_col: u16,
    pub cursor_visible: bool,
    pub wrap_pending: bool,
    pub saved_cursor_row: u16,
    pub saved_cursor_col: u16,
    pub saved_fg: u32,
    pub saved_bg: u32,
    pub saved_flags: u8,
    pub current_fg: u32,
    pub current_bg: u32,
    pub current_flags: u8,
    pub scroll_top: u16,
    pub scroll_bottom: u16,
    pub auto_wrap: bool,
    pub origin_mode: bool,
    pub cursor_keys_app: bool,
    pub bracketed_paste: bool,
    pub linefeed_mode: bool,
    pub alt_grid: GridView,
    pub alt_saved_cursor_row: u16,
    pub alt_saved_cursor_col: u16,
    pub alt_saved_fg: u32,
    pub alt_saved_bg: u32,
    pub alt_saved_flags: u8,
    pub using_alt_screen: bool,
    pub title_buf: Seq<u8>,
    pub title_len: u16,
    pub title_changed: bool,
    pub response_buf: Seq<u8>,
    pub response_len: u8,
    pub debug_log: Seq<DebugLogEntry>,
    pub debug_log_idx: u8,
    pub debug_log_count: u32,
    pub tab_stops: Seq<u8>,
}

impl View for Terminal {
    type V = TerminalView;

    open spec fn view(&self) -> TerminalView {
        TerminalView {
            grid: self.grid@,
            parser: self.parser,
            scrollback: self.scrollback@,
            cols: self.cols,
            rows: self.rows,
            cursor_row: self.cursor_row,
            cursor_col: self.cursor_col,
            cursor_visible: self.cursor_visible,
            wrap_pending: self.wrap_pending,
            saved_cursor_row: self.saved_cursor_row,
            saved_cursor_col: self.saved_cursor_col,
            saved_fg: self.saved_fg,
            saved_bg: self.saved_bg,
            saved_flags: self.saved_flags,
            current_fg: self.current_fg,
            current_bg: self.current_bg,
            current_flags: self.current_flags,
            scroll_top: self.scroll_top,
            scroll_bottom: self.scroll_bottom,
            auto_wrap: self.auto_wrap,
            origin_mode: self.origin_mode,
            cursor_keys_app: self.cursor_keys_app,
            bracketed_paste: self.bracketed_paste,
            linefeed_mode: self.linefeed_mode,
            alt_grid: self.alt_grid@,
            alt_saved_cursor_row: self.alt_saved_cursor_row,
            alt_saved_cursor_col: self.alt_saved_cursor_col,
            alt_saved_fg: self.alt_saved_fg,
            alt_saved_bg: self.alt_saved_bg,
            alt_saved_flags: self.alt_saved_flags,
            using_alt_screen: self.using_alt_screen,
            title_buf: self.title_buf@,
            title_len: self.title_len,
            title_changed: self.title_changed,
            response_buf: self.response_buf@,
            response_len: self.response_len,
            debug_log: self.debug_log@,
            debug_log_idx: self.debug_log_idx,
            debug_log_count: self.debug_log_count,
            tab_stops: self.tab_stops@,
        }
    }
}

/// A tab stop every eight columns, column 0 excepted.
pub open spec fn initial_tab_stops() -> Seq<u8> {
    Seq::new(MAX_COLS as nat, |i: int| if i >= 8 && i % 8 == 0 { 1u8 } else { 0u8 })
}

/// `value` brought into `1..=max`.
pub open spec fn clamped(value: u16, max: u16) -> u16 {
    if value == 0 { 1 } else if value > max { max } else { value }
}

impl TerminalView {
    /// The size lies in `1..=MAX`, the cursor and the saved cursors inside the cell
    /// arrays, the scroll region is a non-empty band of the screen, and every buffer
    /// index is inside its buffer.
    pub open spec fn wf(self) -> bool {
        &&& self.grid.wf()
        &&& self.grid.fits()
        &&& self.alt_grid.wf()
        &&& self.alt_grid.fits()
        &&& self.scrollback.wf()
        &&& self.parser.wf()
        &&& 1 <= self.cols <= MAX_COLS
        &&& 1 <= self.rows <= MAX_ROWS
        &&& self.cursor_row < MAX_ROWS
        &&& self.cursor_col < MAX_COLS
        &&& self.saved_cursor_row < MAX_ROWS
        &&& self.saved_cursor_col < MAX_COLS
        &&& self.alt_saved_cursor_row < MAX_ROWS
        &&& self.alt_saved_cursor_col < MAX_COLS
        &&& self.scroll_top < self.scroll_bottom <= self.rows
        &&& self.title_buf.len() == 256
        &&& self.title_len <= 256
        &&& self.response_buf.len() == 64
        &&& self.response_len <= 64
        &&& self.debug_log.len() == DEBUG_LOG_MAX
        &&& self.debug_log_idx < DEBUG_LOG_MAX
        &&& self.tab_stops.len() == MAX_COLS
    }

    /// The blank cell used when erasing: the current background colour.
    pub open spec fn blank(self) -> Cell {
        blank_cell_with_bg(self.current_bg)
    }

    /// Every mode, cursor, style, title, response and log back to its start value and the
    /// screen blanked at the new size; scrollback, alternate screen and the bytes of the
    /// title and response buffers are left as they are.
    pub open spec fn reset(self, cols: u16, rows: u16) -> TerminalView {
        TerminalView {
            grid: self.grid.reset(cols, rows),
            parser: Parser::initial(),
            cols,
            rows,
            cursor_row: 0,
            cursor_col: 0,
            cursor_visible: true,
            wrap_pending: false,
            saved_cursor_row: 0,
            saved_cursor_col: 0,
            saved_fg: DEFAULT_COLOR,
            saved_bg: DEFAULT_COLOR,
            saved_flags: 0,
            current_fg: DEFAULT_COLOR,
            current_bg: DEFAULT_COLOR,
            current_flags: 0,
            scroll_top: 0,
            scroll_bottom: rows,
            auto_wrap: true,
            origin_mode: false,
            cursor_keys_app: false,
            bracketed_paste: false,
            linefeed_mode: false,
            alt_saved_cursor_row: 0,
            alt_saved_cursor_col: 0,
            alt_saved_fg: DEFAULT_COLOR,
            alt_saved_bg: DEFAULT_COLOR,
            alt_saved_flags: 0,
            using_alt_screen: false,
            title_len: 0,
            title_changed: false,
            response_len: 0,
            debug_log: Seq::new(DEBUG_LOG_MAX as nat, |i: int| empty_log_entry()),
            debug_log_idx: 0,
            debug_log_count: 0,
            tab_stops: initial_tab_stops(),
            ..self
        }
    }

    /// First phase of a resize: cells right of the new width are blanked and, on the main
    /// screen, rows below the new height go to the scrollback, top one first.
    pub open spec fn cut_to_size(self, cols: u16, rows: u16) -> TerminalView {
        let g1 = if cols < self.cols {
            self.grid.blank_columns(min_int(rows as int, self.rows as int), cols as int, self.cols as int)
        } else {
            self.grid
        };
        TerminalView {
            grid: g1,
            scrollback: if rows < self.rows && !self.using_alt_screen {
                push_rows(self.scrollback, g1.cells, rows as int, self.rows - rows,
                    if cols < self.cols { cols } else { self.cols })
            } else {
                self.scrollback
            },
            ..self
        }
    }

    /// Second phase: the terminal and its screen take the new size, the scroll region
    /// becomes the whole screen and the cursor is pulled inside.
    pub open spec fn take_size(self, cols: u16, rows: u16) -> TerminalView {
        TerminalView {
            cols,
            rows,
            grid: GridView { cols, rows, ..self.grid },
            scroll_top: 0,
            scroll_bottom: rows,
            cursor_col: if self.cursor_col >= cols { (cols - 1) as u16 } else { self.cursor_col },
            cursor_row: if self.cursor_row >= rows { (rows - 1) as u16 } else { self.cursor_row },
            ..self
        }
    }

    /// Third phase: rows and columns that were not there before come in blank (rows that
    /// gain columns are marked dirty).
    pub open spec fn blank_new_area(self, old_cols: u16, old_rows: u16) -> TerminalView {
        let g3 = if self.rows > old_rows {
            self.grid.fill_rows(old_rows as int, self.rows as int, blank_cell_with_bg(DEFAULT_COLOR))
        } else {
            self.grid
        };
        let kept = min_int(old_rows as int, self.rows as int);
        TerminalView {
            grid: if self.cols > old_cols {
                GridView {
                    dirty: fill_seq(g3.dirty, 0, kept, 1u8),
                    ..g3.blank_columns(kept, old_cols as int, self.cols as int)
                }
            } else {
                g3
            },
            ..self
        }
    }

    /// Last phase: every row of the screen is marked dirty.
    pub open spec fn mark_rows_dirty(self) -> TerminalView {
        TerminalView { grid: GridView { dirty: fill_seq(self.grid.dirty, 0, self.rows as int, 1u8), ..self.grid }, ..self }
    }

    /// Resize to `new_cols` x `new_rows` (each clamped to `1..=MAX`): cells that leave on
    /// the right are blanked; rows that leave at the bottom go to the scrollback (main screen
    /// only); new rows and columns come in blank; the scroll region becomes the whole screen,
    /// the cursor is pulled inside, and every row is dirty.  The same size changes nothing.
    pub open spec fn resize(self, new_cols: u16, new_rows: u16) -> TerminalView {
        let cols = clamped(new_cols, MAX_COLS as u16);
        let rows = clamped(new_rows, MAX_ROWS as u16);
        if cols == self.cols && rows == self.rows {
            self
        } else {
            self.cut_to_size(cols, rows).take_size(cols, rows).blank_new_area(self.cols, self.rows).mark_rows_dirty()
        }
    }

    /// The resize phases run on a screen brought back from aside, from its own size
    /// (`grid.cols` x `grid.rows`) to the terminal's.
    #[verifier::opaque]
    pub open spec fn fitted(self) -> TerminalView {
        let old = TerminalView { cols: self.grid.cols, rows: self.grid.rows, ..self };
        old.cut_to_size(self.cols, self.rows).take_size(self.cols, self.rows).blank_new_area(
            self.grid.cols, self.grid.rows)
    }

    /// A screen brought back from aside fitted to the terminal's current size as a resize
    /// of the main screen would fit it (see `fitted`): cells right of the width are blanked,
    /// rows below the height go to the scrollback, new rows and columns come in blank, the
    /// scroll region becomes the whole screen and the cursor is pulled inside.
    pub open spec fn fit_screen(self) -> TerminalView {
        let f = self.fitted();
        TerminalView {
            grid: f.grid,
            scrollback: f.scrollback,
            cursor_row: f.cursor_row,
            cursor_col: f.cursor_col,
            scroll_top: 0,
            scroll_bottom: self.rows,
            ..self
        }
    }

    /// The terminal after one byte: the parser takes it, then the action it asks for is done.
    #[verifier::opaque]
    pub open spec fn step(self, byte: u8) -> TerminalView {
        let (p, a) = self.parser.step(byte);
        let t = TerminalView { parser: p, ..self };
        match a {
            Action::Nothing => t,
            Action::Print => t.print(p.print_char),
            Action::Execute => t.execute_control(p.execute_byte),
            Action::CsiDispatch => t.csi_dispatch(),
            Action::EscDispatch => t.esc_dispatch(),
            Action::OscDispatch => t.osc(),
        }
    }

    /// Processing `byte` cannot fail: if it completes a CSI sequence, that sequence can be
    /// carried out (see `csi_ok`).
    pub open spec fn step_ok(self, byte: u8) -> bool {
        let (p, a) = self.parser.step(byte);
        a == Action::CsiDispatch ==> (TerminalView { parser: p, ..self }).csi_ok()
    }

    /// A 1x1 terminal with empty screens and history.
    pub open spec fn initial() -> TerminalView {
        TerminalView {
            grid: GridView::fresh(1, 1),
            parser: Parser::initial(),
            scrollback: ScrollbackView::empty(),
            cols: 1,
            rows: 1,
            cursor_row: 0,
            cursor_col: 0,
            cursor_visible: true,
            wrap_pending: false,
            saved_cursor_row: 0,
            saved_cursor_col: 0,
            saved_fg: DEFAULT_COLOR,
            saved_bg: DEFAULT_COLOR,
            saved_flags: 0,
            current_fg: DEFAULT_COLOR,
            current_bg: DEFAULT_COLOR,
            current_flags: 0,
            scroll_top: 0,
            scroll_bottom: 1,
            auto_wrap: true,
            origin_mode: false,
            cursor_keys_app: false,
            bracketed_paste: false,
            linefeed_mode: false,
            alt_grid: GridView::fresh(1, 1),
            alt_saved_cursor_row: 0,
            alt_saved_cursor_col: 0,
            alt_saved_fg: DEFAULT_COLOR,
            alt_saved_bg: DEFAULT_COLOR,
            alt_saved_flags: 0,
            using_alt_screen: false,
            title_buf: Seq::new(256, |i: int| 0u8),
            title_len: 0,
            title_changed: false,
            response_buf: Seq::new(64, |i: int| 0u8),
            response_len: 0,
            debug_log: Seq::new(DEBUG_LOG_MAX as nat, |i: int| empty_log_entry()),
            debug_log_idx: 0,
            debug_log_count: 0,
            tab_stops: initial_tab_stops(),
        }
    }
}

/// The terminal after the bytes of `data`, one after another.
pub open spec fn written(t: TerminalView, data: Seq<u8>) -> TerminalView
    decreases data.len(),
{
    if data.len() == 0 {
        t
    } else {
        written(t.step(data[0]), data.drop_first())
    }
}

/// Every byte of `data` can be processed in turn.
pub open spec fn write_ok(t: TerminalView, data: Seq<u8>) -> bool
    decreases data.len(),
{
    data.len() == 0 || (t.step_ok(data[0]) && write_ok(t.step(data[0]), data.drop_first()))
}

/// Fitting a screen changes only the screen, the scrollback, the cursor position and the
/// scroll region.
pub proof fn lemma_fitted_fields(t: TerminalView)
    ensures
        t.fitted() == (TerminalView {
            grid: t.fitted().grid,
            scrollback: t.fitted().scrollback,
            cursor_row: t.fitted().cursor_row,
            cursor_col: t.fitted().cursor_col,
            scroll_top: 0,
            scroll_bottom: t.rows,
            ..t
        }),
{
    reveal(TerminalView::fitted);
}

/// Resize keeps what fits: the cells of the rows and columns that stay are unchanged, the
/// rows and columns that come in are blank, and every visible row is marked for redrawing.
pub proof fn lemma_resize_keeps_and_blanks(t: TerminalView, new_cols: u16, new_rows: u16)
    requires
        t.wf(),
    ensures
        ({
            let u = t.resize(new_cols, new_rows);
            let blank = blank_cell_with_bg(DEFAULT_COLOR);
            &&& u.cols == clamped(new_cols, MAX_COLS as u16)
            &&& u.rows == clamped(new_rows, MAX_ROWS as u16)
            &&& u.grid.cols == u.cols && u.grid.rows == u.rows || u == t
            &&& forall|r: int, c: int| 0 <= r < t.rows && r < u.rows && 0 <= c < t.cols && c < u.cols
                ==> #[trigger] u.grid.cells[r][c] == t.grid.cells[r][c]
            &&& forall|r: int, c: int| t.rows <= r < u.rows && 0 <= c < u.cols
                ==> #[trigger] u.grid.cells[r][c] == blank
            &&& forall|r: int, c: int| 0 <= r < t.rows && r < u.rows && t.cols <= c < u.cols
                ==> #[trigger] u.grid.cells[r][c] == blank
        }),
{
    let cols = clamped(new_cols, MAX_COLS as u16);
    let rows = clamped(new_rows, MAX_ROWS as u16);
    if !(cols == t.cols && rows == t.rows) {
        let k = t.cut_to_size(cols, rows).take_size(cols, rows);
        let blank = blank_cell_with_bg(DEFAULT_COLOR);
        crate::grid::lemma_fill_rows_def(k.grid, t.rows as int, rows as int, blank);
    }
}

/// Rows cut off at the bottom of the main screen go to the history, the lowest of them
/// newest, each holding its cells up to the narrower of the two widths; the earlier history
/// follows behind them.  On the alternate screen, or when the height does not shrink, the
/// history is left alone.
pub proof fn lemma_resize_saves_cut_rows(t: TerminalView, new_cols: u16, new_rows: u16)
    requires
        t.wf(),
    ensures
        ({
            let u = t.resize(new_cols, new_rows);
            let k: int = t.rows - u.rows;
            let len: int = if u.cols < t.cols { u.cols as int } else { t.cols as int };
            let h = u.scrollback.history();
            &&& (t.using_alt_screen || k <= 0) ==> u.scrollback == t.scrollback
            &&& (!t.using_alt_screen && k > 0) ==> {
                &&& h.len() == min_int(t.scrollback.count + k, crate::scrollback::MAX_SCROLLBACK_LINES as int)
                &&& forall|j: int| 0 <= j < k && j < h.len() ==> {
                    &&& (#[trigger] h[j]).len == len
                    &&& h[j].cells.take(len) == t.grid.cells[t.rows - 1 - j].take(len)
                }
                &&& forall|j: int| k <= j < h.len() ==> #[trigger] h[j] == t.scrollback.history()[j - k]
            }
        }),
{
    let cols = clamped(new_cols, MAX_COLS as u16);
    let rows = clamped(new_rows, MAX_ROWS as u16);
    if !(cols == t.cols && rows == t.rows) && !t.using_alt_screen && rows < t.rows {
        let g1 = if cols < t.cols {
            t.grid.blank_columns(min_int(rows as int, t.rows as int), cols as int, t.cols as int)
        } else {
            t.grid
        };
        let len: u16 = if cols < t.cols { cols } else { t.cols };
        let k: int = t.rows - rows;
        assert forall|i: int| 0 <= i < k implies len <= #[trigger] g1.cells[rows + i].len() by {
            assert(t.grid.cells[rows + i].len() == MAX_COLS);
        }
        crate::edit::lemma_push_rows_history(t.scrollback, g1.cells, rows as int, k, len);
        let h = t.resize(new_cols, new_rows).scrollback.history();
        assert forall|j: int| 0 <= j < k && j < h.len() implies
            h[j].cells.take(len as int) == t.grid.cells[t.rows - 1 - j].take(len as int) by {
            assert(g1.cells[rows + k - 1 - j] == t.grid.cells[t.rows - 1 - j]);
        }
    }
}

/// Writing `a` and then `b` is writing `a + b`, and `a + b` can be written exactly when `a`
/// can and then `b` can from where `a` left off.
pub proof fn lemma_write_concat(t: TerminalView, a: Seq<u8>, b: Seq<u8>)
    ensures
        written(t, a + b) == written(written(t, a), b),
        write_ok(t, a + b) == (write_ok(t, a) && write_ok(written(t, a), b)),
    decreases a.len(),
{
    if a.len() == 0 {
        assert(a + b =~= b);
    } else {
        assert((a + b)[0] == a[0]);
        assert((a + b).drop_first() =~= a.drop_first() + b);
        lemma_write_concat(t.step(a[0]), a.drop_first(), b);
    }
}

/// A reset to a given size leaves nothing for a second reset to the same size to change.
pub proof fn lemma_reset_twice(t: TerminalView, cols: u16, rows: u16)
    requires
        t.wf(),
    ensures
        t.reset(cols, rows).reset(cols, rows) == t.reset(cols, rows),
{
    crate::grid::lemma_reset_twice(t.grid, cols, rows);
}

/// Resizing to the current size changes nothing.
pub proof fn lemma_resize_same_size(t: TerminalView)
    requires
        t.wf(),
    ensures
        t.resize(t.cols, t.rows) == t,
{
}

/// After a resize the size is the requested one clamped to `1..=MAX`; when it changed, the
/// scroll region is the whole screen and the cursor is on the screen.
pub proof fn lemma_resize_fits(t: TerminalView, cols: u16, rows: u16)
    requires
        t.wf(),
    ensures
        t.resize(cols, rows).cols == clamped(cols, MAX_COLS as u16),
        t.resize(cols, rows).rows == clamped(rows, MAX_ROWS as u16),
        t.resize(cols, rows) != t ==> {
            &&& t.resize(cols, rows).scroll_top == 0
            &&& t.resize(cols, rows).scroll_bottom == t.resize(cols, rows).rows
            &&& t.resize(cols, rows).cursor_row < t.resize(cols, rows).rows
            &&& t.resize(cols, rows).cursor_col < t.resize(cols, rows).cols
        },
{
}

fn init_tab_stops() -> (stops: [u8; MAX_COLS])
    ensures
        stops@ == initial_tab_stops(),
{
    let mut stops = [0u8; 256];
    let mut i: usize = 8;
    while i < MAX_COLS
        invariant
            8 <= i <= MAX_COLS + 7,
            i % 8 == 0,
            forall|j: int| 0 <= j < MAX_COLS ==> #[trigger] stops@[j] ==
                if 8 <= j < i && j % 8 == 0 { 1u8 } else { 0u8 },
        decreases MAX_COLS + 8 - i,
    {
        stops[i] = 1;
        i += 8;
    }
    assert(stops@ =~= initial_tab_stops());
    stops
}

/// `value` brought into `1..=max`.
fn clamp_dimension(value: u16, max: u16) -> (r: u16)
    ensures
        r == clamped(value, max),
{
    if value == 0 {
        1
    } else if value > max {
        max
    } else {
        value
    }
}

fn new_debug_log() -> (log: [DebugLogEntry; DEBUG_LOG_MAX])
    ensures
        log@ == Seq::new(DEBUG_LOG_MAX as nat, |i: int| empty_log_entry()),
{
    let log = [new_log_entry(); 32];
    assert(log@ =~= Seq::new(DEBUG_LOG_MAX as nat, |i: int| empty_log_entry()));
    log
}

impl Terminal {
    pub open spec fn wf(&self) -> bool {
        &&& self@.wf()
        &&& self.grid.wf()
        &&& self.alt_grid.wf()
        &&& self.scrollback.wf()
    }

    /// A 1x1 terminal with empty screens and history.
    pub fn new() -> (t: Terminal)
        ensures
            t.wf(),
            t@ == TerminalView::initial(),
    {
        let t = Terminal {
            grid: Grid::new(1, 1),
            parser: Parser::new(),
            scrollback: Scrollback::new(),
            cols: 1,
            rows: 1,
            cursor_row: 0,
            cursor_col: 0,
            cursor_visible: true,
            wrap_pending: false,
            saved_cursor_row: 0,
            saved_cursor_col: 0,
            saved_fg: DEFAULT_COLOR,
            saved_bg: DEFAULT_COLOR,
            saved_flags: 0,
            current_fg: DEFAULT_COLOR,
            current_bg: DEFAULT_COLOR,
            current_flags: 0,
            scroll_top: 0,
            scroll_bottom: 1,
            auto_wrap: true,
            origin_mode: false,
            cursor_keys_app: false,
            bracketed_paste: false,
            linefeed_mode: false,
            alt_grid: Grid::new(1, 1),
            alt_saved_cursor_row: 0,
            alt_saved_cursor_col: 0,
            alt_saved_fg: DEFAULT_COLOR,
            alt_saved_bg: DEFAULT_COLOR,
            alt_saved_flags: 0,
            using_alt_screen: false,
            title_buf: [0u8; 256],
            title_len: 0,
            title_changed: false,
            response_buf: [0u8; 64],
            response_len: 0,
            debug_log: new_debug_log(),
            debug_log_idx: 0,
            debug_log_count: 0,
            tab_stops: init_tab_stops(),
        };
        assert(t.title_buf@ =~= Seq::new(256, |i: int| 0u8));
        assert(t.response_buf@ =~= Seq::new(64, |i: int| 0u8));
        assert(t@ =~= TerminalView::initial());
        t
    }

    pub(crate) fn blank_cell(&self) -> (c: Cell)
        ensures
            c == self@.blank(),
    {
        Cell::blank_with_bg(self.current_bg)
    }

    /// Resets modes, cursor, style, title, response and log, and blanks the screen at the
    /// given size.
    pub fn reset(&mut self, cols: u16, rows: u16)
        requires
            old(self).wf(),
            1 <= cols <= MAX_COLS,
            1 <= rows <= MAX_ROWS,
        ensures
            final(self).wf(),
            final(self)@ == old(self)@.reset(cols, rows),
    {
        self.grid.reset(cols, rows);
        self.parser = Parser::new();
        self.cols = cols;
        self.rows = rows;
        self.cursor_row = 0;
        self.cursor_col = 0;
        self.cursor_visible = true;
        self.wrap_pending = false;
        self.saved_cursor_row = 0;
        self.saved_cursor_col = 0;
        self.saved_fg = DEFAULT_COLOR;
        self.saved_bg = DEFAULT_COLOR;
        self.saved_flags = 0;
        self.current_fg = DEFAULT_COLOR;
        self.current_bg = DEFAULT_COLOR;
        self.current_flags = 0;
        self.scroll_top = 0;
        self.scroll_bottom = rows;
        self.auto_wrap = true;
        self.origin_mode = false;
        self.cursor_keys_app = false;
        self.bracketed_paste = false;
        self.linefeed_mode = false;
        self.alt_saved_cursor_row = 0;
        self.alt_saved_cursor_col = 0;
        self.alt_saved_fg = DEFAULT_COLOR;
        self.alt_saved_bg = DEFAULT_COLOR;
        self.alt_saved_flags = 0;
        self.using_alt_screen = false;
        self.title_len = 0;
        self.title_changed = false;
        self.response_len = 0;
        self.debug_log = new_debug_log();
        self.debug_log_idx = 0;
        self.debug_log_count = 0;
        self.tab_stops = init_tab_stops();
        assert(self@ =~= old(self)@.reset(cols, rows));
    }

    /// Feeds the bytes of `data` through the parser and carries out what they ask for.
    pub fn write(&mut self, data: &[u8])
        requires
            old(self).wf(),
            write_ok(old(self)@, data@),
        ensures
            final(self).wf(),
            final(self)@ == written(old(self)@, data@),
            final(self).rows == old(self).rows,
            screen_changes_marked(old(self)@, final(self)@),
    {
        let mut i: usize = 0;
        assert(data@.skip(0) =~= data@);
        proof { lemma_screen_same(old(self)@, self@); }
        while i < data.len()
            invariant
                self.wf(),
                self.rows == old(self).rows,
                screen_changes_marked(old(self)@, self@),
                i <= data@.len(),
                write_ok(self@, data@.skip(i as int)),
                written(self@, data@.skip(i as int)) == written(old(self)@, data@),
            decreases data@.len() - i,
        {
            let byte = data[i];
            assert(data@.skip(i as int)[0] == byte);
            assert(data@.skip(i as int).drop_first() =~= data@.skip(i + 1));
            let ghost before = self@;
            proof { lemma_step_marks_changes(before, byte); }
            self.process_byte(byte);
            proof { lemma_screen_trans(old(self)@, before, self@); }
            i += 1;
        }
        assert(data@.skip(i as int) =~= Seq::<u8>::empty());
    }

    /// Whether `process_byte(byte)` can run: false only when the byte would complete an
    /// erase sequence that starts at a cursor column past the column it stops at.
    pub fn accepts(&self, byte: u8) -> (ok: bool)
        requires
            self.wf(),
        ensures
            ok == self@.step_ok(byte),
    {
        let mut probe = self.parser;
        let action = probe.feed(byte);
        if action != Action::CsiDispatch {
            return true;
        }
        let private = probe.csi_private;
        let f = probe.execute_byte;
        if private == 0x3F || (private == 0x21 && f == 0x70) || private == 0x3E {
            return true;
        }
        let col = self.cursor_col;
        let on_grid = self.cursor_row < self.grid.rows;
        let stop = |end: u16| -> (e: u16)
            ensures
                e == self@.grid.range_end(end),
            { if end < self.grid.cols { end } else { self.grid.cols } };
        if (f == 0x4A || f == 0x4B) && probe.get_param(0, 0) == 0 {
            return !on_grid || col <= stop(self.cols);
        }
        let arg = probe.get_param(0, 1);
        let count = if arg == 0 { 1 } else { arg };
        if f == 0x58 {
            let moved = col.saturating_add(count);
            let end = if moved < self.cols { moved } else { self.cols };
            return !on_grid || col <= stop(end);
        }
        if f == 0x40 && col as u32 + count as u32 >= self.cols as u32 {
            return !on_grid || col <= stop(self.cols);
        }
        true
    }

    /// Runs one byte through the parser and carries out the resulting action.
    #[verifier::rlimit(40)]
    fn process_byte(&mut self, byte: u8)
        requires
            old(self).wf(),
            old(self)@.step_ok(byte),
        ensures
            final(self).wf(),
            final(self)@ == old(self)@.step(byte),
    {
        proof { reveal(TerminalView::step); }
        match self.parser.feed(byte) {
            Action::Nothing => {},
            Action::Print => self.print_char(self.parser.print_char),
            Action::Execute => self.execute_control(self.parser.execute_byte),
            Action::CsiDispatch => self.handle_csi(),
            Action::EscDispatch => self.handle_esc(),
            Action::OscDispatch => self.handle_osc(),
        }
    }

    /// Pushes rows `[from, to)` of the screen, first to last, into the scrollback.
    pub(crate) fn save_rows_to_scrollback(&mut self, from: u16, to: u16, len: u16)
        requires
            old(self).wf(),
            from <= to <= MAX_ROWS,
            len <= MAX_COLS,
        ensures
            final(self).wf(),
            final(self)@ == (TerminalView {
                scrollback: push_rows(old(self)@.scrollback, old(self)@.grid.cells, from as int, to - from, len),
                ..old(self)@
            }),
    {
        let ghost t0 = self@;
        let mut row = from;
        while row < to
            invariant
                from <= row <= to <= MAX_ROWS,
                len <= MAX_COLS,
                self.wf(),
                self@ == (TerminalView { scrollback: self@.scrollback, ..t0 }),
                self@.scrollback == push_rows(t0.scrollback, t0.grid.cells, from as int, row - from, len),
            decreases to - row,
        {
            proof { self.grid.lemma_row_len(row as int); }
            self.scrollback.push(self.grid.cells[row as usize].as_slice(), len);
            row += 1;
        }
    }

    /// First phase of a resize: removes what no longer fits.
    fn cut_to_size(&mut self, cols: u16, rows: u16)
        requires
            old(self).wf(),
            1 <= cols <= MAX_COLS,
            1 <= rows <= MAX_ROWS,
        ensures
            final(self).wf(),
            final(self)@ == old(self)@.cut_to_size(cols, rows),
    {
        let old_cols = self.cols;
        let old_rows = self.rows;
        if cols < old_cols {
            let preserve_rows = if rows < old_rows { rows } else { old_rows };
            self.grid.blank_columns(preserve_rows as usize, cols as usize, old_cols as usize);
        }
        if rows < old_rows && !self.using_alt_screen {
            let len = if cols < old_cols { cols } else { old_cols };
            self.save_rows_to_scrollback(rows, old_rows, len);
        }
    }

    /// Second phase of a resize: takes the new size.
    fn take_size(&mut self, cols: u16, rows: u16)
        requires
            old(self).wf(),
            1 <= cols <= MAX_COLS,
            1 <= rows <= MAX_ROWS,
        ensures
            final(self).wf(),
            final(self)@ == old(self)@.take_size(cols, rows),
    {
        self.cols = cols;
        self.rows = rows;
        self.grid.cols = cols;
        self.grid.rows = rows;
        self.scroll_top = 0;
        self.scroll_bottom = rows;
        if self.cursor_col >= cols {
            self.cursor_col = cols - 1;
        }
        if self.cursor_row >= rows {
            self.cursor_row = rows - 1;
        }
    }

    /// Third phase of a resize: blanks what the larger size brings in.
    #[verifier::spinoff_prover]
    #[verifier::rlimit(60)]
    fn blank_new_area(&mut self, old_cols: u16, old_rows: u16)
        requires
            old(self).wf(),
            old(self).grid.rows == old(self).rows,
            old(self).grid.cols == old(self).cols,
            old_cols <= MAX_COLS,
            old_rows <= MAX_ROWS,
        ensures
            final(self).wf(),
            final(self)@ == old(self)@.blank_new_area(old_cols, old_rows),
    {
        let ghost t0 = self@;
        let ghost g3 = if t0.rows > old_rows {
            t0.grid.fill_rows(old_rows as int, t0.rows as int, blank_cell_with_bg(DEFAULT_COLOR))
        } else {
            t0.grid
        };
        if self.rows > old_rows {
            self.clear_rows_between(old_rows, self.rows, Cell::blank());
        }
        assert(self@ == (TerminalView { grid: g3, ..t0 }));
        if self.cols > old_cols {
            let preserve_rows = if old_rows < self.rows { old_rows } else { self.rows };
            self.grid.blank_columns(preserve_rows as usize, old_cols as usize, self.cols as usize);
            let ghost g4 = self@.grid;
            fill_vec(&mut self.grid.dirty, 0, preserve_rows as usize, 1u8);
            assert(self@.grid == (GridView { dirty: fill_seq(g4.dirty, 0, preserve_rows as int, 1u8), ..g4 }));
        }
    }

    /// Fits the screen just brought back from aside to the current size (see `fit_screen`).
    pub(crate) fn fit_screen(&mut self)
        requires
            old(self).wf(),
        ensures
            final(self).wf(),
            final(self)@ == old(self)@.fit_screen(),
    {
        proof { lemma_fitted_fields(self@); }
        self.fit_to_size();
    }

    /// The resize phases from the screen's own size to the terminal's (see `fitted`).
    #[verifier::spinoff_prover]
    #[verifier::rlimit(80)]
    fn fit_to_size(&mut self)
        requires
            old(self).wf(),
        ensures
            final(self).wf(),
            final(self)@ == old(self)@.fitted(),
    {
        proof { reveal(TerminalView::fitted); }
        let ghost t0 = self@;
        let ghost s0 = TerminalView { cols: t0.grid.cols, rows: t0.grid.rows, ..t0 };
        let cols = self.cols;
        let rows = self.rows;
        let old_cols = self.grid.cols;
        let old_rows = self.grid.rows;
        if cols < old_cols {
            let preserve_rows = if rows < old_rows { rows } else { old_rows };
            self.grid.blank_columns(preserve_rows as usize, cols as usize, old_cols as usize);
        }
        if rows < old_rows && !self.using_alt_screen {
            let len = if cols < old_cols { cols } else { old_cols };
            self.save_rows_to_scrollback(rows, old_rows, len);
        }
        assert(self@ == (TerminalView { cols, rows, ..s0.cut_to_size(cols, rows) }));
        self.grid.cols = cols;
        self.grid.rows = rows;
        self.scroll_top = 0;
        self.scroll_bottom = rows;
        if self.cursor_col >= cols {
            self.cursor_col = cols - 1;
        }
        if self.cursor_row >= rows {
            self.cursor_row = rows - 1;
        }
        assert(self@ == s0.cut_to_size(cols, rows).take_size(cols, rows));
        self.blank_new_area(old_cols, old_rows);
        assert(self@ == t0.fitted());
    }

    /// Changes the size (each dimension clamped to `1..=MAX`), keeping what fits.
    pub fn resize(&mut self, new_cols: u16, new_rows: u16)
        requires
            old(self).wf(),
        ensures
            final(self).wf(),
            final(self)@ == old(self)@.resize(new_cols, new_rows),
    {
        let cols = clamp_dimension(new_cols, MAX_COLS as u16);
        let rows = clamp_dimension(new_rows, MAX_ROWS as u16);
        let old_cols = self.cols;
        let old_rows = self.rows;
        if cols == old_cols && rows == old_rows {
            return;
        }
        self.cut_to_size(cols, rows);
        self.take_size(cols, rows);
        self.blank_new_area(old_cols, old_rows);
        let rows = self.rows as usize;
        fill_vec(&mut self.grid.dirty, 0, rows, 1u8);
    }
}

/// A reset to a size blanks every visible cell in the default colours, sends the cursor
/// home with the default style, makes the whole screen the scroll region, goes back to the
/// main screen and keeps the history.
pub proof fn lemma_reset_blanks(t: TerminalView, cols: u16, rows: u16)
    requires
        t.grid.wf(),
        cols <= MAX_COLS,
        rows <= MAX_ROWS,
    ensures
        ({
            let u = t.reset(cols, rows);
            &&& forall|r: int, c: int| 0 <= r < rows && 0 <= c < cols ==>
                #[trigger] u.grid.cells[r][c] == blank_cell_with_bg(DEFAULT_COLOR)
            &&& forall|r: int| 0 <= r < rows ==> #[trigger] u.grid.dirty[r] == 1
            &&& u.cols == cols && u.rows == rows && u.grid.cols == cols && u.grid.rows == rows
            &&& u.cursor_row == 0 && u.cursor_col == 0
            &&& u.current_fg == DEFAULT_COLOR && u.current_bg == DEFAULT_COLOR && u.current_flags == 0
            &&& u.scroll_top == 0 && u.scroll_bottom == rows
            &&& !u.using_alt_screen
            &&& u.scrollback == t.scrollback
        }),
{
    let g = GridView { cols, rows, ..t.grid };
    crate::grid::lemma_clear_reset_def(t.grid, cols, rows);
    crate::grid::lemma_clear_reset_def(g, 0, 0);
    crate::grid::lemma_fill_rows_def(g, 0, rows as int, blank_cell_with_bg(DEFAULT_COLOR));
    let u = t.reset(cols, rows);
    assert forall|r: int, c: int| 0 <= r < rows && 0 <= c < cols implies
        #[trigger] u.grid.cells[r][c] == blank_cell_with_bg(DEFAULT_COLOR) by {
        assert(t.grid.cells[r].len() == MAX_COLS);
    }
}

} // verus!
