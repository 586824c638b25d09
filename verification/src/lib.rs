pub mod cell;
pub mod grid;
pub mod scrollback;
pub mod parser;
pub mod terminal;
pub mod motion;
pub mod edit;
pub mod style;
pub mod reply;
pub mod dispatch;
pub mod tracking;
pub mod consistency;

use vstd::prelude::*;
use crate::terminal::{Terminal, TerminalView};

verus! {

/// Size of the buffer a host writes terminal input into.
pub const INPUT_BUFFER_SIZE: usize = 8192;

/// `value` brought into `1..=max` (with `max` taken modulo the width of the integer types
/// it is compared and stored in, as the casts do).
pub open spec fn clamped_dimension(value: u32, max: usize) -> u16 {
    if value == 0 {
        1
    } else if value > max as u32 {
        max as u16
    } else {
        value as u16
    }
}

/// A size requested by the host, brought into `1..=max`.
pub fn clamp_dimension(value: u32, max: usize) -> (r: u16)
    ensures
        r == clamped_dimension(value, max),
{
    if value == 0 {
        1
    } else if value > max as u32 {
        max as u16
    } else {
        value as u16
    }
}

/// The state after `init`: a reset at the clamped size with the scrollback emptied too.
pub open spec fn initialized(t: TerminalView, cols: u32, rows: u32) -> TerminalView {
    let r = t.reset(clamped_dimension(cols, grid::MAX_COLS), clamped_dimension(rows, grid::MAX_ROWS));
    TerminalView { scrollback: r.scrollback.reset(), ..r }
}

/// Resets the terminal to the given size (clamped to `1..=MAX`) and forgets its scrollback.
pub fn init(terminal: &mut Terminal, cols: u32, rows: u32)
    requires
        old(terminal).wf(),
    ensures
        final(terminal).wf(),
        final(terminal)@ == initialized(old(terminal)@, cols, rows),
        final(terminal)@.scrollback.history().len() == 0,
{
    let cols = clamp_dimension(cols, grid::MAX_COLS);
    let rows = clamp_dimension(rows, grid::MAX_ROWS);
    terminal.reset(cols, rows);
    terminal.scrollback.reset();
}

/// Resizes the terminal to the given size, clamped to `1..=MAX`.
#[allow(non_snake_case)]
pub fn resizeTerminal(terminal: &mut Terminal, cols: u32, rows: u32)
    requires
        old(terminal).wf(),
    ensures
        final(terminal).wf(),
        final(terminal)@ == old(terminal)@.resize(
            clamped_dimension(cols, grid::MAX_COLS), clamped_dimension(rows, grid::MAX_ROWS)),
{
    let cols = clamp_dimension(cols, grid::MAX_COLS);
    let rows = clamp_dimension(rows, grid::MAX_ROWS);
    terminal.resize(cols, rows);
}

/// Clears the dirty flag of every visible row.
#[allow(non_snake_case)]
pub fn clearDirty(terminal: &mut Terminal)
    requires
        old(terminal).wf(),
    ensures
        final(terminal).wf(),
        final(terminal)@ == (TerminalView { grid: old(terminal)@.grid.clear_dirty(), ..old(terminal)@ }),
{
    terminal.grid.clear_dirty();
}

/// Reports whether the title changed since the last call (1 or 0) and clears the flag.
#[allow(non_snake_case)]
pub fn getTitleChanged(terminal: &mut Terminal) -> (changed: u32)
    requires
        old(terminal).wf(),
    ensures
        final(terminal).wf(),
        changed == if old(terminal).title_changed { 1u32 } else { 0u32 },
        final(terminal)@ == (TerminalView { title_changed: false, ..old(terminal)@ }),
{
    if terminal.title_changed {
        terminal.title_changed = false;
        1
    } else {
        0
    }
}

/// The length of the scrollback line `offset` places back from the newest, 0 if there is none.
#[allow(non_snake_case)]
pub fn getScrollbackLineLen(terminal: &Terminal, offset: u32) -> (len: u32)
    requires
        terminal.wf(),
    ensures
        len == if offset < terminal@.scrollback.count { terminal@.scrollback.history()[offset as int].len as u32 } else { 0u32 },
{
    match terminal.scrollback.get_line(offset) {
        Some(line) => line.len as u32,
        None => 0,
    }
}

/// Forgets the pending response to the host.
#[allow(non_snake_case)]
pub fn clearResponse(terminal: &mut Terminal)
    requires
        old(terminal).wf(),
    ensures
        final(terminal).wf(),
        final(terminal)@ == (TerminalView { response_len: 0, ..old(terminal)@ }),
{
    terminal.response_len = 0;
}

/// `clearDirty` leaves every visible row clean and changes no cell.
pub proof fn lemma_clear_dirty_cleans(t: TerminalView)
    requires
        t.wf(),
    ensures
        ({
            let g = t.grid.clear_dirty();
            &&& forall|r: int| 0 <= r < t.grid.rows ==> #[trigger] g.dirty[r] == 0
            &&& forall|r: int| t.grid.rows <= r < grid::MAX_ROWS ==> #[trigger] g.dirty[r] == t.grid.dirty[r]
            &&& g.cells == t.grid.cells
            &&& g.cols == t.grid.cols && g.rows == t.grid.rows
        }),
{
    grid::lemma_clear_dirty_def(t.grid);
}

} // verus!
