# wterm

The core of a terminal emulator for the web: a VT100/VT220/xterm escape-sequence parser,
a screen grid with dirty-row tracking, an alternate screen, a scrollback ring buffer and
the terminal state machine that ties them together, written in Verus with its behaviour
stated in contracts and proved.

- `src/cell.rs` - character cells and attribute flags.
- `src/grid.rs` - the cell grid and its operations (set, clear, scroll).
- `src/scrollback.rs` - the scrollback ring buffer and the history it stands for.
- `src/parser.rs` - the byte-at-a-time escape-sequence parser.
- `src/terminal.rs` - the terminal state, reset, resize and writing bytes.
- `src/motion.rs`, `src/edit.rs`, `src/style.rs`, `src/reply.rs`, `src/dispatch.rs` -
  cursor movement, editing, SGR styling, replies to the host, and the dispatch of
  control, ESC and CSI sequences.
- `src/tracking.rs` - dirty-row tracking: every change to the screen marks its row.
- `src/consistency.rs` - the consistent states, in which any bytes at all can be written.
- `src/lib.rs` - the host-facing operations (`init`, `resizeTerminal`, ...).
- `app/` - the WebAssembly exports around one global terminal.

Colours are palette indices 0..=255, the default colour 256, or direct 24-bit colours
stored exactly as `0x0100_0000 + 0xRRGGBB`; a packed cell is 16 bytes (code point,
foreground and background as little-endian `u32`, flags, three bytes of padding).

Each operation on the terminal is specified as a function on `TerminalView`, its
mathematical picture; `write` is specified as these steps applied byte after byte.
