use vstd::prelude::*;
use crate::cell::{
    rgb_color, RGB_COLOR_BASE, DEFAULT_COLOR, FLAG_BLINK, FLAG_BOLD, FLAG_DIM, FLAG_INVISIBLE, FLAG_ITALIC, FLAG_REVERSE,
    FLAG_STRIKETHROUGH, FLAG_UNDERLINE,
};
use crate::parser::{Parser, MAX_PARAMS};
use crate::terminal::{Terminal, TerminalView};

verus! {

/// The colour value of a direct colour: every `(r, g, b)` keeps a value of its own.
fn rgb_to_color(r: u8, g: u8, b: u8) -> (c: u32)
    ensures
        c == rgb_color(r, g, b),
{
    RGB_COLOR_BASE + (r as u32) * 65536 + (g as u32) * 256 + (b as u32)
}

/// Direct colours are kept exactly: two of them are the same colour value only when all three
/// channels agree, and none of them is a palette index or the default colour.
pub proof fn lemma_rgb_color_exact(r1: u8, g1: u8, b1: u8, r2: u8, g2: u8, b2: u8)
    ensures
        rgb_color(r1, g1, b1) == rgb_color(r2, g2, b2) <==> (r1 == r2 && g1 == g2 && b1 == b2),
        rgb_color(r1, g1, b1) >= RGB_COLOR_BASE,
        rgb_color(r1, g1, b1) > DEFAULT_COLOR,
{
    let x1: int = r1 * 65536 + g1 * 256 + b1;
    let x2: int = r2 * 65536 + g2 * 256 + b2;
    assert(x1 == x2 ==> (r1 == r2 && g1 == g2 && b1 == b2)) by (nonlinear_arith)
        requires
            x1 == r1 * 65536 + g1 * 256 + b1,
            x2 == r2 * 65536 + g2 * 256 + b2,
            0 <= r1 < 256, 0 <= g1 < 256, 0 <= b1 < 256,
            0 <= r2 < 256, 0 <= g2 < 256, 0 <= b2 < 256,
    ;
}

/// The index after parameter `j` and the sub-parameters (`:`-joined) that follow it.
pub open spec fn skip_subparams(p: Parser, j: int) -> int
    decreases p.param_count - j,
{
    if j + 1 < p.param_count && j + 1 < MAX_PARAMS && p.subparam[j + 1] {
        skip_subparams(p, j + 1)
    } else {
        j
    }
}

/// The colours and attributes new characters are written with.
pub struct Style {
    pub fg: u32,
    pub bg: u32,
    pub flags: u8,
}

pub open spec fn default_style() -> Style {
    Style { fg: DEFAULT_COLOR, bg: DEFAULT_COLOR, flags: 0 }
}

pub open spec fn with_color(s: Style, foreground: bool, color: u32) -> Style {
    if foreground { Style { fg: color, ..s } } else { Style { bg: color, ..s } }
}

pub open spec fn with_flags(s: Style, flags: u8) -> Style {
    Style { flags, ..s }
}

/// `38;5;n` / `48;5;n` (indexed) or `38;2;r;g;b` / `48;2;r;g;b` (direct colour) at parameter
/// `start`; also how many parameters after `start + 1` it used.
pub open spec fn extended_color(p: Parser, s: Style, start: int, foreground: bool) -> (Style, int) {
    if start + 1 >= p.param_count {
        (s, 0)
    } else if p.params[start + 1] == 5 && start + 2 < p.param_count {
        (with_color(s, foreground, p.params[start + 2] as u32), 2)
    } else if p.params[start + 1] == 2 && start + 4 < p.param_count {
        (with_color(s, foreground, rgb_color(p.params[start + 2] as u8, p.params[start + 3] as u8,
            p.params[start + 4] as u8)), 4)
    } else {
        (s, 0)
    }
}

/// One SGR parameter at index `i`, and the index of the next one to look at.
pub open spec fn sgr_param(p: Parser, s: Style, i: int) -> (Style, int) {
    let param = p.params[i];
    let f = s.flags;
    if param == 0 {
        (default_style(), i + 1)
    } else if param == 1 {
        (with_flags(s, f | FLAG_BOLD), i + 1)
    } else if param == 2 {
        (with_flags(s, f | FLAG_DIM), i + 1)
    } else if param == 3 {
        (with_flags(s, f | FLAG_ITALIC), i + 1)
    } else if param == 4 {
        if i + 1 < p.param_count && p.subparam[i + 1] {
            if p.params[i + 1] == 0 {
                (with_flags(s, f & !FLAG_UNDERLINE), i + 2)
            } else {
                (with_flags(s, f | FLAG_UNDERLINE), i + 2)
            }
        } else {
            (with_flags(s, f | FLAG_UNDERLINE), i + 1)
        }
    } else if param == 5 {
        (with_flags(s, f | FLAG_BLINK), i + 1)
    } else if param == 7 {
        (with_flags(s, f | FLAG_REVERSE), i + 1)
    } else if param == 8 {
        (with_flags(s, f | FLAG_INVISIBLE), i + 1)
    } else if param == 9 {
        (with_flags(s, f | FLAG_STRIKETHROUGH), i + 1)
    } else if param == 22 {
        (with_flags(s, f & !(FLAG_BOLD | FLAG_DIM)), i + 1)
    } else if param == 23 {
        (with_flags(s, f & !FLAG_ITALIC), i + 1)
    } else if param == 24 {
        (with_flags(s, f & !FLAG_UNDERLINE), i + 1)
    } else if param == 25 {
        (with_flags(s, f & !FLAG_BLINK), i + 1)
    } else if param == 27 {
        (with_flags(s, f & !FLAG_REVERSE), i + 1)
    } else if param == 28 {
        (with_flags(s, f & !FLAG_INVISIBLE), i + 1)
    } else if param == 29 {
        (with_flags(s, f & !FLAG_STRIKETHROUGH), i + 1)
    } else if 30 <= param <= 37 {
        (with_color(s, true, (param - 30) as u32), i + 1)
    } else if param == 38 {
        let (s2, used) = extended_color(p, s, i, true);
        (s2, i + used + 1)
    } else if param == 39 {
        (with_color(s, true, DEFAULT_COLOR), i + 1)
    } else if 40 <= param <= 47 {
        (with_color(s, false, (param - 40) as u32), i + 1)
    } else if param == 48 {
        let (s2, used) = extended_color(p, s, i, false);
        (s2, i + used + 1)
    } else if param == 49 {
        (with_color(s, false, DEFAULT_COLOR), i + 1)
    } else if 90 <= param <= 97 {
        (with_color(s, true, (param - 90 + 8) as u32), i + 1)
    } else if 100 <= param <= 107 {
        (with_color(s, false, (param - 100 + 8) as u32), i + 1)
    } else {
        (s, skip_subparams(p, i) + 1)
    }
}

/// The SGR parameters of `p` from index `i` on applied to `s`.
pub open spec fn sgr_from(p: Parser, s: Style, i: int) -> Style
    decreases p.param_count - i,
{
    if i < 0 || i >= p.param_count {
        s
    } else {
        let (s2, next) = sgr_param(p, s, i);
        if next <= i || next > p.param_count {
            s2
        } else {
            sgr_from(p, s2, next)
        }
    }
}

impl TerminalView {
    pub open spec fn style(self) -> Style {
        Style { fg: self.current_fg, bg: self.current_bg, flags: self.current_flags }
    }

    pub open spec fn with_style(self, s: Style) -> TerminalView {
        TerminalView { current_fg: s.fg, current_bg: s.bg, current_flags: s.flags, ..self }
    }

    /// SGR: with no parameters the style is reset; otherwise the parameters are applied in turn.
    pub open spec fn sgr(self) -> TerminalView {
        if self.parser.param_count == 0 {
            self.reset_style()
        } else {
            self.with_style(sgr_from(self.parser, self.style(), 0))
        }
    }
}

fn parse_extended_color(p: &Parser, fg: u32, bg: u32, flags: u8, start: usize, foreground: bool)
    -> (r: (u32, u32, u8, usize))
    requires
        p.wf(),
        start < p.param_count,
    ensures
        (Style { fg: r.0, bg: r.1, flags: r.2 }, r.3 as int)
            == extended_color(*p, Style { fg, bg, flags }, start as int, foreground),
{
    let count = p.param_count as usize;
    if start + 1 >= count {
        return (fg, bg, flags, 0);
    }
    let kind = p.params[start + 1];
    if kind == 5 && start + 2 < count {
        let color = p.params[start + 2] as u32;
        return if foreground { (color, bg, flags, 2) } else { (fg, color, flags, 2) };
    }
    if kind == 2 && start + 4 < count {
        let r = p.params[start + 2] as u8;
        let g = p.params[start + 3] as u8;
        let b = p.params[start + 4] as u8;
        let color = rgb_to_color(r, g, b);
        return if foreground { (color, bg, flags, 4) } else { (fg, color, flags, 4) };
    }
    (fg, bg, flags, 0)
}

/// One SGR parameter applied to a style; also the index of the next parameter to look at.
fn apply_sgr_param(p: &Parser, fg: u32, bg: u32, flags: u8, i: usize) -> (r: (u32, u32, u8, usize))
    requires
        p.wf(),
        i < p.param_count,
    ensures
        (Style { fg: r.0, bg: r.1, flags: r.2 }, r.3 as int) == sgr_param(*p, Style { fg, bg, flags }, i as int),
        i < r.3 <= MAX_PARAMS + 5,
{
    let count = p.param_count as usize;
    let param = p.params[i];
    if param == 0 {
        (DEFAULT_COLOR, DEFAULT_COLOR, 0, i + 1)
    } else if param == 1 {
        (fg, bg, flags | FLAG_BOLD, i + 1)
    } else if param == 2 {
        (fg, bg, flags | FLAG_DIM, i + 1)
    } else if param == 3 {
        (fg, bg, flags | FLAG_ITALIC, i + 1)
    } else if param == 4 {
        if i + 1 < count && p.subparam[i + 1] {
            if p.params[i + 1] == 0 {
                (fg, bg, flags & !FLAG_UNDERLINE, i + 2)
            } else {
                (fg, bg, flags | FLAG_UNDERLINE, i + 2)
            }
        } else {
            (fg, bg, flags | FLAG_UNDERLINE, i + 1)
        }
    } else if param == 5 {
        (fg, bg, flags | FLAG_BLINK, i + 1)
    } else if param == 7 {
        (fg, bg, flags | FLAG_REVERSE, i + 1)
    } else if param == 8 {
        (fg, bg, flags | FLAG_INVISIBLE, i + 1)
    } else if param == 9 {
        (fg, bg, flags | FLAG_STRIKETHROUGH, i + 1)
    } else if param == 22 {
        (fg, bg, flags & !(FLAG_BOLD | FLAG_DIM), i + 1)
    } else if param == 23 {
        (fg, bg, flags & !FLAG_ITALIC, i + 1)
    } else if param == 24 {
        (fg, bg, flags & !FLAG_UNDERLINE, i + 1)
    } else if param == 25 {
        (fg, bg, flags & !FLAG_BLINK, i + 1)
    } else if param == 27 {
        (fg, bg, flags & !FLAG_REVERSE, i + 1)
    } else if param == 28 {
        (fg, bg, flags & !FLAG_INVISIBLE, i + 1)
    } else if param == 29 {
        (fg, bg, flags & !FLAG_STRIKETHROUGH, i + 1)
    } else if 30 <= param && param <= 37 {
        ((param - 30) as u32, bg, flags, i + 1)
    } else if param == 38 {
        let r = parse_extended_color(p, fg, bg, flags, i, true);
        (r.0, r.1, r.2, i + r.3 + 1)
    } else if param == 39 {
        (DEFAULT_COLOR, bg, flags, i + 1)
    } else if 40 <= param && param <= 47 {
        (fg, (param - 40) as u32, flags, i + 1)
    } else if param == 48 {
        let r = parse_extended_color(p, fg, bg, flags, i, false);
        (r.0, r.1, r.2, i + r.3 + 1)
    } else if param == 49 {
        (fg, DEFAULT_COLOR, flags, i + 1)
    } else if 90 <= param && param <= 97 {
        ((param - 90 + 8) as u32, bg, flags, i + 1)
    } else if 100 <= param && param <= 107 {
        (fg, (param - 100 + 8) as u32, flags, i + 1)
    } else {
        let mut j = i;
        while j + 1 < count && p.subparam[j + 1]
            invariant
                i <= j < count,
                count == p.param_count,
                count <= MAX_PARAMS,
                skip_subparams(*p, j as int) == skip_subparams(*p, i as int),
            decreases count - j,
        {
            j += 1;
        }
        (fg, bg, flags, j + 1)
    }
}

impl Terminal {
    /// SGR: sets colours and attributes from the parameters of the last CSI sequence.
    pub(crate) fn handle_sgr(&mut self)
        requires
            old(self).wf(),
        ensures
            final(self).wf(),
            final(self)@ == old(self)@.sgr(),
    {
        if self.parser.param_count == 0 {
            self.reset_style();
            return;
        }
        let ghost p = self.parser;
        let ghost target = sgr_from(p, old(self)@.style(), 0);
        let mut fg = self.current_fg;
        let mut bg = self.current_bg;
        let mut flags = self.current_flags;
        let mut i: usize = 0;
        while i < self.parser.param_count as usize
            invariant
                self.wf(),
                self@ == old(self)@,
                self.parser == p,
                sgr_from(p, Style { fg, bg, flags }, i as int) == target,
            decreases MAX_PARAMS + 5 - i,
        {
            let r = apply_sgr_param(&self.parser, fg, bg, flags, i);
            fg = r.0;
            bg = r.1;
            flags = r.2;
            i = r.3;
        }
        self.current_fg = fg;
        self.current_bg = bg;
        self.current_flags = flags;
    }
}

/// SGR with one parameter: 0 resets the style, 1 sets bold, 30-37 and 90-97 pick the
/// foreground from the palette (90-97 as its bright half, 8-15), 40-47 and 100-107 the
/// background, 39 and 49 bring back the default colours; the rest of the style stays.
pub proof fn lemma_sgr_single(t: TerminalView)
    requires
        t.parser.param_count == 1,
    ensures
        ({
            let p = t.parser.params[0] as int;
            let u = t.sgr();
            &&& p == 0 ==> u.current_fg == DEFAULT_COLOR && u.current_bg == DEFAULT_COLOR && u.current_flags == 0
            &&& p == 1 ==> u.current_flags == t.current_flags | FLAG_BOLD && u.current_fg == t.current_fg
                && u.current_bg == t.current_bg
            &&& 30 <= p <= 37 ==> u.current_fg == p - 30 && u.current_bg == t.current_bg && u.current_flags == t.current_flags
            &&& 90 <= p <= 97 ==> u.current_fg == p - 82 && u.current_bg == t.current_bg && u.current_flags == t.current_flags
            &&& 40 <= p <= 47 ==> u.current_bg == p - 40 && u.current_fg == t.current_fg && u.current_flags == t.current_flags
            &&& 100 <= p <= 107 ==> u.current_bg == p - 92 && u.current_fg == t.current_fg && u.current_flags == t.current_flags
            &&& p == 39 ==> u.current_fg == DEFAULT_COLOR && u.current_bg == t.current_bg
            &&& p == 49 ==> u.current_bg == DEFAULT_COLOR && u.current_fg == t.current_fg
            &&& u.cursor_row == t.cursor_row && u.cursor_col == t.cursor_col && u.grid == t.grid
        }),
{
    reveal_with_fuel(sgr_from, 2);
}

/// SGR `38;5;n` sets the foreground to palette entry `n`, and `38;2;r;g;b` to the direct
/// colour `(r, g, b)`, kept exactly (see `lemma_rgb_color_exact`); `48` does the same for
/// the background.
pub proof fn lemma_sgr_extended(t: TerminalView)
    requires
        t.parser.params[0] == 38 || t.parser.params[0] == 48,
        (t.parser.params[1] == 5 && t.parser.param_count == 3) || (t.parser.params[1] == 2
            && t.parser.param_count == 5 && t.parser.params[2] <= 255 && t.parser.params[3] <= 255
            && t.parser.params[4] <= 255),
    ensures
        ({
            let ps = t.parser.params;
            let color: int = if ps[1] == 5 {
                ps[2] as int
            } else {
                RGB_COLOR_BASE + ps[2] * 65536 + ps[3] * 256 + ps[4]
            };
            let u = t.sgr();
            &&& ps[0] == 38 ==> u.current_fg == color && u.current_bg == t.current_bg
            &&& ps[0] == 48 ==> u.current_bg == color && u.current_fg == t.current_fg
            &&& u.current_flags == t.current_flags
        }),
{
    reveal_with_fuel(sgr_from, 2);
    let ps = t.parser.params;
    if ps[1] == 2 {
        assert(ps[2] as u8 == ps[2] && ps[3] as u8 == ps[3] && ps[4] as u8 == ps[4]);
    }
}

} // verus!
