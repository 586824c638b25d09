use vstd::prelude::*;
use vstd::array::{spec_array_update, spec_array_fill_for_copy_type};

verus! {

pub const MAX_PARAMS: usize = 16;
pub const MAX_INTERMEDIATES: usize = 2;
pub const MAX_OSC: usize = 512;

/// What the terminal has to do after the parser has taken a byte.
#[derive(Clone, Copy, Debug, PartialEq, Eq, Structural)]
pub enum Action {
    Nothing,
    Print,
    Execute,
    CsiDispatch,
    EscDispatch,
    OscDispatch,
}

/// The states of the escape-sequence recogniser.
#[derive(Clone, Copy, Debug, PartialEq, Eq, Structural)]
pub enum State {
    Ground,
    Utf8,
    Escape,
    EscapeIntermediate,
    CsiParam,
    CsiIntermediate,
    CsiIgnore,
    OscString,
}

/// A VT100/xterm escape-sequence parser fed one byte at a time.
#[derive(Clone, Copy)]
pub struct Parser {
    pub state: State,
    pub print_char: u32,
    pub execute_byte: u8,
    pub params: [u16; MAX_PARAMS],
    pub param_count: u8,
    pub params_full: bool,
    pub subparam: [bool; MAX_PARAMS],
    pub intermediates: [u8; MAX_INTERMEDIATES],
    pub intermediate_count: u8,
    pub csi_private: u8,
    pub osc_data: [u8; MAX_OSC],
    pub osc_len: u16,
    pub utf8_buf: [u8; 4],
    pub utf8_remaining: u8,
    pub utf8_expected: u8,
}

/// The code point that a 2-, 3- or 4-byte UTF-8 sequence encodes (its payload bits, with
/// the lead byte's marker bits dropped); U+FFFD for any other length.
pub open spec fn utf8_value(bytes: Seq<u8>) -> u32 {
    if bytes.len() == 2 {
        ((bytes[0] % 32) * 64 + bytes[1] % 64) as u32
    } else if bytes.len() == 3 {
        ((bytes[0] % 16) * 4096 + (bytes[1] % 64) * 64 + bytes[2] % 64) as u32
    } else if bytes.len() == 4 {
        ((bytes[0] % 8) * 262144 + (bytes[1] % 64) * 4096 + (bytes[2] % 64) * 64 + bytes[3] % 64) as u32
    } else {
        0xFFFD
    }
}

/// `v * 10 + digit`, saturating at `u16::MAX` after each step.
pub open spec fn push_digit(v: u16, digit: u16) -> u16 {
    let m: int = if v * 10 > u16::MAX { u16::MAX as int } else { v * 10 };
    if m + digit > u16::MAX { u16::MAX } else { (m + digit) as u16 }
}

pub open spec fn in_range(b: u8, lo: u8, hi: u8) -> bool {
    lo <= b && b <= hi
}

/// Decodes a complete UTF-8 sequence whose lead byte fixed its length.
fn decode_utf8(bytes: &[u8]) -> (c: u32)
    ensures
        c == utf8_value(bytes@),
{
    if bytes.len() == 2 {
        let (b0, b1) = (bytes[0], bytes[1]);
        assert(((b0 & 0x1F) as u32) << 6u32 | ((b1 & 0x3F) as u32)
            == ((b0 % 32) * 64 + b1 % 64) as u32) by (bit_vector);
        (((b0 & 0x1F) as u32) << 6u32) | ((b1 & 0x3F) as u32)
    } else if bytes.len() == 3 {
        let (b0, b1, b2) = (bytes[0], bytes[1], bytes[2]);
        assert(((b0 & 0x0F) as u32) << 12u32 | ((b1 & 0x3F) as u32) << 6u32 | ((b2 & 0x3F) as u32)
            == ((b0 % 16) * 4096 + (b1 % 64) * 64 + b2 % 64) as u32) by (bit_vector);
        (((b0 & 0x0F) as u32) << 12u32) | (((b1 & 0x3F) as u32) << 6u32) | ((b2 & 0x3F) as u32)
    } else if bytes.len() == 4 {
        let (b0, b1, b2, b3) = (bytes[0], bytes[1], bytes[2], bytes[3]);
        assert(((b0 & 0x07) as u32) << 18u32 | ((b1 & 0x3F) as u32) << 12u32 | ((b2 & 0x3F) as u32) << 6u32
            | ((b3 & 0x3F) as u32)
            == ((b0 % 8) * 262144 + (b1 % 64) * 4096 + (b2 % 64) * 64 + b3 % 64) as u32) by (bit_vector);
        (((b0 & 0x07) as u32) << 18u32) | (((b1 & 0x3F) as u32) << 12u32) | (((b2 & 0x3F) as u32) << 6u32)
            | ((b3 & 0x3F) as u32)
    } else {
        0xFFFD
    }
}

impl Parser {
    /// The counters stay inside their arrays, and a pending UTF-8 sequence has between one
    /// and three continuation bytes still to come.
    pub open spec fn wf(self) -> bool {
        &&& self.param_count <= MAX_PARAMS
        &&& self.intermediate_count <= MAX_INTERMEDIATES
        &&& self.osc_len <= MAX_OSC
        &&& self.state == State::Utf8 ==> {
            &&& 2 <= self.utf8_expected <= 4
            &&& 1 <= self.utf8_remaining < self.utf8_expected
        }
    }

    pub open spec fn initial() -> Parser {
        Parser {
            state: State::Ground,
            print_char: 0,
            execute_byte: 0,
            params: spec_array_fill_for_copy_type::<u16, 16>(0),
            param_count: 0,
            params_full: false,
            subparam: spec_array_fill_for_copy_type::<bool, 16>(false),
            intermediates: spec_array_fill_for_copy_type::<u8, 2>(0),
            intermediate_count: 0,
            csi_private: 0,
            osc_data: spec_array_fill_for_copy_type::<u8, 512>(0),
            osc_len: 0,
            utf8_buf: spec_array_fill_for_copy_type::<u8, 4>(0),
            utf8_remaining: 0,
            utf8_expected: 0,
        }
    }

    pub open spec fn entered_escape(self) -> Parser {
        Parser { state: State::Escape, intermediate_count: 0, csi_private: 0, ..self }
    }

    pub open spec fn entered_csi(self) -> Parser {
        Parser {
            state: State::CsiParam,
            param_count: 0,
            params_full: false,
            intermediate_count: 0,
            csi_private: 0,
            params: spec_array_fill_for_copy_type::<u16, 16>(0),
            subparam: spec_array_fill_for_copy_type::<bool, 16>(false),
            ..self
        }
    }

    /// Stores an intermediate byte unless both slots are taken.
    pub open spec fn collected(self, byte: u8) -> Parser {
        if self.intermediate_count < MAX_INTERMEDIATES {
            Parser {
                intermediates: spec_array_update(self.intermediates, self.intermediate_count as int, byte),
                intermediate_count: (self.intermediate_count + 1) as u8,
                ..self
            }
        } else {
            self
        }
    }

    pub open spec fn started_utf8(self, byte: u8, expected: u8) -> (Parser, Action) {
        (Parser {
            utf8_buf: spec_array_update(self.utf8_buf, 0, byte),
            utf8_expected: expected,
            utf8_remaining: (expected - 1) as u8,
            state: State::Utf8,
            ..self
        }, Action::Nothing)
    }

    pub open spec fn ground_step(self, byte: u8) -> (Parser, Action) {
        if byte < 0x20 {
            (Parser { execute_byte: byte, ..self }, Action::Execute)
        } else if byte < 0x7F {
            (Parser { print_char: byte as u32, ..self }, Action::Print)
        } else if byte == 0x7F {
            (Parser { execute_byte: 0x7F, ..self }, Action::Execute)
        } else if in_range(byte, 0xC0, 0xDF) {
            self.started_utf8(byte, 2)
        } else if in_range(byte, 0xE0, 0xEF) {
            self.started_utf8(byte, 3)
        } else if in_range(byte, 0xF0, 0xF7) {
            self.started_utf8(byte, 4)
        } else {
            (self, Action::Nothing)
        }
    }

    pub open spec fn utf8_step(self, byte: u8) -> (Parser, Action) {
        if in_range(byte, 0x80, 0xBF) {
            let buf = spec_array_update(self.utf8_buf, self.utf8_expected - self.utf8_remaining, byte);
            let remaining = (self.utf8_remaining - 1) as u8;
            if remaining == 0 {
                (Parser {
                    utf8_buf: buf,
                    utf8_remaining: remaining,
                    print_char: utf8_value(buf@.take(self.utf8_expected as int)),
                    state: State::Ground,
                    ..self
                }, Action::Print)
            } else {
                (Parser { utf8_buf: buf, utf8_remaining: remaining, ..self }, Action::Nothing)
            }
        } else {
            Parser { state: State::Ground, ..self }.ground_step(byte)
        }
    }

    pub open spec fn escape_step(self, byte: u8) -> (Parser, Action) {
        if byte == 0x5B {
            (self.entered_csi(), Action::Nothing)
        } else if byte == 0x5D {
            (Parser { state: State::OscString, osc_len: 0, ..self }, Action::Nothing)
        } else if in_range(byte, 0x20, 0x2F) {
            (Parser { state: State::EscapeIntermediate, ..self.collected(byte) }, Action::Nothing)
        } else if in_range(byte, 0x30, 0x7E) {
            (Parser { execute_byte: byte, state: State::Ground, ..self }, Action::EscDispatch)
        } else if byte < 0x20 {
            (Parser { execute_byte: byte, ..self }, Action::Execute)
        } else {
            (Parser { state: State::Ground, ..self }, Action::Nothing)
        }
    }

    pub open spec fn escape_intermediate_step(self, byte: u8) -> (Parser, Action) {
        if in_range(byte, 0x20, 0x2F) {
            (self.collected(byte), Action::Nothing)
        } else if in_range(byte, 0x30, 0x7E) {
            (Parser { execute_byte: byte, state: State::Ground, ..self }, Action::EscDispatch)
        } else if byte < 0x20 {
            (Parser { execute_byte: byte, ..self }, Action::Execute)
        } else {
            (Parser { state: State::Ground, ..self }, Action::Nothing)
        }
    }

    /// A decimal digit extends the current parameter (the first one if none is open yet).
    pub open spec fn digit_step(self, byte: u8) -> Parser {
        if self.params_full {
            self
        } else {
            let count: u8 = if self.param_count == 0 { 1 } else { self.param_count };
            let idx: int = count - 1;
            Parser {
                param_count: count,
                params: spec_array_update(self.params, idx, push_digit(self.params[idx], (byte - 0x30) as u16)),
                ..self
            }
        }
    }

    /// `;` or `:` opens the next parameter; `:` marks it as a sub-parameter.
    pub open spec fn separator_step(self, byte: u8) -> Parser {
        if self.param_count < MAX_PARAMS {
            let next: u8 = if self.param_count == 0 { 1 } else { self.param_count };
            let count = (next + 1) as u8;
            if count > MAX_PARAMS {
                Parser { param_count: MAX_PARAMS as u8, params_full: true, ..self }
            } else if byte == 0x3A && next < MAX_PARAMS {
                Parser { param_count: count, subparam: spec_array_update(self.subparam, next as int, true), ..self }
            } else {
                Parser { param_count: count, ..self }
            }
        } else {
            self
        }
    }

    pub open spec fn csi_param_step(self, byte: u8) -> (Parser, Action) {
        if in_range(byte, 0x30, 0x39) {
            (self.digit_step(byte), Action::Nothing)
        } else if byte == 0x3B || byte == 0x3A {
            (self.separator_step(byte), Action::Nothing)
        } else if byte == 0x3F || byte == 0x3E || byte == 0x21 {
            (Parser { csi_private: byte, ..self }, Action::Nothing)
        } else if in_range(byte, 0x20, 0x2F) {
            (Parser { state: State::CsiIntermediate, ..self.collected(byte) }, Action::Nothing)
        } else if in_range(byte, 0x40, 0x7E) {
            (Parser { execute_byte: byte, state: State::Ground, ..self }, Action::CsiDispatch)
        } else if byte < 0x20 {
            (Parser { execute_byte: byte, ..self }, Action::Execute)
        } else {
            (Parser { state: State::CsiIgnore, ..self }, Action::Nothing)
        }
    }

    pub open spec fn csi_intermediate_step(self, byte: u8) -> (Parser, Action) {
        if in_range(byte, 0x20, 0x2F) {
            (self.collected(byte), Action::Nothing)
        } else if in_range(byte, 0x40, 0x7E) {
            (Parser { execute_byte: byte, state: State::Ground, ..self }, Action::CsiDispatch)
        } else if byte < 0x20 {
            (Parser { execute_byte: byte, ..self }, Action::Execute)
        } else {
            (Parser { state: State::CsiIgnore, ..self }, Action::Nothing)
        }
    }

    pub open spec fn csi_ignore_step(self, byte: u8) -> (Parser, Action) {
        if in_range(byte, 0x40, 0x7E) {
            (Parser { state: State::Ground, ..self }, Action::Nothing)
        } else {
            (self, Action::Nothing)
        }
    }

    /// BEL ends the string; printable bytes are kept while there is room.
    pub open spec fn osc_step(self, byte: u8) -> (Parser, Action) {
        if byte == 0x07 {
            (Parser { state: State::Ground, ..self }, Action::OscDispatch)
        } else if in_range(byte, 0x20, 0x7E) && self.osc_len < MAX_OSC {
            (Parser {
                osc_data: spec_array_update(self.osc_data, self.osc_len as int, byte),
                osc_len: (self.osc_len + 1) as u16,
                ..self
            }, Action::Nothing)
        } else {
            (self, Action::Nothing)
        }
    }

    /// The parser after `byte`, and what the terminal must do.  ESC always starts a new
    /// sequence (ending a pending OSC string), CAN and SUB abort to the ground state.
    pub open spec fn step(self, byte: u8) -> (Parser, Action) {
        if byte == 0x1B {
            if self.state == State::OscString {
                (Parser { state: State::Escape, ..self }, Action::OscDispatch)
            } else {
                (self.entered_escape(), Action::Nothing)
            }
        } else if byte == 0x18 || byte == 0x1A {
            (Parser { state: State::Ground, ..self }, Action::Nothing)
        } else {
            match self.state {
                State::Ground => self.ground_step(byte),
                State::Utf8 => self.utf8_step(byte),
                State::Escape => self.escape_step(byte),
                State::EscapeIntermediate => self.escape_intermediate_step(byte),
                State::CsiParam => self.csi_param_step(byte),
                State::CsiIntermediate => self.csi_intermediate_step(byte),
                State::CsiIgnore => self.csi_ignore_step(byte),
                State::OscString => self.osc_step(byte),
            }
        }
    }

    /// Parameter `idx`, or `default` when it is missing or zero.
    pub open spec fn param_or(self, idx: int, default: u16) -> u16 {
        if idx >= self.param_count || self.params[idx] == 0 { default } else { self.params[idx] }
    }
}

impl Parser {
    /// A parser in the ground state with nothing collected.
    pub fn new() -> (p: Parser)
        ensures
            p == Parser::initial(),
            p.wf(),
    {
        Parser {
            state: State::Ground,
            print_char: 0,
            execute_byte: 0,
            params: [0u16; 16],
            param_count: 0,
            params_full: false,
            subparam: [false; 16],
            intermediates: [0u8; 2],
            intermediate_count: 0,
            csi_private: 0,
            osc_data: [0u8; 512],
            osc_len: 0,
            utf8_buf: [0u8; 4],
            utf8_remaining: 0,
            utf8_expected: 0,
        }
    }

    /// Takes one byte and says what the terminal has to do with what has been collected.
    pub fn feed(&mut self, byte: u8) -> (a: Action)
        requires
            old(self).wf(),
        ensures
            final(self).wf(),
            (*final(self), a) == old(self).step(byte),
    {
        if byte == 0x1B {
            if self.state == State::OscString {
                self.state = State::Escape;
                return Action::OscDispatch;
            }
            self.enter_escape();
            return Action::Nothing;
        }
        if byte == 0x18 || byte == 0x1A {
            self.state = State::Ground;
            return Action::Nothing;
        }
        match self.state {
            State::Ground => self.handle_ground(byte),
            State::Utf8 => self.handle_utf8(byte),
            State::Escape => self.handle_escape(byte),
            State::EscapeIntermediate => self.handle_escape_intermediate(byte),
            State::CsiParam => self.handle_csi_param(byte),
            State::CsiIntermediate => self.handle_csi_intermediate(byte),
            State::CsiIgnore => self.handle_csi_ignore(byte),
            State::OscString => self.handle_osc_string(byte),
        }
    }

    fn enter_escape(&mut self)
        requires
            old(self).wf(),
        ensures
            final(self).wf(),
            *final(self) == old(self).entered_escape(),
    {
        self.state = State::Escape;
        self.intermediate_count = 0;
        self.csi_private = 0;
    }

    fn enter_csi(&mut self)
        requires
            old(self).wf(),
        ensures
            final(self).wf(),
            *final(self) == old(self).entered_csi(),
    {
        self.state = State::CsiParam;
        self.param_count = 0;
        self.params_full = false;
        self.intermediate_count = 0;
        self.csi_private = 0;
        self.params = [0u16; 16];
        self.subparam = [false; 16];
    }

    fn handle_ground(&mut self, byte: u8) -> (a: Action)
        requires
            old(self).wf(),
            old(self).state != State::Utf8,
        ensures
            final(self).wf(),
            (*final(self), a) == old(self).ground_step(byte),
    {
        if byte < 0x20 {
            self.execute_byte = byte;
            return Action::Execute;
        }
        if byte < 0x7F {
            self.print_char = byte as u32;
            return Action::Print;
        }
        if byte == 0x7F {
            self.execute_byte = 0x7F;
            return Action::Execute;
        }
        if 0xC0 <= byte && byte <= 0xDF {
            self.start_utf8(byte, 2);
            return Action::Nothing;
        }
        if 0xE0 <= byte && byte <= 0xEF {
            self.start_utf8(byte, 3);
            return Action::Nothing;
        }
        if 0xF0 <= byte && byte <= 0xF7 {
            self.start_utf8(byte, 4);
            return Action::Nothing;
        }
        Action::Nothing
    }

    fn start_utf8(&mut self, byte: u8, expected: u8)
        requires
            old(self).wf(),
            2 <= expected <= 4,
        ensures
            final(self).wf(),
            (*final(self), Action::Nothing) == old(self).started_utf8(byte, expected),
    {
        self.utf8_buf[0] = byte;
        self.utf8_expected = expected;
        self.utf8_remaining = expected - 1;
        self.state = State::Utf8;
        assert(self.utf8_buf =~= spec_array_update(old(self).utf8_buf, 0, byte));
    }

    fn handle_utf8(&mut self, byte: u8) -> (a: Action)
        requires
            old(self).wf(),
            old(self).state == State::Utf8,
        ensures
            final(self).wf(),
            (*final(self), a) == old(self).utf8_step(byte),
    {
        if 0x80 <= byte && byte <= 0xBF {
            let idx = (self.utf8_expected - self.utf8_remaining) as usize;
            self.utf8_buf[idx] = byte;
            assert(self.utf8_buf =~= spec_array_update(old(self).utf8_buf, idx as int, byte));
            self.utf8_remaining -= 1;
            if self.utf8_remaining == 0 {
                let n = self.utf8_expected as usize;
                let bytes = &self.utf8_buf[0..n];
                assert(bytes@ =~= self.utf8_buf@.take(n as int));
                self.print_char = decode_utf8(bytes);
                self.state = State::Ground;
                return Action::Print;
            }
            return Action::Nothing;
        }
        self.state = State::Ground;
        self.handle_ground(byte)
    }

    fn handle_escape(&mut self, byte: u8) -> (a: Action)
        requires
            old(self).wf(),
            old(self).state == State::Escape,
        ensures
            final(self).wf(),
            (*final(self), a) == old(self).escape_step(byte),
    {
        if byte == 0x5B {
            self.enter_csi();
            return Action::Nothing;
        }
        if byte == 0x5D {
            self.state = State::OscString;
            self.osc_len = 0;
            return Action::Nothing;
        }
        if 0x20 <= byte && byte <= 0x2F {
            self.collect_intermediate(byte);
            self.state = State::EscapeIntermediate;
            return Action::Nothing;
        }
        if 0x30 <= byte && byte <= 0x7E {
            self.execute_byte = byte;
            self.state = State::Ground;
            return Action::EscDispatch;
        }
        if byte < 0x20 {
            self.execute_byte = byte;
            return Action::Execute;
        }
        self.state = State::Ground;
        Action::Nothing
    }

    fn handle_escape_intermediate(&mut self, byte: u8) -> (a: Action)
        requires
            old(self).wf(),
            old(self).state == State::EscapeIntermediate,
        ensures
            final(self).wf(),
            (*final(self), a) == old(self).escape_intermediate_step(byte),
    {
        if 0x20 <= byte && byte <= 0x2F {
            self.collect_intermediate(byte);
            return Action::Nothing;
        }
        if 0x30 <= byte && byte <= 0x7E {
            self.execute_byte = byte;
            self.state = State::Ground;
            return Action::EscDispatch;
        }
        if byte < 0x20 {
            self.execute_byte = byte;
            return Action::Execute;
        }
        self.state = State::Ground;
        Action::Nothing
    }

    fn handle_csi_param(&mut self, byte: u8) -> (a: Action)
        requires
            old(self).wf(),
            old(self).state == State::CsiParam,
        ensures
            final(self).wf(),
            (*final(self), a) == old(self).csi_param_step(byte),
    {
        if 0x30 <= byte && byte <= 0x39 {
            if !self.params_full {
                let idx = if self.param_count == 0 {
                    self.param_count = 1;
                    0usize
                } else {
                    (self.param_count - 1) as usize
                };
                let digit = (byte - 0x30) as u16;
                let old_value = self.params[idx];
                let times_ten: u32 = old_value as u32 * 10;
                let saturated: u16 = if times_ten > 0xFFFF { 0xFFFF } else { times_ten as u16 };
                let value = saturated.saturating_add(digit);
                self.params[idx] = value;
                assert(self.params =~= spec_array_update(old(self).params, idx as int, push_digit(old_value, digit)));
            }
            return Action::Nothing;
        }
        if byte == 0x3B || byte == 0x3A {
            if self.param_count < MAX_PARAMS as u8 {
                if self.param_count == 0 {
                    self.param_count = 1;
                }
                let next = self.param_count as usize;
                self.param_count += 1;
                if self.param_count > MAX_PARAMS as u8 {
                    self.param_count = MAX_PARAMS as u8;
                    self.params_full = true;
                } else if byte == 0x3A && next < MAX_PARAMS {
                    self.subparam[next] = true;
                    assert(self.subparam =~= spec_array_update(old(self).subparam, next as int, true));
                }
            }
            return Action::Nothing;
        }
        if byte == 0x3F || byte == 0x3E || byte == 0x21 {
            self.csi_private = byte;
            return Action::Nothing;
        }
        if 0x20 <= byte && byte <= 0x2F {
            self.collect_intermediate(byte);
            self.state = State::CsiIntermediate;
            return Action::Nothing;
        }
        if 0x40 <= byte && byte <= 0x7E {
            self.execute_byte = byte;
            self.state = State::Ground;
            return Action::CsiDispatch;
        }
        if byte < 0x20 {
            self.execute_byte = byte;
            return Action::Execute;
        }
        self.state = State::CsiIgnore;
        Action::Nothing
    }

    fn handle_csi_intermediate(&mut self, byte: u8) -> (a: Action)
        requires
            old(self).wf(),
            old(self).state == State::CsiIntermediate,
        ensures
            final(self).wf(),
            (*final(self), a) == old(self).csi_intermediate_step(byte),
    {
        if 0x20 <= byte && byte <= 0x2F {
            self.collect_intermediate(byte);
            return Action::Nothing;
        }
        if 0x40 <= byte && byte <= 0x7E {
            self.execute_byte = byte;
            self.state = State::Ground;
            return Action::CsiDispatch;
        }
        if byte < 0x20 {
            self.execute_byte = byte;
            return Action::Execute;
        }
        self.state = State::CsiIgnore;
        Action::Nothing
    }

    fn handle_csi_ignore(&mut self, byte: u8) -> (a: Action)
        requires
            old(self).wf(),
            old(self).state == State::CsiIgnore,
        ensures
            final(self).wf(),
            (*final(self), a) == old(self).csi_ignore_step(byte),
    {
        if 0x40 <= byte && byte <= 0x7E {
            self.state = State::Ground;
        }
        Action::Nothing
    }

    fn handle_osc_string(&mut self, byte: u8) -> (a: Action)
        requires
            old(self).wf(),
            old(self).state == State::OscString,
        ensures
            final(self).wf(),
            (*final(self), a) == old(self).osc_step(byte),
    {
        if byte == 0x07 {
            self.state = State::Ground;
            return Action::OscDispatch;
        }
        if 0x20 <= byte && byte <= 0x7E && (self.osc_len as usize) < MAX_OSC {
            self.osc_data[self.osc_len as usize] = byte;
            assert(self.osc_data =~= spec_array_update(old(self).osc_data, old(self).osc_len as int, byte));
            self.osc_len += 1;
        }
        Action::Nothing
    }

    fn collect_intermediate(&mut self, byte: u8)
        requires
            old(self).wf(),
        ensures
            final(self).wf(),
            *final(self) == old(self).collected(byte),
    {
        if (self.intermediate_count as usize) < MAX_INTERMEDIATES {
            self.intermediates[self.intermediate_count as usize] = byte;
            assert(self.intermediates =~= spec_array_update(old(self).intermediates,
                old(self).intermediate_count as int, byte));
            self.intermediate_count += 1;
        }
    }

    /// Parameter `idx` of the last CSI sequence, or `default` when it is missing or zero.
    pub fn get_param(&self, idx: u8, default: u16) -> (v: u16)
        requires
            self.wf(),
        ensures
            v == self.param_or(idx as int, default),
    {
        if idx >= self.param_count {
            return default;
        }
        let value = self.params[idx as usize];
        if value == 0 { default } else { value }
    }
}

/// The UTF-8 encoding of a code point (at most U+1FFFFF, the four-byte range).
pub open spec fn utf8_encoding(c: u32) -> Seq<u8> {
    if c < 0x80 {
        seq![c as u8]
    } else if c < 0x800 {
        seq![(0xC0 | (c >> 6)) as u8, (0x80 | (c & 0x3F)) as u8]
    } else if c < 0x10000 {
        seq![(0xE0 | (c >> 12)) as u8, (0x80 | ((c >> 6) & 0x3F)) as u8, (0x80 | (c & 0x3F)) as u8]
    } else {
        seq![(0xF0 | (c >> 18)) as u8, (0x80 | ((c >> 12) & 0x3F)) as u8, (0x80 | ((c >> 6) & 0x3F)) as u8,
            (0x80 | (c & 0x3F)) as u8]
    }
}

/// The parser after `bytes`, and the action each byte produced.
pub open spec fn feed_all(p: Parser, bytes: Seq<u8>) -> (Parser, Seq<Action>)
    decreases bytes.len(),
{
    if bytes.len() == 0 {
        (p, Seq::empty())
    } else {
        let (p1, a) = p.step(bytes[0]);
        let (p2, rest) = feed_all(p1, bytes.drop_first());
        (p2, seq![a] + rest)
    }
}

/// Every step keeps the parser's counters inside their arrays.
pub proof fn lemma_step_wf(p: Parser, byte: u8)
    requires
        p.wf(),
    ensures
        p.step(byte).0.wf(),
{
}

/// CAN and SUB abandon any sequence in progress: back to the ground state, nothing to do.
pub proof fn lemma_cancel(p: Parser, byte: u8)
    requires
        byte == 0x18 || byte == 0x1A,
    ensures
        p.step(byte).0.state == State::Ground,
        p.step(byte).1 == Action::Nothing,
{
}

/// ESC starts a new escape sequence from any state, with no intermediates and no private
/// marker; inside an OSC string it also ends the string, which is then dispatched.
pub proof fn lemma_escape_restarts(p: Parser)
    ensures
        p.step(0x1B).0.state == State::Escape,
        p.state != State::OscString ==> {
            &&& p.step(0x1B).1 == Action::Nothing
            &&& p.step(0x1B).0.intermediate_count == 0
            &&& p.step(0x1B).0.csi_private == 0
        },
        p.state == State::OscString ==> p.step(0x1B).1 == Action::OscDispatch,
{
}

/// In the ground state a printable ASCII byte is printed as itself and the parser stays put.
pub proof fn lemma_print_ascii(p: Parser, byte: u8)
    requires
        p.state == State::Ground,
        0x20 <= byte < 0x7F,
    ensures
        p.step(byte).1 == Action::Print,
        p.step(byte).0.print_char == byte as u32,
        p.step(byte).0.state == State::Ground,
{
}

/// From the ground state, the UTF-8 encoding of a printable code point yields exactly one
/// action, a Print of that code point, after its last byte; the parser ends in the ground state.
pub proof fn lemma_utf8_round_trip(p: Parser, c: u32)
    requires
        p.wf(),
        p.state == State::Ground,
        0x20 <= c < 0x7F || 0x80 <= c < 0x200000,
    ensures
        ({
            let (q, actions) = feed_all(p, utf8_encoding(c));
            &&& q.state == State::Ground
            &&& q.print_char == c
            &&& actions.len() == utf8_encoding(c).len()
            &&& actions.last() == Action::Print
            &&& forall|i: int| 0 <= i < actions.len() - 1 ==> actions[i] == Action::Nothing
        }),
{
    let bytes = utf8_encoding(c);
    if c < 0x80 {
        reveal_with_fuel(feed_all, 2);
        assert(bytes.drop_first() =~= Seq::<u8>::empty());
    } else if c < 0x800 {
        let b0 = (0xC0 | (c >> 6)) as u8;
        let b1 = (0x80 | (c & 0x3F)) as u8;
        assert(0xC0 <= b0 <= 0xDF && 0x80 <= b1 <= 0xBF && ((b0 % 32) * 64 + b1 % 64) as u32 == c) by (bit_vector)
            requires 0x80 <= c < 0x800, b0 == (0xC0 | (c >> 6)) as u8, b1 == (0x80 | (c & 0x3F)) as u8;
        let (p1, a1) = p.step(b0);
        let (p2, a2) = p1.step(b1);
        assert(p2.utf8_buf@.take(2) =~= seq![b0, b1]);
        assert(bytes.drop_first() =~= seq![b1]);
        assert(bytes.drop_first().drop_first() =~= Seq::<u8>::empty());
        reveal_with_fuel(feed_all, 3);
        assert(feed_all(p, bytes).1 =~= seq![a1, a2]);
    } else if c < 0x10000 {
        let b0 = (0xE0 | (c >> 12)) as u8;
        let b1 = (0x80 | ((c >> 6) & 0x3F)) as u8;
        let b2 = (0x80 | (c & 0x3F)) as u8;
        assert(0xE0 <= b0 <= 0xEF && 0x80 <= b1 <= 0xBF && 0x80 <= b2 <= 0xBF
            && ((b0 % 16) * 4096 + (b1 % 64) * 64 + b2 % 64) as u32 == c) by (bit_vector)
            requires 0x800 <= c < 0x10000, b0 == (0xE0 | (c >> 12)) as u8, b1 == (0x80 | ((c >> 6) & 0x3F)) as u8,
                b2 == (0x80 | (c & 0x3F)) as u8;
        let (p1, a1) = p.step(b0);
        let (p2, a2) = p1.step(b1);
        let (p3, a3) = p2.step(b2);
        assert(p3.utf8_buf@.take(3) =~= seq![b0, b1, b2]);
        assert(bytes.drop_first() =~= seq![b1, b2]);
        assert(bytes.drop_first().drop_first() =~= seq![b2]);
        assert(bytes.drop_first().drop_first().drop_first() =~= Seq::<u8>::empty());
        reveal_with_fuel(feed_all, 4);
        assert(feed_all(p, bytes).1 =~= seq![a1, a2, a3]);
    } else {
        let b0 = (0xF0 | (c >> 18)) as u8;
        let b1 = (0x80 | ((c >> 12) & 0x3F)) as u8;
        let b2 = (0x80 | ((c >> 6) & 0x3F)) as u8;
        let b3 = (0x80 | (c & 0x3F)) as u8;
        assert(0xF0 <= b0 <= 0xF7 && 0x80 <= b1 <= 0xBF && 0x80 <= b2 <= 0xBF && 0x80 <= b3 <= 0xBF
            && ((b0 % 8) * 262144 + (b1 % 64) * 4096 + (b2 % 64) * 64 + b3 % 64) as u32 == c) by (bit_vector)
            requires 0x10000 <= c < 0x200000, b0 == (0xF0 | (c >> 18)) as u8, b1 == (0x80 | ((c >> 12) & 0x3F)) as u8,
                b2 == (0x80 | ((c >> 6) & 0x3F)) as u8, b3 == (0x80 | (c & 0x3F)) as u8;
        let (p1, a1) = p.step(b0);
        let (p2, a2) = p1.step(b1);
        let (p3, a3) = p2.step(b2);
        let (p4, a4) = p3.step(b3);
        assert(p4.utf8_buf@.take(4) =~= seq![b0, b1, b2, b3]);
        assert(bytes.drop_first() =~= seq![b1, b2, b3]);
        assert(bytes.drop_first().drop_first() =~= seq![b2, b3]);
        assert(bytes.drop_first().drop_first().drop_first() =~= seq![b3]);
        assert(bytes.drop_first().drop_first().drop_first().drop_first() =~= Seq::<u8>::empty());
        reveal_with_fuel(feed_all, 5);
        assert(feed_all(p, bytes).1 =~= seq![a1, a2, a3, a4]);
    }
}

/// `ESC [` starts a control sequence with no parameters, intermediates or private marker.
pub proof fn lemma_csi_starts_empty(p: Parser)
    requires
        p.state == State::Escape,
    ensures
        ({
            let (q, a) = p.step(0x5B);
            &&& a == Action::Nothing
            &&& q.state == State::CsiParam
            &&& q.param_count == 0
            &&& q.intermediate_count == 0
            &&& q.csi_private == 0
            &&& forall|j: int| 0 <= j < MAX_PARAMS ==> q.params[j] == 0 && !q.subparam[j]
        }),
{
}

/// Inside a control sequence's parameters: a digit appends itself to the current parameter
/// (the first one if none was started), saturating at 65535, and leaves the others alone;
/// `;` starts the next parameter (up to `MAX_PARAMS`); a final byte 0x40..=0x7E ends the
/// sequence and asks for it to be carried out with the parameters collected.
pub proof fn lemma_csi_parameter_bytes(p: Parser, byte: u8)
    requires
        p.wf(),
        p.state == State::CsiParam,
    ensures
        ({
            let (q, a) = p.step(byte);
            let i: int = if p.param_count == 0 { 0 } else { p.param_count - 1 };
            let v: int = p.params[i] * 10 + (byte - 0x30);
            &&& (0x30 <= byte <= 0x39 && !p.params_full) ==> {
                &&& a == Action::Nothing
                &&& q.param_count == i + 1
                &&& q.params[i] == if v > u16::MAX { u16::MAX as int } else { v }
                &&& forall|j: int| 0 <= j < MAX_PARAMS && j != i ==> q.params[j] == p.params[j]
            }
            &&& (byte == 0x3B && p.param_count < MAX_PARAMS) ==> {
                &&& a == Action::Nothing
                &&& q.param_count == if i + 2 > MAX_PARAMS { MAX_PARAMS as int } else { i + 2 }
                &&& q.params == p.params
            }
            &&& 0x40 <= byte <= 0x7E ==> {
                &&& a == Action::CsiDispatch
                &&& q.execute_byte == byte
                &&& q.state == State::Ground
                &&& q.params == p.params
                &&& q.param_count == p.param_count
                &&& q.csi_private == p.csi_private
            }
        }),
{
}

} // verus!
