use vstd::prelude::*;
use vstd::array::{spec_array_update, spec_array_fill_for_copy_type};
use crate::parser::{Parser, State, Action, push_digit};
use crate::terminal::{Terminal, TerminalView, DebugLogEntry, DEBUG_LOG_MAX, written, write_ok};

verus! {

/// The decimal digits of `v` in ASCII, without leading zeros ("0" for zero).
pub open spec fn decimal(v: nat) -> Seq<u8>
    decreases v,
{
    if v < 10 {
        seq![(48 + v) as u8]
    } else {
        decimal(v / 10).push((48 + v % 10) as u8)
    }
}

/// The digits of `v` with none at all for zero.
pub open spec fn digits(v: nat) -> Seq<u8>
    decreases v,
{
    if v == 0 {
        Seq::empty()
    } else {
        digits(v / 10).push((48 + v % 10) as u8)
    }
}

proof fn lemma_digits_decimal(v: nat)
    requires
        v > 0,
    ensures
        digits(v) == decimal(v),
    decreases v,
{
    if v >= 10 {
        lemma_digits_decimal(v / 10);
    } else {
        assert(digits(v / 10) == Seq::<u8>::empty());
        assert(digits(v) =~= decimal(v));
    }
}

proof fn lemma_decimal_len(v: nat)
    requires
        v <= u16::MAX,
    ensures
        1 <= decimal(v).len() <= 5,
{
    reveal_with_fuel(decimal, 5);
}

/// The cursor position report `ESC [ row ; col R`.
pub open spec fn position_report(row: nat, col: nat) -> Seq<u8> {
    seq![0x1Bu8, 0x5Bu8] + decimal(row) + seq![0x3Bu8] + decimal(col) + seq![0x52u8]
}

/// `buf` with `bytes` written at `start`.
pub open spec fn written_at(buf: Seq<u8>, start: int, bytes: Seq<u8>) -> Seq<u8> {
    Seq::new(buf.len(), |i: int| if start <= i < start + bytes.len() { bytes[i - start] } else { buf[i] })
}

/// Writes the decimal digits of `value` into `buf` at `start`; returns the position after them.
fn append_u16(buf: &mut [u8; 64], start: u8, value: u16) -> (end: u8)
    requires
        start + decimal(value as nat).len() <= 64,
    ensures
        end == start + decimal(value as nat).len(),
        final(buf)@ == written_at(old(buf)@, start as int, decimal(value as nat)),
{
    proof { lemma_decimal_len(value as nat); }
    let mut value = value;
    let mut tmp = [0u8; 5];
    let mut count: usize = 0;
    if value == 0 {
        buf[start as usize] = 48;
        assert(decimal(0) == seq![48u8]);
        assert(buf@ =~= written_at(old(buf)@, start as int, decimal(0)));
        return start + 1;
    }
    let ghost v0 = value as nat;
    proof { lemma_digits_decimal(v0); }
    while value > 0
        invariant
            count <= 5,
            digits(v0) == digits(value as nat) + tmp@.take(count as int).reverse(),
            value > 0 ==> digits(value as nat).len() + count <= 5,
            digits(v0).len() <= 5,
            decimal(v0) == digits(v0),
        decreases value,
    {
        let ghost before = tmp@.take(count as int);
        tmp[count] = (value % 10) as u8 + 48;
        assert(tmp@.take(count + 1).reverse() =~= seq![tmp@[count as int]] + before.reverse());
        value = value / 10;
        count += 1;
    }
    assert(digits(0) == Seq::<u8>::empty());
    assert(digits(v0) =~= tmp@.take(count as int).reverse());
    let ghost ds = tmp@.take(count as int).reverse();
    assert(ds.len() == count);
    let mut pos = start as usize;
    let mut i = count;
    while i > 0
        invariant
            i <= count <= 5,
            pos == start + (count - i),
            start + count <= 64,
            ds == tmp@.take(count as int).reverse(),
            forall|k: int| 0 <= k < 64 ==> #[trigger] buf@[k] ==
                if start <= k < pos { ds[k - start] } else { old(buf)@[k] },
        decreases i,
    {
        i -= 1;
        buf[pos] = tmp[i];
        pos += 1;
    }
    assert(buf@ =~= written_at(old(buf)@, start as int, decimal(v0)));
    pos as u8
}

/// The parameters a log entry keeps: the first (up to) four.
pub open spec fn logged_params(p: Parser) -> [u16; 4] {
    let a = spec_array_fill_for_copy_type::<u16, 4>(0);
    let a = if 0 < p.param_count { spec_array_update(a, 0, p.params[0]) } else { a };
    let a = if 1 < p.param_count { spec_array_update(a, 1, p.params[1]) } else { a };
    let a = if 2 < p.param_count { spec_array_update(a, 2, p.params[2]) } else { a };
    if 3 < p.param_count { spec_array_update(a, 3, p.params[3]) } else { a }
}

impl TerminalView {
    /// DSR 6 answers with the 1-based cursor position; other reports are ignored.
    pub open spec fn device_status(self) -> TerminalView {
        if self.parser.param_or(0, 0) == 6 {
            let reply = position_report((self.cursor_row + 1) as nat, (self.cursor_col + 1) as nat);
            TerminalView {
                response_buf: Seq::new(64, |i: int| if i < reply.len() { reply[i] } else { 0u8 }),
                response_len: reply.len() as u8,
                ..self
            }
        } else {
            self
        }
    }

    /// OSC 0 and OSC 2 set the window title (kept up to 256 bytes); other strings are ignored.
    pub open spec fn osc(self) -> TerminalView {
        let p = self.parser;
        if p.osc_len < 2 {
            self
        } else if (p.osc_data[0] == 0x30 || p.osc_data[0] == 0x32) && p.osc_data[1] == 0x3B {
            let n: int = if p.osc_len - 2 < 256 { p.osc_len - 2 } else { 256 };
            TerminalView {
                title_buf: Seq::new(self.title_buf.len(), |i: int| if i < n { p.osc_data[i + 2] } else { self.title_buf[i] }),
                title_len: n as u16,
                title_changed: true,
                ..self
            }
        } else {
            self
        }
    }

    /// Records an unhandled sequence in the ring of the last `DEBUG_LOG_MAX` ones.
    pub open spec fn log_unhandled(self, final_byte: u8, private_marker: u8) -> TerminalView {
        let entry = DebugLogEntry {
            final_byte,
            private_marker,
            param_count: self.parser.param_count,
            _pad: 0,
            params: logged_params(self.parser),
        };
        TerminalView {
            debug_log: self.debug_log.update(self.debug_log_idx as int, entry),
            debug_log_idx: ((self.debug_log_idx + 1) % (DEBUG_LOG_MAX as int)) as u8,
            debug_log_count: if self.debug_log_count == u32::MAX { u32::MAX } else { (self.debug_log_count + 1) as u32 },
            ..self
        }
    }
}

impl Terminal {
    /// Answers a device status report request (DSR 6: cursor position).
    pub(crate) fn handle_device_status(&mut self)
        requires
            old(self).wf(),
        ensures
            final(self).wf(),
            final(self)@ == old(self)@.device_status(),
    {
        let param = self.parser.get_param(0, 0);
        if param == 6 {
            let row = self.cursor_row + 1;
            let col = self.cursor_col + 1;
            let mut buf = [0u8; 64];
            let mut len: u8 = 0;
            buf[len as usize] = 0x1B;
            len += 1;
            buf[len as usize] = 0x5B;
            len += 1;
            proof { lemma_decimal_len(row as nat); }
            len = append_u16(&mut buf, len, row);
            buf[len as usize] = 0x3B;
            len += 1;
            proof { lemma_decimal_len(col as nat); }
            len = append_u16(&mut buf, len, col);
            buf[len as usize] = 0x52;
            len += 1;
            let ghost reply = position_report(row as nat, col as nat);
            assert(reply.len() == len);
            assert(buf@ =~= Seq::new(64, |i: int| if i < reply.len() { reply[i] } else { 0u8 }));
            self.response_buf = buf;
            self.response_len = len;
        }
    }

    /// Takes the title from an OSC 0 / OSC 2 string.
    pub(crate) fn handle_osc(&mut self)
        requires
            old(self).wf(),
        ensures
            final(self).wf(),
            final(self)@ == old(self)@.osc(),
    {
        if self.parser.osc_len < 2 {
            return;
        }
        let len = self.parser.osc_len as usize;
        let first = self.parser.osc_data[0];
        let second = self.parser.osc_data[1];
        if (first == 0x30 || first == 0x32) && second == 0x3B {
            let n = if len - 2 < 256 { len - 2 } else { 256 };
            let mut i: usize = 0;
            while i < n
                invariant
                    self.wf(),
                    i <= n <= 256,
                    n + 2 <= len <= 512,
                    len == self.parser.osc_len,
                    self.parser == old(self).parser,
                    self@ == (TerminalView { title_buf: self@.title_buf, ..old(self)@ }),
                    forall|k: int| 0 <= k < 256 ==> #[trigger] self.title_buf@[k] ==
                        if k < i { self.parser.osc_data[k + 2] } else { old(self).title_buf@[k] },
                decreases n - i,
            {
                self.title_buf[i] = self.parser.osc_data[i + 2];
                i += 1;
            }
            self.title_len = n as u16;
            self.title_changed = true;
            assert(self@ =~= old(self)@.osc());
        }
    }

    /// Keeps a record of a sequence the terminal does not implement.
    pub(crate) fn log_unhandled(&mut self, final_byte: u8, private_marker: u8)
        requires
            old(self).wf(),
        ensures
            final(self).wf(),
            final(self)@ == old(self)@.log_unhandled(final_byte, private_marker),
    {
        let mut entry = DebugLogEntry {
            final_byte,
            private_marker,
            param_count: self.parser.param_count,
            _pad: 0,
            params: [0u16; 4],
        };
        let copy_count = if self.parser.param_count < 4 { self.parser.param_count } else { 4 };
        let mut i: usize = 0;
        while i < copy_count as usize
            invariant
                i <= copy_count <= 4,
                copy_count as int == if self.parser.param_count < 4 { self.parser.param_count as int } else { 4 },
                self.parser.wf(),
                entry.final_byte == final_byte,
                entry.private_marker == private_marker,
                entry.param_count == self.parser.param_count,
                entry._pad == 0,
                forall|k: int| 0 <= k < 4 ==> #[trigger] entry.params@[k] ==
                    if k < i { self.parser.params[k] } else { 0u16 },
            decreases copy_count - i,
        {
            entry.params[i] = self.parser.params[i];
            i += 1;
        }
        assert(entry.params =~= logged_params(self.parser));
        self.debug_log[self.debug_log_idx as usize] = entry;
        self.debug_log_idx = (self.debug_log_idx + 1) % (DEBUG_LOG_MAX as u8);
        self.debug_log_count = self.debug_log_count.saturating_add(1);
        assert(self@ =~= old(self)@.log_unhandled(final_byte, private_marker));
    }
}

/// The host asks for the cursor position with `ESC [ 6 n` and the terminal answers
/// `ESC [ row ; col R` with the 1-based cursor position, changing nothing else that is seen.
pub proof fn lemma_cursor_position_report(t: TerminalView)
    requires
        t.wf(),
        t.parser.state != State::OscString,
    ensures
        ({
            let request = seq![0x1Bu8, 0x5Bu8, 0x36u8, 0x6Eu8];
            let u = written(t, request);
            let reply = position_report((t.cursor_row + 1) as nat, (t.cursor_col + 1) as nat);
            &&& write_ok(t, request)
            &&& u.response_len == reply.len()
            &&& u.response_buf.take(reply.len() as int) == reply
            &&& u.cursor_row == t.cursor_row
            &&& u.cursor_col == t.cursor_col
            &&& u.grid == t.grid
            &&& u.parser.state == State::Ground
        }),
{
    let request = seq![0x1Bu8, 0x5Bu8, 0x36u8, 0x6Eu8];
    let t1 = t.step(0x1B);
    lemma_step_quiet(t, 0x1B);
    let t2 = t1.step(0x5B);
    lemma_step_quiet(t1, 0x5B);
    let t3 = t2.step(0x36);
    lemma_step_quiet(t2, 0x36);
    let p3 = t3.parser;
    assert(push_digit(0, 6) == 6);
    assert(p3.param_count == 1 && p3.params[0] == 6);
    assert(p3.csi_private == 0 && p3.state == State::CsiParam);
    let (p4, a4) = p3.step(0x6E);
    assert(a4 == Action::CsiDispatch);
    assert(p4.execute_byte == 0x6E && p4.csi_private == 0);
    assert(p4.param_or(0, 0) == 6);
    let t4 = t3.step(0x6E);
    lemma_step_csi(t3, 0x6E);
    let s4 = TerminalView { parser: p4, ..t3 };
    assert(s4.csi_dispatch() == s4.device_status()) by {
        reveal(TerminalView::csi_dispatch);
    }
    let reply = position_report((t.cursor_row + 1) as nat, (t.cursor_col + 1) as nat);
    proof_decimal_reply(reply, (t.cursor_row + 1) as nat, (t.cursor_col + 1) as nat);
    assert(t4.response_buf.take(reply.len() as int) =~= reply);
    assert(request.drop_first() =~= seq![0x5Bu8, 0x36u8, 0x6Eu8]);
    assert(request.drop_first().drop_first() =~= seq![0x36u8, 0x6Eu8]);
    assert(request.drop_first().drop_first().drop_first() =~= seq![0x6Eu8]);
    assert(request.drop_first().drop_first().drop_first().drop_first() =~= Seq::<u8>::empty());
    reveal_with_fuel(written, 5);
    reveal_with_fuel(write_ok, 5);
}

/// A byte on which the parser asks for nothing only changes the parser.
proof fn lemma_step_quiet(t: TerminalView, byte: u8)
    requires
        t.parser.step(byte).1 == Action::Nothing,
    ensures
        t.step(byte) == (TerminalView { parser: t.parser.step(byte).0, ..t }),
        t.step_ok(byte),
{
    reveal(TerminalView::step);
}

/// A byte that completes a CSI sequence has it carried out.
proof fn lemma_step_csi(t: TerminalView, byte: u8)
    requires
        t.parser.step(byte).1 == Action::CsiDispatch,
    ensures
        t.step(byte) == (TerminalView { parser: t.parser.step(byte).0, ..t }).csi_dispatch(),
{
    reveal(TerminalView::step);
}

/// A position report of two numbers below 65536 fits the response buffer.
proof fn proof_decimal_reply(reply: Seq<u8>, row: nat, col: nat)
    requires
        row <= u16::MAX,
        col <= u16::MAX,
        reply == position_report(row, col),
    ensures
        reply.len() <= 14,
{
    lemma_decimal_len(row);
    lemma_decimal_len(col);
}

/// OSC 0 and OSC 2 set the title to the text after `0;` / `2;` (its first 256 bytes) and
/// mark it changed; a string shorter than two bytes or of another kind changes nothing.
pub proof fn lemma_osc_title(t: TerminalView)
    requires
        t.title_buf.len() == 256,
        t.parser.osc_len <= crate::parser::MAX_OSC,
    ensures
        ({
            let p = t.parser;
            let u = t.osc();
            let n: int = if p.osc_len - 2 < 256 { p.osc_len - 2 } else { 256 };
            &&& (p.osc_len >= 2 && (p.osc_data[0] == 0x30 || p.osc_data[0] == 0x32) && p.osc_data[1] == 0x3B) ==> {
                &&& u.title_len == n
                &&& u.title_changed
                &&& forall|i: int| 0 <= i < n ==> #[trigger] u.title_buf[i] == p.osc_data[i + 2]
            }
            &&& !(p.osc_len >= 2 && (p.osc_data[0] == 0x30 || p.osc_data[0] == 0x32) && p.osc_data[1] == 0x3B)
                ==> u == t
        }),
{
}

} // verus!
