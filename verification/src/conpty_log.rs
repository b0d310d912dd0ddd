use vstd::prelude::*;
use vstd::utf8::{decode_utf8, valid_utf8};

use crate::conpty::{
    csi_params, csi_params_spec, display_width, display_width_spec, encode_utf8, is_control, utf8_of,
    ConptyOutputParseState,
};

verus! {

/// One character cell of a line: the character and the columns it takes.
#[derive(Debug, Clone, Copy, PartialEq, Eq, Structural)]
pub struct ConptyLogCell {
    pub ch: char,
    pub width: usize,
}

/// The cells of a line as plain values.
pub open spec fn cells_view(line: Seq<ConptyLogCell>) -> Seq<(char, nat)> {
    line.map_values(|c: ConptyLogCell| (c.ch, c.width as nat))
}

/// The sanitizer's state as plain values.
pub struct SanitizerView {
    pub state: ConptyOutputParseState,
    pub body: Seq<u8>,
    pub pending: Seq<u8>,
    pub line: Seq<(char, nat)>,
    pub col: nat,
    pub row: nat,
}

/// `x` saturated at `usize::MAX`.
pub open spec fn sat(x: nat) -> nat {
    if x > usize::MAX {
        usize::MAX as nat
    } else {
        x
    }
}

/// The columns a line takes.
pub open spec fn line_width(line: Seq<(char, nat)>) -> nat
    decreases line.len(),
{
    if line.len() == 0 {
        0
    } else {
        line_width(line.drop_last()) + line.last().1
    }
}

/// The index of the first cell at or past column `col`, scanning from cell `i` whose start column
/// is `w`.
pub open spec fn index_from(line: Seq<(char, nat)>, col: nat, i: nat, w: nat) -> nat
    decreases line.len() - i,
{
    if i >= line.len() {
        line.len()
    } else if w >= col || w + line[i as int].1 > col {
        i
    } else {
        index_from(line, col, i + 1, w + line[i as int].1)
    }
}

/// The index of the cell that column `col` falls in (or the line's length).
pub open spec fn index_for_col(line: Seq<(char, nat)>, col: nat) -> nat {
    index_from(line, col, 0, 0)
}

proof fn lemma_index_from_bounds(line: Seq<(char, nat)>, col: nat, i: nat, w: nat)
    ensures
        i <= line.len() ==> i <= index_from(line, col, i, w) <= line.len(),
    decreases line.len() - i,
{
    if i < line.len() && !(w >= col || w + line[i as int].1 > col) {
        lemma_index_from_bounds(line, col, i + 1, w + line[i as int].1);
    }
}

/// The line padded with spaces up to column `col`.
pub open spec fn pad_spec(line: Seq<(char, nat)>, col: nat) -> Seq<(char, nat)> {
    if col <= line_width(line) {
        line
    } else {
        line + Seq::new((col - line_width(line)) as nat, |i: int| (' ', 1nat))
    }
}

/// A character written at the cursor: the line is padded to the cursor, cut there, and the
/// character appended; control characters write nothing.
pub open spec fn write_char_spec(v: SanitizerView, ch: char) -> SanitizerView {
    let w = display_width_spec(ch);
    if w == 0 {
        v
    } else {
        let padded = pad_spec(v.line, v.col);
        let cut = padded.take(index_for_col(padded, v.col) as int);
        SanitizerView { line: cut.push((ch, w)), col: sat(v.col + w), ..v }
    }
}

/// Characters written in order.
pub open spec fn write_chars_spec(v: SanitizerView, chars: Seq<char>) -> SanitizerView
    decreases chars.len(),
{
    if chars.len() == 0 {
        v
    } else {
        write_char_spec(write_chars_spec(v, chars.drop_last()), chars.last())
    }
}

/// `n` spaces written.
pub open spec fn write_spaces_spec(v: SanitizerView, n: nat) -> SanitizerView
    decreases n,
{
    if n == 0 {
        v
    } else {
        write_char_spec(write_spaces_spec(v, (n - 1) as nat), ' ')
    }
}

/// What `String::from_utf8_lossy` gives for `bytes`, as characters.
pub uninterp spec fn utf8_lossy(bytes: Seq<u8>) -> Seq<char>;

/// The UTF-8 encoding of a sequence of characters.
pub open spec fn utf8_concat(s: Seq<char>) -> Seq<u8>
    decreases s.len(),
{
    if s.len() == 0 {
        seq![]
    } else {
        utf8_concat(s.drop_last()) + utf8_of(s.last())
    }
}

/// The text that bytes stand for: valid UTF-8 decoded, other bytes as `String::from_utf8_lossy`
/// reads them.
pub open spec fn lossy_text(bytes: Seq<u8>) -> Seq<char> {
    if valid_utf8(bytes) {
        decode_utf8(bytes)
    } else {
        utf8_lossy(bytes)
    }
}

/// Decodes bytes as UTF-8 with `String::from_utf8_lossy`, invalid sequences becoming U+FFFD.
/// Valid UTF-8 is decoded as it stands.
#[verifier::external_body]
pub fn decode_utf8_lossy(bytes: &Vec<u8>) -> (r: Vec<char>)
    ensures
        r@ == utf8_lossy(bytes@),
        valid_utf8(bytes@) ==> r@ == decode_utf8(bytes@),
{
    String::from_utf8_lossy(bytes.as_slice()).chars().collect()
}

/// The pending text decoded and written.
pub open spec fn flush_pending_spec(v: SanitizerView) -> SanitizerView {
    if v.pending.len() == 0 {
        v
    } else {
        SanitizerView { pending: seq![], ..write_chars_spec(v, lossy_text(v.pending)) }
    }
}

/// The bytes of a line's characters.
pub open spec fn line_bytes(line: Seq<(char, nat)>) -> Seq<u8>
    decreases line.len(),
{
    if line.len() == 0 {
        seq![]
    } else {
        line_bytes(line.drop_last()) + utf8_of(line.last().0)
    }
}

/// The line written out with a newline; the next line starts at column 0 of the next row.
pub open spec fn flush_line_spec(v: SanitizerView) -> (SanitizerView, Seq<u8>) {
    (
        SanitizerView { line: seq![], col: 0, row: sat(v.row + 1), ..v },
        line_bytes(v.line).push(0x0au8),
    )
}

/// The first parameter, or `d` when there is none.
pub open spec fn param_or(params: Seq<nat>, i: int, d: nat) -> nat {
    if i < params.len() {
        params[i]
    } else {
        d
    }
}

/// A control sequence applied: cursor moves (`C`, `D`, `G`, `H`/`f`) and line erasure (`K`);
/// moving to a later row writes out the current line first.
pub open spec fn apply_csi_spec(v: SanitizerView, final_byte: u8) -> (SanitizerView, Seq<u8>) {
    let params = csi_params_spec(v.body);
    if final_byte == 0x43 {
        let count = param_or(params, 0, 1);
        let step: nat = if count < 1 {
            1
        } else {
            count
        };
        (SanitizerView { col: sat(v.col + step), ..v }, seq![])
    } else if final_byte == 0x44 {
        let count = param_or(params, 0, 1);
        let step: nat = if count < 1 {
            1
        } else {
            count
        };
        (SanitizerView { col: if v.col >= step {
            (v.col - step) as nat
        } else {
            0
        }, ..v }, seq![])
    } else if final_byte == 0x47 {
        let c = param_or(params, 0, 1);
        (SanitizerView { col: if c >= 1 {
            (c - 1) as nat
        } else {
            0
        }, ..v }, seq![])
    } else if final_byte == 0x48 || final_byte == 0x66 {
        let r0 = param_or(params, 0, 1);
        let c0 = param_or(params, 1, 1);
        let row: nat = if r0 < 1 {
            1
        } else {
            r0
        };
        let col: nat = if c0 < 1 {
            1
        } else {
            c0
        };
        if row > v.row && v.line.len() > 0 {
            let flushed = flush_line_spec(v);
            (SanitizerView { row, col: (col - 1) as nat, ..flushed.0 }, flushed.1)
        } else {
            (SanitizerView { row, col: (col - 1) as nat, ..v }, seq![])
        }
    } else if final_byte == 0x4b {
        let mode = param_or(params, 0, 0);
        if mode == 0 {
            (SanitizerView { line: v.line.take(index_for_col(v.line, v.col) as int), ..v }, seq![])
        } else if mode == 1 {
            (SanitizerView { line: v.line.skip(index_for_col(v.line, v.col) as int), col: 0, ..v }, seq![])
        } else if mode == 2 {
            (SanitizerView { line: seq![], col: 0, ..v }, seq![])
        } else {
            (v, seq![])
        }
    } else {
        (v, seq![])
    }
}

/// The column of the next tab stop after `col` (every 8 columns); a stop past `usize::MAX`
/// wraps to 0, so no spaces are written.
pub open spec fn next_tab(col: nat) -> nat {
    if col / 8 < usize::MAX as nat / 8 {
        (col / 8 + 1) * 8
    } else {
        0
    }
}

/// One byte of a session log read by the sanitizer: the new state and the bytes written out.
pub open spec fn sanitize_step(v: SanitizerView, b: u8) -> (SanitizerView, Seq<u8>) {
    match v.state {
        ConptyOutputParseState::Ground => if b == 0x1b {
            (SanitizerView { state: ConptyOutputParseState::Escape, ..flush_pending_spec(v) }, seq![])
        } else if b == 0x9b {
            (SanitizerView { state: ConptyOutputParseState::Csi, body: seq![], ..flush_pending_spec(v) }, seq![])
        } else if b == 0x9d {
            (SanitizerView { state: ConptyOutputParseState::Osc, ..flush_pending_spec(v) }, seq![])
        } else if b == 0x0a {
            flush_line_spec(flush_pending_spec(v))
        } else if b == 0x0d {
            (SanitizerView { col: 0, ..flush_pending_spec(v) }, seq![])
        } else if b == 0x09 {
            let f = flush_pending_spec(v);
            let n: nat = if f.col < next_tab(f.col) {
                (next_tab(f.col) - f.col) as nat
            } else {
                0
            };
            (write_spaces_spec(f, n), seq![])
        } else if b <= 0x08 || (0x0b <= b <= 0x1f) || b == 0x7f {
            (flush_pending_spec(v), seq![])
        } else {
            (SanitizerView { pending: v.pending.push(b), ..v }, seq![])
        },
        ConptyOutputParseState::Escape => if b == 0x5b {
            (SanitizerView { state: ConptyOutputParseState::Csi, body: seq![], ..v }, seq![])
        } else if b == 0x5d {
            (SanitizerView { state: ConptyOutputParseState::Osc, ..v }, seq![])
        } else if b == 0x1b {
            (v, seq![])
        } else {
            (SanitizerView { state: ConptyOutputParseState::Ground, ..v }, seq![])
        },
        ConptyOutputParseState::Csi => if 0x40 <= b <= 0x7e {
            let applied = apply_csi_spec(v, b);
            (SanitizerView { state: ConptyOutputParseState::Ground, body: seq![], ..applied.0 }, applied.1)
        } else if v.body.len() < 64 {
            (SanitizerView { body: v.body.push(b), ..v }, seq![])
        } else {
            (v, seq![])
        },
        ConptyOutputParseState::Osc => if b == 0x07 {
            (SanitizerView { state: ConptyOutputParseState::Ground, ..v }, seq![])
        } else if b == 0x1b {
            (SanitizerView { state: ConptyOutputParseState::OscEscape, ..v }, seq![])
        } else {
            (v, seq![])
        },
        ConptyOutputParseState::OscEscape => if b == 0x5c {
            (SanitizerView { state: ConptyOutputParseState::Ground, ..v }, seq![])
        } else if b == 0x1b {
            (v, seq![])
        } else {
            (SanitizerView { state: ConptyOutputParseState::Osc, ..v }, seq![])
        },
    }
}

/// Bytes read in order by the sanitizer: the state reached and everything written out.
pub open spec fn sanitize_run(v: SanitizerView, bytes: Seq<u8>) -> (SanitizerView, Seq<u8>)
    decreases bytes.len(),
{
    if bytes.len() == 0 {
        (v, seq![])
    } else {
        let prev = sanitize_run(v, bytes.drop_last());
        let step = sanitize_step(prev.0, bytes.last());
        (step.0, prev.1 + step.1)
    }
}

/// No cell of the line holds a control character.
pub open spec fn printable(line: Seq<(char, nat)>) -> bool {
    forall|k: int| 0 <= k < line.len() ==> !is_control(#[trigger] line[k].0)
}

/// Text of whole lines: empty or ending in a newline, and no control character but newlines.
pub open spec fn clean_lines(t: Seq<char>) -> bool {
    &&& t.len() == 0 || t.last() == '\n'
    &&& forall|k: int| 0 <= k < t.len() ==> t[k] == '\n' || !is_control(#[trigger] t[k])
}

/// Bytes that are the UTF-8 encoding of whole lines of text without control characters.
pub open spec fn whole_lines(out: Seq<u8>) -> bool {
    exists|t: Seq<char>| #[trigger] utf8_concat(t) == out && clean_lines(t)
}

/// The characters of a line.
pub open spec fn line_chars(line: Seq<(char, nat)>) -> Seq<char> {
    line.map_values(|c: (char, nat)| c.0)
}

proof fn lemma_utf8_concat_add(a: Seq<char>, b: Seq<char>)
    ensures
        utf8_concat(a + b) == utf8_concat(a) + utf8_concat(b),
    decreases b.len(),
{
    if b.len() == 0 {
        assert(a + b =~= a);
        assert(utf8_concat(a) + utf8_concat(b) =~= utf8_concat(a));
    } else {
        assert((a + b).drop_last() =~= a + b.drop_last());
        lemma_utf8_concat_add(a, b.drop_last());
        assert(utf8_concat(a) + utf8_concat(b.drop_last()) + utf8_of(b.last()) =~= utf8_concat(a) + (
        utf8_concat(b.drop_last()) + utf8_of(b.last())));
    }
}

proof fn lemma_line_bytes_chars(line: Seq<(char, nat)>)
    ensures
        line_bytes(line) == utf8_concat(line_chars(line)),
    decreases line.len(),
{
    if line.len() > 0 {
        lemma_line_bytes_chars(line.drop_last());
        assert(line_chars(line).drop_last() =~= line_chars(line.drop_last()));
    }
}

/// A written-out line is whole: its characters and a newline.
proof fn lemma_flushed_line_whole(line: Seq<(char, nat)>)
    requires
        printable(line),
    ensures
        utf8_concat(line_chars(line).push('\n')) == line_bytes(line).push(0x0au8),
        clean_lines(line_chars(line).push('\n')),
{
    lemma_line_bytes_chars(line);
    let t = line_chars(line).push('\n');
    assert(t.drop_last() =~= line_chars(line));
    assert(utf8_of('\n') =~= seq![0x0au8]);
    assert forall|k: int| 0 <= k < t.len() implies t[k] == '\n' || !is_control(#[trigger] t[k]) by {
        if k < line.len() {
            assert(t[k] == line[k].0);
        }
    }
}

proof fn lemma_write_char_printable(v: SanitizerView, ch: char)
    requires
        printable(v.line),
    ensures
        printable(write_char_spec(v, ch).line),
{
    if display_width_spec(ch) != 0 {
        let padded = pad_spec(v.line, v.col);
        assert(printable(padded)) by {
            if v.col > line_width(v.line) {
                let extra = Seq::new((v.col - line_width(v.line)) as nat, |i: int| (' ', 1nat));
                assert forall|k: int| 0 <= k < padded.len() implies !is_control(#[trigger] padded[k].0) by {
                    if k >= v.line.len() {
                        assert(padded[k] == extra[k - v.line.len()]);
                    }
                }
            }
        }
        let cut = padded.take(index_for_col(padded, v.col) as int);
        lemma_index_from_bounds(padded, v.col, 0, 0);
        assert forall|k: int| 0 <= k < cut.push((ch, display_width_spec(ch))).len() implies !is_control(
            #[trigger] cut.push((ch, display_width_spec(ch)))[k].0,
        ) by {
            if k < cut.len() {
                assert(cut[k] == padded[k]);
            }
        }
    }
}

proof fn lemma_write_chars_printable(v: SanitizerView, chars: Seq<char>)
    requires
        printable(v.line),
    ensures
        printable(write_chars_spec(v, chars).line),
    decreases chars.len(),
{
    if chars.len() > 0 {
        lemma_write_chars_printable(v, chars.drop_last());
        lemma_write_char_printable(write_chars_spec(v, chars.drop_last()), chars.last());
    }
}

proof fn lemma_write_spaces_printable(v: SanitizerView, n: nat)
    requires
        printable(v.line),
    ensures
        printable(write_spaces_spec(v, n).line),
    decreases n,
{
    if n > 0 {
        lemma_write_spaces_printable(v, (n - 1) as nat);
        lemma_write_char_printable(write_spaces_spec(v, (n - 1) as nat), ' ');
    }
}

proof fn lemma_flush_pending_printable(v: SanitizerView)
    requires
        printable(v.line),
    ensures
        printable(flush_pending_spec(v).line),
{
    if v.pending.len() > 0 {
        lemma_write_chars_printable(v, lossy_text(v.pending));
    }
}

/// One byte keeps the line printable and writes out nothing or one whole line.
proof fn lemma_step_whole_lines(v: SanitizerView, b: u8)
    requires
        printable(v.line),
    ensures
        printable(sanitize_step(v, b).0.line),
        sanitize_step(v, b).1.len() == 0 || exists|l: Seq<(char, nat)>|
            printable(l) && sanitize_step(v, b).1 == #[trigger] line_bytes(l).push(0x0au8),
{
    lemma_flush_pending_printable(v);
    let f = flush_pending_spec(v);
    match v.state {
        ConptyOutputParseState::Ground => {
            if b == 0x0a {
                assert(sanitize_step(v, b).1 == line_bytes(f.line).push(0x0au8));
            } else if b == 0x09 {
                let n: nat = if f.col < next_tab(f.col) {
                    (next_tab(f.col) - f.col) as nat
                } else {
                    0
                };
                lemma_write_spaces_printable(f, n);
            }
        },
        ConptyOutputParseState::Csi => {
            if 0x40 <= b <= 0x7e {
                let params = csi_params_spec(v.body);
                if b == 0x48 || b == 0x66 {
                    let r0 = param_or(params, 0, 1);
                    let row: nat = if r0 < 1 {
                        1
                    } else {
                        r0
                    };
                    if row > v.row && v.line.len() > 0 {
                        assert(sanitize_step(v, b).1 == line_bytes(v.line).push(0x0au8));
                    }
                } else if b == 0x4b {
                    let i = index_for_col(v.line, v.col);
                    lemma_index_from_bounds(v.line, v.col, 0, 0);
                    assert forall|k: int| 0 <= k < v.line.take(i as int).len() implies !is_control(
                        #[trigger] v.line.take(i as int)[k].0,
                    ) by {
                        assert(v.line.take(i as int)[k] == v.line[k]);
                    }
                    assert forall|k: int| 0 <= k < v.line.skip(i as int).len() implies !is_control(
                        #[trigger] v.line.skip(i as int)[k].0,
                    ) by {
                        assert(v.line.skip(i as int)[k] == v.line[k + i]);
                    }
                }
            }
        },
        _ => {},
    }
}

/// The bytes read in order keep the line printable and write out whole lines.
proof fn lemma_run_whole_lines(v: SanitizerView, bytes: Seq<u8>)
    requires
        printable(v.line),
    ensures
        printable(sanitize_run(v, bytes).0.line),
        whole_lines(sanitize_run(v, bytes).1),
    decreases bytes.len(),
{
    if bytes.len() == 0 {
        assert(utf8_concat(Seq::<char>::empty()) == Seq::<u8>::empty());
        assert(clean_lines(Seq::<char>::empty()));
        assert(sanitize_run(v, bytes).1 =~= Seq::<u8>::empty());
    } else {
        lemma_run_whole_lines(v, bytes.drop_last());
        let prev = sanitize_run(v, bytes.drop_last());
        lemma_step_whole_lines(prev.0, bytes.last());
        let step = sanitize_step(prev.0, bytes.last());
        let t1 = choose|t: Seq<char>| #[trigger] utf8_concat(t) == prev.1 && clean_lines(t);
        if step.1.len() == 0 {
            assert(prev.1 + step.1 =~= prev.1);
        } else {
            let l = choose|l: Seq<(char, nat)>| printable(l) && step.1 == #[trigger] line_bytes(l).push(0x0au8);
            lemma_flushed_line_whole(l);
            let t2 = line_chars(l).push('\n');
            lemma_utf8_concat_add(t1, t2);
            let t = t1 + t2;
            assert(t.last() == '\n');
            assert forall|k: int| 0 <= k < t.len() implies t[k] == '\n' || !is_control(#[trigger] t[k]) by {
                if k < t1.len() {
                    assert(t[k] == t1[k]);
                } else {
                    assert(t[k] == t2[k - t1.len()]);
                }
            }
            assert(utf8_concat(t) == prev.1 + step.1);
        }
    }
}

/// Turns the raw bytes a console session recorded into plain text lines: escape sequences are
/// interpreted for cursor moves and erasure, or dropped.
pub struct ConptyLogSanitizer {
    pub state: ConptyOutputParseState,
    pub csi_body: Vec<u8>,
    pub pending_text: Vec<u8>,
    pub line: Vec<ConptyLogCell>,
    pub cursor_col: usize,
    pub row: usize,
}

impl ConptyLogSanitizer {
    /// The sanitizer's state as plain values.
    pub open spec fn view_of(&self) -> SanitizerView {
        SanitizerView {
            state: self.state,
            body: self.csi_body@,
            pending: self.pending_text@,
            line: cells_view(self.line@),
            col: self.cursor_col as nat,
            row: self.row as nat,
        }
    }

    /// Whether the kept parameter bytes stay within their limit and every cell takes one or two
    /// columns.
    pub open spec fn cells_ok(&self) -> bool {
        &&& self.csi_body@.len() <= 64
        &&& forall|k: int| 0 <= k < self.line@.len() ==> 1 <= #[trigger] self.line@[k].width <= 2
    }

    /// A sanitizer state that reading can reach: its cells are well formed and the unfinished
    /// line holds no control character.
    pub open spec fn wf(&self) -> bool {
        &&& self.cells_ok()
        &&& printable(self.view_of().line)
    }

    /// A sanitizer at the start of a log whose first line is on row `row`.
    pub fn with_row(row: usize) -> (r: ConptyLogSanitizer)
        ensures
            r.wf(),
            r.view_of() == (SanitizerView {
                state: ConptyOutputParseState::Ground,
                body: seq![],
                pending: seq![],
                line: seq![],
                col: 0,
                row: row as nat,
            }),
    {
        let r = ConptyLogSanitizer {
            state: ConptyOutputParseState::Ground,
            csi_body: Vec::new(),
            pending_text: Vec::new(),
            line: Vec::new(),
            cursor_col: 0,
            row,
        };
        assert(cells_view(r.line@) =~= Seq::<(char, nat)>::empty());
        r
    }

    /// A sanitizer at the start of a log (row 1).
    pub fn new() -> (r: ConptyLogSanitizer)
        ensures
            r.wf(),
            r.view_of() == (SanitizerView {
                state: ConptyOutputParseState::Ground,
                body: seq![],
                pending: seq![],
                line: seq![],
                col: 0,
                row: 1,
            }),
    {
        Self::with_row(1)
    }

    fn line_width_exec(&self) -> (r: u128)
        requires
            self.cells_ok(),
        ensures
            r == line_width(cells_view(self.line@)),
            r <= 2 * self.line@.len(),
    {
        let mut w: u128 = 0;
        let mut i: usize = 0;
        while i < self.line.len()
            invariant
                i <= self.line.len(),
                self.cells_ok(),
                w == line_width(cells_view(self.line@).take(i as int)),
                w <= 2 * i,
            decreases self.line.len() - i,
        {
            assert(cells_view(self.line@).take(i + 1).drop_last() =~= cells_view(self.line@).take(i as int));
            assert(1 <= self.line@[i as int].width <= 2);
            w = w + self.line[i].width as u128;
            i = i + 1;
        }
        assert(cells_view(self.line@).take(self.line.len() as int) =~= cells_view(self.line@));
        w
    }

    fn index_for_col_exec(&self, col: usize) -> (r: usize)
        requires
            self.cells_ok(),
        ensures
            r as nat == index_for_col(cells_view(self.line@), col as nat),
            r <= self.line@.len(),
    {
        let ghost l = cells_view(self.line@);
        let mut w: u128 = 0;
        let mut i: usize = 0;
        while i < self.line.len()
            invariant
                i <= self.line.len(),
                self.cells_ok(),
                l == cells_view(self.line@),
                w <= 2 * i,
                index_for_col(l, col as nat) == index_from(l, col as nat, i as nat, w as nat),
            decreases self.line.len() - i,
        {
            let cw = self.line[i].width as u128;
            assert(l[i as int].1 == cw);
            if w >= col as u128 || w + cw > col as u128 {
                return i;
            }
            w = w + cw;
            i = i + 1;
        }
        i
    }

    fn pad_to_cursor(&mut self)
        requires
            old(self).cells_ok(),
        ensures
            final(self).cells_ok(),
            final(self).view_of() == (SanitizerView {
                line: pad_spec(old(self).view_of().line, old(self).cursor_col as nat),
                ..old(self).view_of()
            }),
    {
        let current = self.line_width_exec();
        if (self.cursor_col as u128) <= current {
            return;
        }
        let ghost start = cells_view(self.line@);
        let n: u128 = self.cursor_col as u128 - current;
        let mut k: u128 = 0;
        while k < n
            invariant
                k <= n,
                n == self.cursor_col - line_width(start),
                self.cells_ok(),
                self.cursor_col == old(self).cursor_col,
                self.row == old(self).row,
                self.state == old(self).state,
                self.csi_body@ == old(self).csi_body@,
                self.pending_text@ == old(self).pending_text@,
                start == cells_view(old(self).line@),
                cells_view(self.line@) == start + Seq::new(k as nat, |i: int| (' ', 1nat)),
            decreases n - k,
        {
            let ghost before = self.line@;
            self.line.push(ConptyLogCell { ch: ' ', width: 1 });
            assert(cells_view(self.line@) =~= cells_view(before).push((' ', 1nat)));
            assert(Seq::new((k + 1) as nat, |i: int| (' ', 1nat)) =~= Seq::new(k as nat, |i: int| (' ', 1nat)).push((' ', 1nat)));
            k = k + 1;
            assert(cells_view(self.line@) =~= start + Seq::new(k as nat, |i: int| (' ', 1nat)));
        }
    }

    fn truncate_line_to_cursor(&mut self)
        requires
            old(self).cells_ok(),
        ensures
            final(self).cells_ok(),
            final(self).view_of() == (SanitizerView {
                line: old(self).view_of().line.take(
                    index_for_col(old(self).view_of().line, old(self).cursor_col as nat) as int,
                ),
                ..old(self).view_of()
            }),
    {
        let keep = self.index_for_col_exec(self.cursor_col);
        let ghost before = self.line@;
        self.line.truncate(keep);
        assert(cells_view(self.line@) =~= cells_view(before).take(keep as int));
    }

    fn write_char(&mut self, ch: char)
        requires
            old(self).cells_ok(),
        ensures
            final(self).cells_ok(),
            final(self).view_of() == write_char_spec(old(self).view_of(), ch),
    {
        let width = display_width(ch);
        if width == 0 {
            return;
        }
        self.pad_to_cursor();
        self.truncate_line_to_cursor();
        let ghost before = self.line@;
        self.line.push(ConptyLogCell { ch, width });
        assert(cells_view(self.line@) =~= cells_view(before).push((ch, width as nat)));
        self.cursor_col = self.cursor_col.saturating_add(width);
    }

    fn flush_pending_text(&mut self)
        requires
            old(self).cells_ok(),
        ensures
            final(self).cells_ok(),
            final(self).view_of() == flush_pending_spec(old(self).view_of()),
    {
        if self.pending_text.len() == 0 {
            return;
        }
        let chars = decode_utf8_lossy(&self.pending_text);
        self.pending_text = Vec::new();
        let ghost start = SanitizerView { pending: seq![], ..old(self).view_of() };
        let mut i: usize = 0;
        assert(chars@.take(0) =~= Seq::<char>::empty());
        while i < chars.len()
            invariant
                i <= chars.len(),
                self.cells_ok(),
                chars@ == lossy_text(old(self).pending_text@),
                self.view_of() == write_chars_spec(start, chars@.take(i as int)),
            decreases chars.len() - i,
        {
            assert(chars@.take(i + 1).drop_last() =~= chars@.take(i as int));
            self.write_char(chars[i]);
            i = i + 1;
        }
        assert(chars@.take(chars.len() as int) =~= chars@);
        proof {
            lemma_write_chars_pending(old(self).view_of(), chars@);
        }
    }

    fn flush_line(&mut self, out: &mut Vec<u8>)
        requires
            old(self).cells_ok(),
        ensures
            final(self).cells_ok(),
            final(self).view_of() == flush_line_spec(old(self).view_of()).0,
            final(out)@ == old(out)@ + flush_line_spec(old(self).view_of()).1,
    {
        let ghost l = cells_view(self.line@);
        let ghost out0 = out@;
        let mut i: usize = 0;
        while i < self.line.len()
            invariant
                i <= self.line.len(),
                l == cells_view(self.line@),
                out@ == out0 + line_bytes(l.take(i as int)),
            decreases self.line.len() - i,
        {
            let bytes = encode_utf8(self.line[i].ch);
            let mut j: usize = 0;
            let ghost mid = out@;
            while j < bytes.len()
                invariant
                    j <= bytes.len(),
                    out@ == mid + bytes@.take(j as int),
                decreases bytes.len() - j,
            {
                out.push(bytes[j]);
                j = j + 1;
                assert(out@ =~= mid + bytes@.take(j as int));
            }
            assert(bytes@.take(bytes.len() as int) =~= bytes@);
            assert(l.take(i + 1).drop_last() =~= l.take(i as int));
            assert(out@ =~= out0 + line_bytes(l.take(i + 1)));
            i = i + 1;
        }
        assert(l.take(self.line.len() as int) =~= l);
        out.push(0x0a);
        self.line = Vec::new();
        self.cursor_col = 0;
        self.row = self.row.saturating_add(1);
        assert(cells_view(self.line@) =~= Seq::<(char, nat)>::empty());
    }
}

impl ConptyLogSanitizer {
    fn apply_csi(&mut self, final_byte: u8, out: &mut Vec<u8>)
        requires
            old(self).cells_ok(),
        ensures
            final(self).cells_ok(),
            final(self).view_of() == apply_csi_spec(old(self).view_of(), final_byte).0,
            final(out)@ == old(out)@ + apply_csi_spec(old(self).view_of(), final_byte).1,
    {
        let params = csi_params(&self.csi_body);
        let ghost ps = csi_params_spec(self.csi_body@);
        assert(ps.len() == params@.len());
        if params.len() > 0 {
            assert(ps[0] == params@[0] as nat);
        }
        if params.len() > 1 {
            assert(ps[1] == params@[1] as nat);
        }
        let first_or_one: usize = if params.len() > 0 {
            params[0]
        } else {
            1
        };
        if final_byte == 0x43 {
            let step: usize = if first_or_one < 1 {
                1
            } else {
                first_or_one
            };
            self.cursor_col = self.cursor_col.saturating_add(step);
            assert(out@ =~= old(out)@ + Seq::<u8>::empty());
        } else if final_byte == 0x44 {
            let step: usize = if first_or_one < 1 {
                1
            } else {
                first_or_one
            };
            self.cursor_col = self.cursor_col.saturating_sub(step);
            assert(out@ =~= old(out)@ + Seq::<u8>::empty());
        } else if final_byte == 0x47 {
            self.cursor_col = first_or_one.saturating_sub(1);
            assert(out@ =~= old(out)@ + Seq::<u8>::empty());
        } else if final_byte == 0x48 || final_byte == 0x66 {
            let second_or_one: usize = if params.len() > 1 {
                params[1]
            } else {
                1
            };
            let row: usize = if first_or_one < 1 {
                1
            } else {
                first_or_one
            };
            let col: usize = if second_or_one < 1 {
                1
            } else {
                second_or_one
            };
            if row > self.row && self.line.len() > 0 {
                self.flush_line(out);
            } else {
                assert(out@ =~= old(out)@ + Seq::<u8>::empty());
            }
            self.row = row;
            self.cursor_col = col - 1;
        } else if final_byte == 0x4b {
            let mode: usize = if params.len() > 0 {
                params[0]
            } else {
                0
            };
            if mode == 0 {
                self.truncate_line_to_cursor();
            } else if mode == 1 {
                let start = self.index_for_col_exec(self.cursor_col);
                let mut rest: Vec<ConptyLogCell> = Vec::new();
                let mut k: usize = start;
                while k < self.line.len()
                    invariant
                        start <= k <= self.line.len(),
                        self.cells_ok(),
                        forall|j: int| 0 <= j < rest@.len() ==> 1 <= #[trigger] rest@[j].width <= 2,
                        cells_view(rest@) == cells_view(self.line@).subrange(start as int, k as int),
                    decreases self.line.len() - k,
                {
                    let ghost before = rest@;
                    rest.push(self.line[k]);
                    assert(cells_view(rest@) =~= cells_view(before).push((self.line@[k as int].ch, self.line@[k as int].width as nat)));
                    k = k + 1;
                    assert(cells_view(rest@) =~= cells_view(self.line@).subrange(start as int, k as int));
                }
                assert(cells_view(self.line@).subrange(start as int, self.line@.len() as int)
                    =~= cells_view(self.line@).skip(start as int));
                self.line = rest;
                self.cursor_col = 0;
            } else if mode == 2 {
                self.line = Vec::new();
                self.cursor_col = 0;
                assert(cells_view(self.line@) =~= Seq::<(char, nat)>::empty());
            }
            assert(out@ =~= old(out)@ + Seq::<u8>::empty());
        } else {
            assert(out@ =~= old(out)@ + Seq::<u8>::empty());
        }
    }

    fn write_tab(&mut self)
        requires
            old(self).cells_ok(),
        ensures
            final(self).cells_ok(),
            final(self).view_of() == write_spaces_spec(
                old(self).view_of(),
                if old(self).cursor_col < next_tab(old(self).cursor_col as nat) {
                    (next_tab(old(self).cursor_col as nat) - old(self).cursor_col) as nat
                } else {
                    0
                },
            ),
    {
        let q = self.cursor_col / 8;
        let next: usize = if q < usize::MAX / 8 {
            (q + 1) * 8
        } else {
            0
        };
        assert(next == next_tab(self.cursor_col as nat));
        let ghost start = self.view_of();
        let ghost col0 = self.cursor_col;
        while self.cursor_col < next
            invariant
                self.cells_ok(),
                col0 <= self.cursor_col,
                col0 < next ==> self.cursor_col <= next,
                col0 >= next ==> self.cursor_col == col0,
                self.view_of() == write_spaces_spec(start, (self.cursor_col - col0) as nat),
            decreases next - self.cursor_col,
        {
            let ghost n = (self.cursor_col - col0) as nat;
            self.write_char(' ');
            assert(((self.cursor_col - col0) as nat) == n + 1);
        }
    }

    /// Reads a chunk of a session log and gives the text lines it completes.
    pub fn push(&mut self, bytes: &[u8]) -> (r: Vec<u8>)
        requires
            old(self).wf(),
        ensures
            final(self).wf(),
            final(self).view_of() == flush_pending_spec(sanitize_run(old(self).view_of(), bytes@).0),
            r@ == sanitize_run(old(self).view_of(), bytes@).1,
            whole_lines(r@),
    {
        let ghost start = self.view_of();
        let mut out: Vec<u8> = Vec::new();
        let mut i: usize = 0;
        while i < bytes.len()
            invariant
                i <= bytes.len(),
                self.cells_ok(),
                (self.view_of(), out@) == sanitize_run(start, bytes@.take(i as int)),
            decreases bytes.len() - i,
        {
            let b = bytes[i];
            assert(bytes@.take(i + 1).drop_last() =~= bytes@.take(i as int));
            assert(bytes@.take(i + 1).last() == b);
            let ghost out_before = out@;
            match self.state {
                ConptyOutputParseState::Ground => {
                    if b == 0x1b {
                        self.flush_pending_text();
                        self.state = ConptyOutputParseState::Escape;
                    } else if b == 0x9b {
                        self.flush_pending_text();
                        self.csi_body = Vec::new();
                        self.state = ConptyOutputParseState::Csi;
                    } else if b == 0x9d {
                        self.flush_pending_text();
                        self.state = ConptyOutputParseState::Osc;
                    } else if b == 0x0a {
                        self.flush_pending_text();
                        self.flush_line(&mut out);
                    } else if b == 0x0d {
                        self.flush_pending_text();
                        self.cursor_col = 0;
                    } else if b == 0x09 {
                        self.flush_pending_text();
                        self.write_tab();
                    } else if b <= 0x08 || (0x0b <= b && b <= 0x1f) || b == 0x7f {
                        self.flush_pending_text();
                    } else {
                        self.pending_text.push(b);
                    }
                },
                ConptyOutputParseState::Escape => {
                    if b == 0x5b {
                        self.csi_body = Vec::new();
                        self.state = ConptyOutputParseState::Csi;
                    } else if b == 0x5d {
                        self.state = ConptyOutputParseState::Osc;
                    } else if b == 0x1b {
                    } else {
                        self.state = ConptyOutputParseState::Ground;
                    }
                },
                ConptyOutputParseState::Csi => {
                    if 0x40 <= b && b <= 0x7e {
                        self.apply_csi(b, &mut out);
                        self.csi_body = Vec::new();
                        self.state = ConptyOutputParseState::Ground;
                    } else if self.csi_body.len() < 64 {
                        self.csi_body.push(b);
                    }
                },
                ConptyOutputParseState::Osc => {
                    if b == 0x07 {
                        self.state = ConptyOutputParseState::Ground;
                    } else if b == 0x1b {
                        self.state = ConptyOutputParseState::OscEscape;
                    }
                },
                ConptyOutputParseState::OscEscape => {
                    if b == 0x5c {
                        self.state = ConptyOutputParseState::Ground;
                    } else if b == 0x1b {
                    } else {
                        self.state = ConptyOutputParseState::Osc;
                    }
                },
            }
            i = i + 1;
            let ghost run = sanitize_run(start, bytes@.take(i as int));
            assert(self.view_of() =~= run.0);
            assert(out@ =~= run.1);
        }
        assert(bytes@.take(bytes.len() as int) =~= bytes@);
        self.flush_pending_text();
        proof {
            lemma_run_whole_lines(start, bytes@);
            lemma_flush_pending_printable(sanitize_run(start, bytes@).0);
        }
        out
    }

    /// Gives what is left of the log: the pending text and the unfinished line.
    pub fn finish(&mut self) -> (r: Vec<u8>)
        requires
            old(self).wf(),
        ensures
            final(self).wf(),
            ({
                let f = flush_pending_spec(old(self).view_of());
                if f.line.len() > 0 {
                    final(self).view_of() == flush_line_spec(f).0 && r@ == flush_line_spec(f).1
                } else {
                    final(self).view_of() == f && r@.len() == 0
                }
            }),
            whole_lines(r@),
    {
        let mut out: Vec<u8> = Vec::new();
        self.flush_pending_text();
        if self.line.len() > 0 {
            self.flush_line(&mut out);
            assert(out@ =~= Seq::<u8>::empty() + flush_line_spec(flush_pending_spec(old(self).view_of())).1);
        }
        proof {
            let f = flush_pending_spec(old(self).view_of());
            lemma_flush_pending_printable(old(self).view_of());
            if f.line.len() > 0 {
                lemma_flushed_line_whole(f.line);
                assert(utf8_concat(line_chars(f.line).push('\n')) == out@);
            } else {
                assert(utf8_concat(Seq::<char>::empty()) =~= out@);
                assert(clean_lines(Seq::<char>::empty()));
            }
        }
        out
    }
}

/// A whole session log turned into plain text lines.
pub open spec fn sanitize_log_spec(raw: Seq<u8>) -> Seq<u8> {
    let start = SanitizerView {
        state: ConptyOutputParseState::Ground,
        body: seq![],
        pending: seq![],
        line: seq![],
        col: 0,
        row: 1,
    };
    let run = sanitize_run(start, raw);
    let f = flush_pending_spec(run.0);
    if f.line.len() > 0 {
        run.1 + flush_line_spec(f).1
    } else {
        run.1
    }
}

/// Turns a raw console session log into plain text lines.
pub fn sanitize_conpty_log_bytes(raw: &[u8]) -> (r: Vec<u8>)
    ensures
        r@ == sanitize_log_spec(raw@),
        whole_lines(r@),
{
    let mut sanitizer = ConptyLogSanitizer::new();
    let mut sanitized = sanitizer.push(raw);
    let ghost pushed = sanitized@;
    let rest = sanitizer.finish();
    let mut i: usize = 0;
    while i < rest.len()
        invariant
            i <= rest.len(),
            sanitized@ == pushed + rest@.take(i as int),
        decreases rest.len() - i,
    {
        sanitized.push(rest[i]);
        i = i + 1;
        assert(sanitized@ =~= pushed + rest@.take(i as int));
    }
    assert(rest@.take(rest.len() as int) =~= rest@);
    proof {
        lemma_flush_pending_idempotent(sanitize_run(
            SanitizerView {
                state: ConptyOutputParseState::Ground,
                body: seq![],
                pending: seq![],
                line: seq![],
                col: 0,
                row: 1,
            },
            raw@,
        ).0);
        assert(pushed + Seq::<u8>::empty() =~= pushed);
        lemma_whole_lines_concat(pushed, rest@);
    }
    sanitized
}

/// Whole lines followed by whole lines are whole lines.
proof fn lemma_whole_lines_concat(a: Seq<u8>, b: Seq<u8>)
    requires
        whole_lines(a),
        whole_lines(b),
    ensures
        whole_lines(a + b),
{
    let ta = choose|t: Seq<char>| #[trigger] utf8_concat(t) == a && clean_lines(t);
    let tb = choose|t: Seq<char>| #[trigger] utf8_concat(t) == b && clean_lines(t);
    lemma_utf8_concat_add(ta, tb);
    let t = ta + tb;
    assert forall|k: int| 0 <= k < t.len() implies t[k] == '\n' || !is_control(#[trigger] t[k]) by {
        if k < ta.len() {
            assert(t[k] == ta[k]);
        } else {
            assert(t[k] == tb[k - ta.len()]);
        }
    }
    if tb.len() == 0 {
        assert(t =~= ta);
    } else {
        assert(t.last() == tb.last());
    }
    assert(clean_lines(t));
}

proof fn lemma_flush_pending_idempotent(v: SanitizerView)
    ensures
        flush_pending_spec(flush_pending_spec(v)) == flush_pending_spec(v),
{
}

proof fn lemma_write_chars_pending(v: SanitizerView, chars: Seq<char>)
    ensures
        write_chars_spec(SanitizerView { pending: seq![], ..v }, chars) == (SanitizerView {
            pending: seq![],
            ..write_chars_spec(v, chars)
        }),
    decreases chars.len(),
{
    if chars.len() > 0 {
        lemma_write_chars_pending(v, chars.drop_last());
    }
}

} // verus!
