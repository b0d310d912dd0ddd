use vstd::prelude::*;


verus! {

/// A reply the session must send on the terminal's behalf.
#[derive(Debug, Clone, Copy, PartialEq, Eq, Structural)]
pub enum ConptySyntheticResponse {
    CursorPosition,
    DeviceStatusOk,
}

/// The bytes of a reply.
pub open spec fn response_bytes(r: ConptySyntheticResponse) -> Seq<u8> {
    match r {
        ConptySyntheticResponse::CursorPosition => seq![0x1bu8, 0x5bu8, 0x31u8, 0x3bu8, 0x31u8, 0x52u8],
        ConptySyntheticResponse::DeviceStatusOk => seq![0x1bu8, 0x5bu8, 0x30u8, 0x6eu8],
    }
}

impl ConptySyntheticResponse {
    /// The reply's bytes: `ESC [1;1R` for the cursor position, `ESC [0n` for the status.
    pub fn bytes(self) -> (r: Vec<u8>)
        ensures
            r@ == response_bytes(self),
    {
        let mut v: Vec<u8> = Vec::new();
        match self {
            ConptySyntheticResponse::CursorPosition => {
                v.push(0x1b);
                v.push(0x5b);
                v.push(0x31);
                v.push(0x3b);
                v.push(0x31);
                v.push(0x52);
            },
            ConptySyntheticResponse::DeviceStatusOk => {
                v.push(0x1b);
                v.push(0x5b);
                v.push(0x30);
                v.push(0x6e);
            },
        }
        assert(v@ =~= response_bytes(self));
        v
    }

    /// The reply's name in debug output.
    pub fn debug_label(self) -> (r: &'static str)
        ensures
            r@ == match self {
                ConptySyntheticResponse::CursorPosition => "cursor_position"@,
                ConptySyntheticResponse::DeviceStatusOk => "device_status_ok"@,
            },
    {
        match self {
            ConptySyntheticResponse::CursorPosition => "cursor_position",
            ConptySyntheticResponse::DeviceStatusOk => "device_status_ok",
        }
    }
}

/// Where a parser of terminal output stands.
#[derive(Debug, Clone, Copy, PartialEq, Eq, Structural)]
pub enum ConptyOutputParseState {
    Ground,
    Escape,
    Csi,
    Osc,
    OscEscape,
}

/// The most bytes of a control sequence's parameters that are kept.
pub const CSI_BODY_LIMIT: usize = 64;

/// The reply a control sequence asks for: `ESC [6n` asks for the cursor position, `ESC [5n` for
/// the device status.
pub open spec fn response_for_csi_spec(body: Seq<u8>, final_byte: u8) -> Option<ConptySyntheticResponse> {
    if final_byte == 0x6e && body == seq![0x36u8] {
        Some(ConptySyntheticResponse::CursorPosition)
    } else if final_byte == 0x6e && body == seq![0x35u8] {
        Some(ConptySyntheticResponse::DeviceStatusOk)
    } else {
        None
    }
}

/// The reply a control sequence asks for.
pub fn conpty_synthetic_response_for_csi(body: &Vec<u8>, final_byte: u8) -> (r: Option<
    ConptySyntheticResponse,
>)
    ensures
        r == response_for_csi_spec(body@, final_byte),
{
    if final_byte == 0x6e && body.len() == 1 && body[0] == 0x36 {
        assert(body@ =~= seq![0x36u8]);
        Some(ConptySyntheticResponse::CursorPosition)
    } else if final_byte == 0x6e && body.len() == 1 && body[0] == 0x35 {
        assert(body@ =~= seq![0x35u8]);
        Some(ConptySyntheticResponse::DeviceStatusOk)
    } else {
        None
    }
}

/// Whether a byte ends a control sequence.
pub open spec fn is_csi_final(b: u8) -> bool {
    0x40 <= b <= 0x7e
}

/// One byte of terminal output read by the inspector: the new state, the kept parameter bytes,
/// whether the byte is visible output, and the reply it completes, if any.
pub open spec fn inspect_step(state: ConptyOutputParseState, body: Seq<u8>, b: u8) -> (
    ConptyOutputParseState,
    Seq<u8>,
    bool,
    Option<ConptySyntheticResponse>,
) {
    match state {
        ConptyOutputParseState::Ground => if b == 0x1b {
            (ConptyOutputParseState::Escape, body, false, None)
        } else if b == 0x9b {
            (ConptyOutputParseState::Csi, seq![], false, None)
        } else if b == 0x9d {
            (ConptyOutputParseState::Osc, body, false, None)
        } else if b <= 0x1f || b == 0x7f || (0x80 <= b <= 0x9f) {
            (ConptyOutputParseState::Ground, body, false, None)
        } else {
            (ConptyOutputParseState::Ground, body, true, None)
        },
        ConptyOutputParseState::Escape => if b == 0x5b {
            (ConptyOutputParseState::Csi, seq![], false, None)
        } else if b == 0x5d {
            (ConptyOutputParseState::Osc, body, false, None)
        } else if b == 0x1b {
            (ConptyOutputParseState::Escape, body, false, None)
        } else {
            (ConptyOutputParseState::Ground, body, false, None)
        },
        ConptyOutputParseState::Csi => if is_csi_final(b) {
            (ConptyOutputParseState::Ground, seq![], false, response_for_csi_spec(body, b))
        } else if body.len() < 64 {
            (ConptyOutputParseState::Csi, body.push(b), false, None)
        } else {
            (ConptyOutputParseState::Csi, body, false, None)
        },
        ConptyOutputParseState::Osc => if b == 0x07 {
            (ConptyOutputParseState::Ground, body, false, None)
        } else if b == 0x1b {
            (ConptyOutputParseState::OscEscape, body, false, None)
        } else {
            (ConptyOutputParseState::Osc, body, false, None)
        },
        ConptyOutputParseState::OscEscape => if b == 0x5c {
            (ConptyOutputParseState::Ground, body, false, None)
        } else if b == 0x1b {
            (ConptyOutputParseState::OscEscape, body, false, None)
        } else {
            (ConptyOutputParseState::Osc, body, false, None)
        },
    }
}

/// A chunk of terminal output read by the inspector from the given state: the final state and
/// parameter bytes, whether any byte was visible, and the replies asked for, in order.
pub open spec fn inspect_run(state: ConptyOutputParseState, body: Seq<u8>, bytes: Seq<u8>) -> (
    ConptyOutputParseState,
    Seq<u8>,
    bool,
    Seq<ConptySyntheticResponse>,
)
    decreases bytes.len(),
{
    if bytes.len() == 0 {
        (state, body, false, seq![])
    } else {
        let prev = inspect_run(state, body, bytes.drop_last());
        let step = inspect_step(prev.0, prev.1, bytes.last());
        (
            step.0,
            step.1,
            prev.2 || step.2,
            match step.3 {
                Some(r) => prev.3.push(r),
                None => prev.3,
            },
        )
    }
}

/// What one chunk of output showed.
#[derive(Debug, Default, PartialEq, Eq)]
pub struct ConptyOutputInspection {
    pub has_visible_output: bool,
    pub synthetic_responses: Vec<ConptySyntheticResponse>,
}

/// Watches terminal output for visible text and for queries the session must answer.
pub struct ConptyOutputInspector {
    pub state: ConptyOutputParseState,
    pub csi_body: Vec<u8>,
}

impl ConptyOutputInspector {
    /// Whether the kept parameter bytes stay within their limit.
    pub open spec fn wf(&self) -> bool {
        self.csi_body@.len() <= 64
    }

    /// An inspector at the start of output.
    pub fn new() -> (r: ConptyOutputInspector)
        ensures
            r.state == ConptyOutputParseState::Ground,
            r.csi_body@.len() == 0,
            r.wf(),
    {
        ConptyOutputInspector { state: ConptyOutputParseState::Ground, csi_body: Vec::new() }
    }

    /// Reads a chunk of output, carrying unfinished sequences over to the next chunk.
    pub fn inspect(&mut self, bytes: &[u8]) -> (r: ConptyOutputInspection)
        requires
            old(self).wf(),
        ensures
            final(self).wf(),
            (final(self).state, final(self).csi_body@, r.has_visible_output, r.synthetic_responses@)
                == inspect_run(old(self).state, old(self).csi_body@, bytes@),
    {
        let ghost start_state = self.state;
        let ghost start_body = self.csi_body@;
        let mut visible = false;
        let mut responses: Vec<ConptySyntheticResponse> = Vec::new();
        let mut i: usize = 0;
        while i < bytes.len()
            invariant
                i <= bytes.len(),
                self.csi_body@.len() <= 64,
                (self.state, self.csi_body@, visible, responses@) == inspect_run(
                    start_state,
                    start_body,
                    bytes@.take(i as int),
                ),
            decreases bytes.len() - i,
        {
            let b = bytes[i];
            assert(bytes@.take(i + 1).drop_last() =~= bytes@.take(i as int));
            assert(bytes@.take(i + 1).last() == b);
            match self.state {
                ConptyOutputParseState::Ground => {
                    if b == 0x1b {
                        self.state = ConptyOutputParseState::Escape;
                    } else if b == 0x9b {
                        self.csi_body.clear();
                        self.state = ConptyOutputParseState::Csi;
                    } else if b == 0x9d {
                        self.state = ConptyOutputParseState::Osc;
                    } else if b <= 0x1f || b == 0x7f || (0x80 <= b && b <= 0x9f) {
                    } else {
                        visible = true;
                    }
                },
                ConptyOutputParseState::Escape => {
                    if b == 0x5b {
                        self.csi_body.clear();
                        self.state = ConptyOutputParseState::Csi;
                    } else if b == 0x5d {
                        self.state = ConptyOutputParseState::Osc;
                    } else if b == 0x1b {
                        self.state = ConptyOutputParseState::Escape;
                    } else {
                        self.state = ConptyOutputParseState::Ground;
                    }
                },
                ConptyOutputParseState::Csi => {
                    if 0x40 <= b && b <= 0x7e {
                        match conpty_synthetic_response_for_csi(&self.csi_body, b) {
                            Some(r) => responses.push(r),
                            None => {},
                        }
                        self.csi_body.clear();
                        self.state = ConptyOutputParseState::Ground;
                    } else if self.csi_body.len() < 64 {
                        self.csi_body.push(b);
                    }
                },
                ConptyOutputParseState::Osc => {
                    if b == 0x07 {
                        self.state = ConptyOutputParseState::Ground;
                    } else if b == 0x1b {
                        self.state = ConptyOutputParseState::OscEscape;
                    }
                },
                ConptyOutputParseState::OscEscape => {
                    if b == 0x5c {
                        self.state = ConptyOutputParseState::Ground;
                    } else if b == 0x1b {
                        self.state = ConptyOutputParseState::OscEscape;
                    } else {
                        self.state = ConptyOutputParseState::Osc;
                    }
                },
            }
            i = i + 1;
            assert(self.csi_body@ =~= inspect_run(start_state, start_body, bytes@.take(i as int)).1);
            assert(responses@ =~= inspect_run(start_state, start_body, bytes@.take(i as int)).3);
        }
        assert(bytes@.take(bytes.len() as int) =~= bytes@);
        ConptyOutputInspection { has_visible_output: visible, synthetic_responses: responses }
    }
}

/// Law: output may arrive in any split. Reading two chunks one after the other gives the state
/// and replies of reading them as one.
pub proof fn lemma_inspect_split(
    state: ConptyOutputParseState,
    body: Seq<u8>,
    a: Seq<u8>,
    b: Seq<u8>,
)
    ensures
        ({
            let first = inspect_run(state, body, a);
            let second = inspect_run(first.0, first.1, b);
            let whole = inspect_run(state, body, a + b);
            &&& whole.0 == second.0
            &&& whole.1 == second.1
            &&& whole.2 == (first.2 || second.2)
            &&& whole.3 == first.3 + second.3
        }),
    decreases b.len(),
{
    if b.len() == 0 {
        assert(a + b =~= a);
        let first = inspect_run(state, body, a);
        assert(first.3 + Seq::<ConptySyntheticResponse>::empty() =~= first.3);
    } else {
        lemma_inspect_split(state, body, a, b.drop_last());
        assert((a + b).drop_last() =~= a + b.drop_last());
        assert((a + b).last() == b.last());
        let first = inspect_run(state, body, a);
        let mid = inspect_run(first.0, first.1, b.drop_last());
        let step = inspect_step(mid.0, mid.1, b.last());
        match step.3 {
            Some(r) => {
                assert(first.3 + mid.3.push(r) =~= (first.3 + mid.3).push(r));
            },
            None => {},
        }
    }
}

/// Whether a character is a control character (Unicode general category Cc).
pub open spec fn is_control(ch: char) -> bool {
    (ch as u32) <= 0x1f || (0x7f <= (ch as u32) <= 0x9f)
}

/// Whether a character takes two columns on a terminal.
pub open spec fn is_wide_spec(ch: char) -> bool {
    let c = ch as u32;
    (0x1100 <= c <= 0x115f) || (0x2329 <= c <= 0x232a) || (0x2e80 <= c <= 0xa4cf) || (0xac00 <= c
        <= 0xd7a3) || (0xf900 <= c <= 0xfaff) || (0xfe10 <= c <= 0xfe19) || (0xfe30 <= c <= 0xfe6f)
        || (0xff00 <= c <= 0xff60) || (0xffe0 <= c <= 0xffe6) || (0x1f300 <= c <= 0x1f64f) || (
    0x1f900 <= c <= 0x1f9ff) || (0x20000 <= c <= 0x3fffd)
}

/// Whether a character takes two columns on a terminal.
pub fn is_wide_char(ch: char) -> (r: bool)
    ensures
        r == is_wide_spec(ch),
{
    let c = ch as u32;
    (0x1100 <= c && c <= 0x115f) || (0x2329 <= c && c <= 0x232a) || (0x2e80 <= c && c <= 0xa4cf)
        || (0xac00 <= c && c <= 0xd7a3) || (0xf900 <= c && c <= 0xfaff) || (0xfe10 <= c && c
        <= 0xfe19) || (0xfe30 <= c && c <= 0xfe6f) || (0xff00 <= c && c <= 0xff60) || (0xffe0 <= c
        && c <= 0xffe6) || (0x1f300 <= c && c <= 0x1f64f) || (0x1f900 <= c && c <= 0x1f9ff) || (
    0x20000 <= c && c <= 0x3fffd)
}

/// The columns a character takes: none for control characters, two for wide ones, else one.
pub open spec fn display_width_spec(ch: char) -> nat {
    if is_control(ch) {
        0
    } else if is_wide_spec(ch) {
        2
    } else {
        1
    }
}

/// The columns a character takes on a terminal.
pub fn display_width(ch: char) -> (r: usize)
    ensures
        r == display_width_spec(ch),
        r <= 2,
{
    let c = ch as u32;
    if c <= 0x1f || (0x7f <= c && c <= 0x9f) {
        0
    } else if is_wide_char(ch) {
        2
    } else {
        1
    }
}

/// The control byte typed with Ctrl and a key: letters give 1 to 26, space gives 0.
pub open spec fn ctrl_byte_spec(ch: char) -> Option<u8> {
    if 'a' <= ch <= 'z' {
        Some(((ch as u32) - 0x60) as u8)
    } else if 'A' <= ch <= 'Z' {
        Some(((ch as u32) - 0x40) as u8)
    } else if ch == ' ' {
        Some(0)
    } else {
        None
    }
}

/// The control byte typed with Ctrl and a key.
pub fn ctrl_char_to_byte(ch: char) -> (r: Option<u8>)
    ensures
        r == ctrl_byte_spec(ch),
{
    let c = ch as u32;
    if 0x61 <= c && c <= 0x7a {
        Some((c - 0x60) as u8)
    } else if 0x41 <= c && c <= 0x5a {
        Some((c - 0x40) as u8)
    } else if ch == ' ' {
        Some(0)
    } else {
        None
    }
}

/// The kind of a key event.
#[derive(Debug, Clone, Copy, PartialEq, Eq, Structural)]
pub enum KeyEventKind {
    Press,
    Repeat,
    Release,
}

/// The keys the session forwards.
#[derive(Debug, Clone, Copy, PartialEq, Eq, Structural)]
pub enum KeyCode {
    Char(char),
    Enter,
    Backspace,
    Tab,
    Esc,
    Left,
    Right,
    Up,
    Down,
    Home,
    End,
    PageUp,
    PageDown,
    Delete,
    Insert,
    Other,
}

/// A key event: the key, its kind, and whether Ctrl was held.
#[derive(Debug, Clone, Copy, PartialEq, Eq, Structural)]
pub struct KeyEvent {
    pub code: KeyCode,
    pub kind: KeyEventKind,
    pub control: bool,
}

/// The UTF-8 encoding of a character.
pub open spec fn utf8_of(ch: char) -> Seq<u8> {
    let c = ch as u32;
    if c < 0x80 {
        seq![c as u8]
    } else if c < 0x800 {
        seq![(0xc0 + c / 64) as u8, (0x80 + c % 64) as u8]
    } else if c < 0x10000 {
        seq![(0xe0 + c / 4096) as u8, (0x80 + (c / 64) % 64) as u8, (0x80 + c % 64) as u8]
    } else {
        seq![
            (0xf0 + c / 262144) as u8,
            (0x80 + (c / 4096) % 64) as u8,
            (0x80 + (c / 64) % 64) as u8,
            (0x80 + c % 64) as u8,
        ]
    }
}

/// The UTF-8 encoding of a character.
pub fn encode_utf8(ch: char) -> (r: Vec<u8>)
    ensures
        r@ == utf8_of(ch),
{
    let c = ch as u32;
    let mut v: Vec<u8> = Vec::new();
    if c < 0x80 {
        v.push(c as u8);
    } else if c < 0x800 {
        v.push((0xc0 + c / 64) as u8);
        v.push((0x80 + c % 64) as u8);
    } else if c < 0x10000 {
        v.push((0xe0 + c / 4096) as u8);
        v.push((0x80 + (c / 64) % 64) as u8);
        v.push((0x80 + c % 64) as u8);
    } else {
        assert(c <= 0x10ffff);
        v.push((0xf0 + c / 262144) as u8);
        v.push((0x80 + (c / 4096) % 64) as u8);
        v.push((0x80 + (c / 64) % 64) as u8);
        v.push((0x80 + c % 64) as u8);
    }
    assert(v@ =~= utf8_of(ch));
    v
}

/// The bytes a key sends to the session: pressed or repeated keys only; Ctrl with a key its
/// control byte; characters their UTF-8; the named keys their terminal sequences.
pub open spec fn key_bytes_spec(key: KeyEvent) -> Option<Seq<u8>> {
    if key.kind == KeyEventKind::Release {
        None
    } else {
        match key.code {
            KeyCode::Char(ch) => if key.control {
                match ctrl_byte_spec(ch) {
                    Some(b) => Some(seq![b]),
                    None => None,
                }
            } else {
                Some(utf8_of(ch))
            },
            KeyCode::Enter => Some(seq![0x0du8]),
            KeyCode::Backspace => Some(seq![0x7fu8]),
            KeyCode::Tab => Some(seq![0x09u8]),
            KeyCode::Esc => Some(seq![0x1bu8]),
            KeyCode::Left => Some(seq![0x1bu8, 0x5bu8, 0x44u8]),
            KeyCode::Right => Some(seq![0x1bu8, 0x5bu8, 0x43u8]),
            KeyCode::Up => Some(seq![0x1bu8, 0x5bu8, 0x41u8]),
            KeyCode::Down => Some(seq![0x1bu8, 0x5bu8, 0x42u8]),
            KeyCode::Home => Some(seq![0x1bu8, 0x5bu8, 0x48u8]),
            KeyCode::End => Some(seq![0x1bu8, 0x5bu8, 0x46u8]),
            KeyCode::PageUp => Some(seq![0x1bu8, 0x5bu8, 0x35u8, 0x7eu8]),
            KeyCode::PageDown => Some(seq![0x1bu8, 0x5bu8, 0x36u8, 0x7eu8]),
            KeyCode::Delete => Some(seq![0x1bu8, 0x5bu8, 0x33u8, 0x7eu8]),
            KeyCode::Insert => Some(seq![0x1bu8, 0x5bu8, 0x32u8, 0x7eu8]),
            KeyCode::Other => None,
        }
    }
}

fn one_byte(a: u8) -> (v: Vec<u8>)
    ensures
        v@ == seq![a],
{
    let mut v: Vec<u8> = Vec::new();
    v.push(a);
    assert(v@ =~= seq![a]);
    v
}

fn three_bytes(a: u8, b: u8, c: u8) -> (v: Vec<u8>)
    ensures
        v@ == seq![a, b, c],
{
    let mut v: Vec<u8> = Vec::new();
    v.push(a);
    v.push(b);
    v.push(c);
    assert(v@ =~= seq![a, b, c]);
    v
}

fn four_bytes(a: u8, b: u8, c: u8, d: u8) -> (v: Vec<u8>)
    ensures
        v@ == seq![a, b, c, d],
{
    let mut v: Vec<u8> = Vec::new();
    v.push(a);
    v.push(b);
    v.push(c);
    v.push(d);
    assert(v@ =~= seq![a, b, c, d]);
    v
}

/// The bytes a key sends to the session.
pub fn key_event_to_pty_bytes(key: KeyEvent) -> (r: Option<Vec<u8>>)
    ensures
        match (r, key_bytes_spec(key)) {
            (Some(v), Some(s)) => v@ == s,
            (None, None) => true,
            _ => false,
        },
{
    if key.kind == KeyEventKind::Release {
        return None;
    }
    match key.code {
        KeyCode::Char(ch) => {
            if key.control {
                match ctrl_char_to_byte(ch) {
                    Some(b) => Some(one_byte(b)),
                    None => None,
                }
            } else {
                Some(encode_utf8(ch))
            }
        },
        KeyCode::Enter => Some(one_byte(0x0d)),
        KeyCode::Backspace => Some(one_byte(0x7f)),
        KeyCode::Tab => Some(one_byte(0x09)),
        KeyCode::Esc => Some(one_byte(0x1b)),
        KeyCode::Left => Some(three_bytes(0x1b, 0x5b, 0x44)),
        KeyCode::Right => Some(three_bytes(0x1b, 0x5b, 0x43)),
        KeyCode::Up => Some(three_bytes(0x1b, 0x5b, 0x41)),
        KeyCode::Down => Some(three_bytes(0x1b, 0x5b, 0x42)),
        KeyCode::Home => Some(three_bytes(0x1b, 0x5b, 0x48)),
        KeyCode::End => Some(three_bytes(0x1b, 0x5b, 0x46)),
        KeyCode::PageUp => Some(four_bytes(0x1b, 0x5b, 0x35, 0x7e)),
        KeyCode::PageDown => Some(four_bytes(0x1b, 0x5b, 0x36, 0x7e)),
        KeyCode::Delete => Some(four_bytes(0x1b, 0x5b, 0x33, 0x7e)),
        KeyCode::Insert => Some(four_bytes(0x1b, 0x5b, 0x32, 0x7e)),
        KeyCode::Other => None,
    }
}

/// Whether a key event is Ctrl-C being pressed.
pub fn key_event_is_ctrl_c(key: KeyEvent) -> (r: bool)
    ensures
        r == (key.kind != KeyEventKind::Release && key.code == KeyCode::Char('c') && key.control),
{
    key.kind != KeyEventKind::Release && key.control && match key.code {
        KeyCode::Char(c) => c == 'c',
        _ => false,
    }
}

/// The size of a pseudo terminal in cells.
#[derive(Debug, Clone, Copy, PartialEq, Eq, Structural)]
pub struct PtySize {
    pub rows: u16,
    pub cols: u16,
    pub pixel_width: u16,
    pub pixel_height: u16,
}

/// The size of the pseudo terminal for a console of `cols` by `rows`; a zero dimension becomes 1.
pub fn pty_size(cols: u16, rows: u16) -> (r: PtySize)
    ensures
        r.rows == if rows == 0 {
            1
        } else {
            rows
        },
        r.cols == if cols == 0 {
            1
        } else {
            cols
        },
        r.pixel_width == 0,
        r.pixel_height == 0,
{
    PtySize {
        rows: if rows == 0 {
            1
        } else {
            rows
        },
        cols: if cols == 0 {
            1
        } else {
            cols
        },
        pixel_width: 0,
        pixel_height: 0,
    }
}

/// The exit code recorded for a child's exit status; values beyond `i32::MAX` saturate.
pub fn conpty_exit_code(status: u32) -> (r: i32)
    ensures
        r == if status <= i32::MAX as u32 {
            status as i32
        } else {
            i32::MAX
        },
{
    if status <= 0x7fff_ffff {
        status as i32
    } else {
        i32::MAX
    }
}

/// The parameters of a control sequence: leading `?` dropped, split at `;`, the items that read
/// as numbers (an optional `+` and digits) kept. A `;` or `?` byte never belongs to a multi-byte
/// character, so reading the bytes as text does not change where they split.
pub open spec fn csi_param_items(pieces: Seq<Seq<u8>>) -> Seq<nat>
    decreases pieces.len(),
{
    if pieces.len() == 0 {
        seq![]
    } else {
        csi_param_items(pieces.drop_last()) + match param_value(pieces.last()) {
            Some(n) => seq![n],
            None => seq![],
        }
    }
}

/// The number a parameter item reads as: an optional `+`, then digits.
pub open spec fn param_value(item: Seq<u8>) -> Option<nat> {
    digit_run_value(
        if item.len() > 0 && item[0] == 0x2b {
            item.drop_first()
        } else {
            item
        },
    )
}

/// The value of a non-empty run of ASCII digits that fits in a `usize`.
pub open spec fn digit_run_value(d: Seq<u8>) -> Option<nat> {
    if d.len() > 0 && (forall|k: int| 0 <= k < d.len() ==> 0x30 <= #[trigger] d[k] <= 0x39)
        && byte_digits_value(d) <= usize::MAX {
        Some(byte_digits_value(d))
    } else {
        None
    }
}

/// The value of a run of ASCII digit bytes.
pub open spec fn byte_digits_value(d: Seq<u8>) -> nat
    decreases d.len(),
{
    if d.len() == 0 {
        0
    } else {
        byte_digits_value(d.drop_last()) * 10 + (d.last() - 0x30) as nat
    }
}

/// `body` with its leading `?` bytes removed.
pub open spec fn strip_question(body: Seq<u8>) -> Seq<u8>
    decreases body.len(),
{
    if body.len() > 0 && body[0] == 0x3f {
        strip_question(body.drop_first())
    } else {
        body
    }
}

/// `body` split at `;` bytes.
pub open spec fn split_bytes(s: Seq<u8>, sep: u8) -> Seq<Seq<u8>>
    decreases s.len(),
{
    if s.len() == 0 {
        seq![seq![]]
    } else {
        let prev = split_bytes(s.drop_last(), sep);
        if s.last() == sep {
            prev.push(seq![])
        } else {
            prev.update(prev.len() - 1, prev.last().push(s.last()))
        }
    }
}

proof fn lemma_split_bytes_nonempty(s: Seq<u8>, sep: u8)
    ensures
        split_bytes(s, sep).len() >= 1,
    decreases s.len(),
{
    if s.len() > 0 {
        lemma_split_bytes_nonempty(s.drop_last(), sep);
    }
}

/// The parameters of a control sequence.
pub open spec fn csi_params_spec(body: Seq<u8>) -> Seq<nat> {
    csi_param_items(split_bytes(strip_question(body), 0x3b))
}

fn param_value_exec(item: &Vec<u8>) -> (r: Option<usize>)
    ensures
        match r {
            Some(n) => param_value(item@) == Some(n as nat),
            None => param_value(item@) is None,
        },
{
    let start: usize = if item.len() > 0 && item[0] == 0x2b {
        1
    } else {
        0
    };
    let ghost d = if item@.len() > 0 && item@[0] == 0x2b {
        item@.drop_first()
    } else {
        item@
    };
    assert(d =~= item@.skip(start as int));
    if start >= item.len() {
        return None;
    }
    let mut value: u128 = 0;
    let mut i: usize = start;
    let mut ok = true;
    while i < item.len() && ok
        invariant
            start <= i <= item.len(),
            d == item@.skip(start as int),
            ok ==> (forall|k: int| 0 <= k < i - start ==> 0x30 <= #[trigger] d[k] <= 0x39),
            ok ==> value == byte_digits_value(d.take(i - start)),
            ok ==> value <= usize::MAX,
            !ok ==> !(d.len() > 0 && (forall|k: int| 0 <= k < d.len() ==> 0x30 <= #[trigger] d[k]
                <= 0x39) && byte_digits_value(d) <= usize::MAX),
        decreases item.len() - i, if ok { 1int } else { 0int },
    {
        let b = item[i];
        assert(d[i - start] == b);
        if b < 0x30 || b > 0x39 {
            assert(!(0x30 <= d[i - start] <= 0x39));
            ok = false;
        } else {
            let next = value * 10 + (b - 0x30) as u128;
            assert(d.take(i - start + 1).drop_last() =~= d.take(i - start));
            if next > usize::MAX as u128 {
                proof {
                    if forall|k: int| 0 <= k < d.len() ==> 0x30 <= #[trigger] d[k] <= 0x39 {
                        lemma_byte_digits_prefix(d, i - start + 1);
                    }
                }
                ok = false;
            } else {
                value = next;
                i = i + 1;
            }
        }
    }
    if !ok {
        assert(digit_run_value(d) is None);
        return None;
    }
    assert(d.take(d.len() as int) =~= d);
    Some(value as usize)
}

proof fn lemma_byte_digits_prefix(d: Seq<u8>, k: int)
    requires
        0 <= k <= d.len(),
        forall|j: int| 0 <= j < d.len() ==> 0x30 <= #[trigger] d[j] <= 0x39,
    ensures
        byte_digits_value(d.take(k)) <= byte_digits_value(d),
    decreases d.len() - k,
{
    if k < d.len() {
        lemma_byte_digits_prefix(d, k + 1);
        assert(d.take(k + 1).drop_last() =~= d.take(k));
    } else {
        assert(d.take(k) =~= d);
    }
}

/// The parameters of a control sequence.
pub fn csi_params(body: &Vec<u8>) -> (r: Vec<usize>)
    ensures
        r@.map_values(|n: usize| n as nat) == csi_params_spec(body@),
{
    let mut start: usize = 0;
    assert(body@.skip(0) =~= body@);
    while start < body.len() && body[start] == 0x3f
        invariant
            start <= body.len(),
            strip_question(body@) == strip_question(body@.skip(start as int)),
        decreases body.len() - start,
    {
        assert(body@.skip(start as int).drop_first() =~= body@.skip(start + 1));
        start = start + 1;
    }
    let ghost rest = body@.skip(start as int);
    assert(strip_question(rest) == rest) by {
        if rest.len() > 0 {
            assert(rest[0] == body@[start as int]);
        }
    }
    let mut out: Vec<usize> = Vec::new();
    let mut piece: Vec<u8> = Vec::new();
    let mut i: usize = start;
    assert(rest.take(0) =~= Seq::<u8>::empty());
    while i < body.len()
        invariant
            start <= i <= body.len(),
            rest == body@.skip(start as int),
            out@.map_values(|n: usize| n as nat) == csi_param_items(
                split_bytes(rest.take(i - start), 0x3b).drop_last(),
            ),
            piece@ == split_bytes(rest.take(i - start), 0x3b).last(),
        decreases body.len() - i,
    {
        proof {
            lemma_split_bytes_nonempty(rest.take(i - start), 0x3b);
        }
        let b = body[i];
        assert(rest.take(i - start + 1).drop_last() =~= rest.take(i - start));
        assert(rest.take(i - start + 1).last() == b);
        if b == 0x3b {
            let ghost before = out@;
            match param_value_exec(&piece) {
                Some(n) => {
                    out.push(n);
                },
                None => {},
            }
            assert(out@.map_values(|n: usize| n as nat) =~= csi_param_items(
                split_bytes(rest.take(i - start + 1), 0x3b).drop_last(),
            )) by {
                let prev = split_bytes(rest.take(i - start), 0x3b);
                assert(split_bytes(rest.take(i - start + 1), 0x3b).drop_last() =~= prev);
            }
            piece = Vec::new();
        } else {
            piece.push(b);
            let ghost prev = split_bytes(rest.take(i - start), 0x3b);
            assert(split_bytes(rest.take(i - start + 1), 0x3b).drop_last() =~= prev.drop_last());
        }
        i = i + 1;
        assert(piece@ =~= split_bytes(rest.take(i - start), 0x3b).last());
    }
    proof {
        lemma_split_bytes_nonempty(rest.take(i - start), 0x3b);
        assert(rest.take(i - start) =~= rest);
    }
    let ghost all = split_bytes(rest, 0x3b);
    match param_value_exec(&piece) {
        Some(n) => {
            out.push(n);
        },
        None => {},
    }
    assert(all =~= all.drop_last().push(all.last()));
    assert(out@.map_values(|n: usize| n as nat) =~= csi_param_items(all));
    out
}

} // verus!
