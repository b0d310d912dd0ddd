use tdcore::conpty_loop::{
    conpty_loop_step, conpty_receive_plan, ConptyChildFailure, ConptyEvent, ConptyFailurePhase, ConptyFailureReason,
    ConptyFailureStatus, ConptyLoopAction, ConptyLoopMessage, ConptyReceive,
};
use tdcore::conpty::{
    conpty_exit_code, csi_params, ctrl_char_to_byte, display_width, key_event_is_ctrl_c,
    key_event_to_pty_bytes, pty_size, ConptyOutputInspector, ConptySyntheticResponse, KeyCode,
    KeyEvent, KeyEventKind,
};
use tdcore::conpty_log::{sanitize_conpty_log_bytes, ConptyLogSanitizer};

fn press(code: KeyCode, control: bool) -> KeyEvent {
    KeyEvent { code, kind: KeyEventKind::Press, control }
}

#[test]
fn conpty_key_mapping_handles_text_arrows_and_ctrl_c() {
    assert_eq!(key_event_to_pty_bytes(press(KeyCode::Char('x'), false)), Some(b"x".to_vec()));
    assert_eq!(key_event_to_pty_bytes(press(KeyCode::Char('c'), true)), Some(vec![0x03]));
    assert_eq!(key_event_to_pty_bytes(press(KeyCode::Left, false)), Some(b"\x1b[D".to_vec()));
}

#[test]
fn key_mapping_encodes_utf8_and_ignores_releases() {
    assert_eq!(
        key_event_to_pty_bytes(press(KeyCode::Char('日'), false)),
        Some("日".as_bytes().to_vec())
    );
    assert_eq!(
        key_event_to_pty_bytes(press(KeyCode::Char('😀'), false)),
        Some("😀".as_bytes().to_vec())
    );
    let release = KeyEvent { code: KeyCode::Enter, kind: KeyEventKind::Release, control: false };
    assert_eq!(key_event_to_pty_bytes(release), None);
    assert_eq!(key_event_to_pty_bytes(press(KeyCode::PageDown, false)), Some(b"\x1b[6~".to_vec()));
    assert!(key_event_is_ctrl_c(press(KeyCode::Char('c'), true)));
    assert!(!key_event_is_ctrl_c(press(KeyCode::Char('c'), false)));
    assert_eq!(ctrl_char_to_byte('A'), Some(1));
    assert_eq!(ctrl_char_to_byte(' '), Some(0));
    assert_eq!(ctrl_char_to_byte('1'), None);
}

#[test]
fn conpty_pty_size_clamps_zero_dimensions() {
    let size = pty_size(0, 0);
    assert_eq!(size.cols, 1);
    assert_eq!(size.rows, 1);
    assert_eq!(size.pixel_width, 0);
    assert_eq!(size.pixel_height, 0);
    assert_eq!(pty_size(120, 40).cols, 120);
}

#[test]
fn conpty_exit_code_saturates_to_metadata_range() {
    assert_eq!(conpty_exit_code(0), 0);
    assert_eq!(conpty_exit_code(255), 255);
    assert_eq!(conpty_exit_code(u32::MAX), i32::MAX);
}

#[test]
fn conpty_output_inspector_ignores_cursor_position_query_as_startup_output() {
    let mut inspector = ConptyOutputInspector::new();
    let inspection = inspector.inspect(b"\x1b[6n");
    assert!(!inspection.has_visible_output);
    assert_eq!(
        inspection.synthetic_responses,
        vec![ConptySyntheticResponse::CursorPosition]
    );
}

#[test]
fn conpty_output_inspector_handles_split_cursor_position_query() {
    let mut inspector = ConptyOutputInspector::new();
    let first = inspector.inspect(b"\x1b[");
    let second = inspector.inspect(b"6n");
    assert!(!first.has_visible_output);
    assert!(first.synthetic_responses.is_empty());
    assert!(!second.has_visible_output);
    assert_eq!(
        second.synthetic_responses,
        vec![ConptySyntheticResponse::CursorPosition]
    );
}

#[test]
fn conpty_output_inspector_treats_prompt_text_as_startup_output() {
    let mut inspector = ConptyOutputInspector::new();
    let inspection = inspector.inspect(b"\x1b[?2004hPassword: ");
    assert!(inspection.has_visible_output);
    assert!(inspection.synthetic_responses.is_empty());
}

#[test]
fn inspector_answers_status_queries_and_skips_osc_titles() {
    let mut inspector = ConptyOutputInspector::new();
    let inspection = inspector.inspect(b"\x1b]0;title\x07\x1b[5n");
    assert!(!inspection.has_visible_output);
    assert_eq!(
        inspection.synthetic_responses,
        vec![ConptySyntheticResponse::DeviceStatusOk]
    );
    assert_eq!(ConptySyntheticResponse::DeviceStatusOk.bytes(), b"\x1b[0n".to_vec());
    assert_eq!(ConptySyntheticResponse::CursorPosition.bytes(), b"\x1b[1;1R".to_vec());
}

#[test]
fn csi_parameters_are_read() {
    assert_eq!(csi_params(&b"?25;7;x;+3".to_vec()), vec![25, 7, 3]);
    assert_eq!(csi_params(&b"".to_vec()), Vec::<usize>::new());
    assert_eq!(display_width('a'), 1);
    assert_eq!(display_width('日'), 2);
    assert_eq!(display_width('\u{7}'), 0);
}

#[test]
fn conpty_log_sanitizer_strips_color_and_clear_sequences() {
    let mut sanitizer = ConptyLogSanitizer::new();
    let mut out = sanitizer.push(b"drwx <ESC>");
    out.extend(sanitizer.push(b"\x1b[34m.\x1b[m/\x1b[K\n"));
    assert_eq!(String::from_utf8(out).unwrap(), "drwx <ESC>./\n");
}

#[test]
fn conpty_log_sanitizer_turns_cursor_forward_into_spacing() {
    let mut sanitizer = ConptyLogSanitizer::new();
    let out = sanitizer.push(b"nico@ao03:~$\x1b[1Cdf -h\r\n");
    assert_eq!(String::from_utf8(out).unwrap(), "nico@ao03:~$ df -h\n");
}

#[test]
fn conpty_log_sanitizer_applies_prompt_line_clear_redraw() {
    let mut sanitizer = ConptyLogSanitizer::with_row(18);
    let mut out = sanitizer.push("nico@ao03:~$ ｌｌ".as_bytes());
    out.extend(sanitizer.push(b"\x1b[18;16H\x1b[K\x1b[18;14H\x1b[K\x07ll\r"));
    out.extend(sanitizer.push(b"\x1b[?2004l\n"));
    assert_eq!(String::from_utf8(out).unwrap(), "nico@ao03:~$ ll\n");
}

#[test]
fn conpty_log_sanitizer_splits_absolute_cursor_rows_into_lines() {
    let mut sanitizer = ConptyLogSanitizer::new();
    let mut out = sanitizer.push(b"Welcome\x1b[3;1H * Documentation\n");
    out.extend(sanitizer.finish());
    assert_eq!(String::from_utf8(out).unwrap(), "Welcome\n * Documentation\n");
}

#[test]
fn conpty_log_sanitizer_preserves_utf8_japanese_text() {
    let mut sanitizer = ConptyLogSanitizer::new();
    let out = sanitizer.push("6月 15日 日本語\n".as_bytes());
    assert_eq!(String::from_utf8(out).unwrap(), "6月 15日 日本語\n");
}

#[test]
fn session_log_display_text_sanitizes_existing_raw_conpty_logs() {
    let raw = "Welcome\x1b[18;1H\
               nico@ao03:~$ ｌｌ\x1b[18;16H\x1b[K\x1b[18;14H\x1b[K\x07ll\r\x1b[?2004l\n\
               nico@ao03:~$\x1b[1Cdf -h\r\n\
               drwx \x1b[34m.\x1b[m/\x1b[K\n";
    let display = String::from_utf8(sanitize_conpty_log_bytes(raw.as_bytes())).unwrap();
    assert_eq!(display, "Welcome\nnico@ao03:~$ ll\nnico@ao03:~$ df -h\ndrwx ./\n");
}

#[test]
fn sanitizer_expands_tabs_and_keeps_unfinished_lines_until_finish() {
    let mut sanitizer = ConptyLogSanitizer::new();
    let out = sanitizer.push(b"a\tb");
    assert!(out.is_empty());
    assert_eq!(String::from_utf8(sanitizer.finish()).unwrap(), format!("a{}b\n", " ".repeat(7)));
    let mut erase = ConptyLogSanitizer::new();
    let mut out = erase.push(b"abcdef\x1b[3G\x1b[1K\n");
    out.extend(erase.finish());
    assert_eq!(String::from_utf8(out).unwrap(), "cdef\n");
}

fn failure_of(action: ConptyLoopAction) -> (bool, Vec<String>, ConptyChildFailure) {
    match action {
        ConptyLoopAction::Fail { kill_child, notice, failure } => (kill_child, notice, failure),
        other => panic!("expected a failure, got {other:?}"),
    }
}

#[test]
fn loop_counts_output_and_finishes_on_exit() {
    let (n, a) = conpty_loop_step(10, false, Some(5), Some(ConptyLoopMessage::Event(ConptyEvent::OutputChunk { bytes: 7 })));
    assert_eq!(n, 17);
    assert!(matches!(a, ConptyLoopAction::Continue));
    let (n, a) = conpty_loop_step(17, true, None, Some(ConptyLoopMessage::Event(ConptyEvent::FirstOutput { bytes: 3 })));
    assert_eq!(n, 17);
    assert!(matches!(a, ConptyLoopAction::Continue));
    let (_, a) = conpty_loop_step(17, true, None, Some(ConptyLoopMessage::Event(ConptyEvent::ChildExited { exit_code: Some(2) })));
    assert!(matches!(a, ConptyLoopAction::Exited(Some(2))));
}

#[test]
fn startup_timeout_before_output_kills_the_child() {
    let (_, a) = conpty_loop_step(0, false, Some(15), Some(ConptyLoopMessage::Event(ConptyEvent::StartupTimeout)));
    let (kill, notice, failure) = failure_of(a);
    assert!(kill);
    assert_eq!(
        notice,
        vec![
            String::new(),
            "Error: no ConPTY output received within 15 seconds.".to_string(),
            "Aborting ConPTY child...".to_string()
        ]
    );
    assert_eq!(failure.status, ConptyFailureStatus::Failed);
    assert_eq!(failure.phase, ConptyFailurePhase::WaitingInitialOutput);
    assert_eq!(failure.reason, ConptyFailureReason::InitialOutputTimeout);
    assert_eq!(failure.error, "no ConPTY output received within 15 seconds");
    let (_, a) = conpty_loop_step(0, true, Some(15), Some(ConptyLoopMessage::Event(ConptyEvent::StartupTimeout)));
    assert!(matches!(a, ConptyLoopAction::Continue));
}

#[test]
fn abort_and_bridge_errors_stop_the_session() {
    let (_, a) = conpty_loop_step(0, true, None, Some(ConptyLoopMessage::Event(ConptyEvent::UserAbort)));
    let (kill, notice, failure) = failure_of(a);
    assert!(kill && notice.is_empty());
    assert_eq!(failure.status, ConptyFailureStatus::Aborted);
    assert_eq!(failure.reason, ConptyFailureReason::CtrlC);
    assert_eq!(failure.error, "aborted by Ctrl-C");
    let (_, a) = conpty_loop_step(0, true, None, Some(ConptyLoopMessage::Event(ConptyEvent::InputError { message: "pipe".into() })));
    let (_, _, failure) = failure_of(a);
    assert_eq!(failure.phase, ConptyFailurePhase::InputBridge);
    assert_eq!(failure.error, "pipe");
    let (_, a) = conpty_loop_step(0, true, None, Some(ConptyLoopMessage::ChildWaitError { message: "lost".into() }));
    let (kill, notice, failure) = failure_of(a);
    assert!(kill);
    assert_eq!(notice, vec!["Warning: ConPTY child process exit could not be confirmed.".to_string()]);
    assert_eq!(failure.reason, ConptyFailureReason::ChildWaitFailed);
    let (_, a) = conpty_loop_step(0, true, None, None);
    let (kill, _, failure) = failure_of(a);
    assert!(!kill);
    assert_eq!(failure.error, "ConPTY event loop ended without child status");
}

#[test]
fn receive_plan_waits_for_the_startup_deadline() {
    assert_eq!(conpty_receive_plan(true, Some(100), 500), ConptyReceive::Blocking);
    assert_eq!(conpty_receive_plan(false, None, 500), ConptyReceive::Blocking);
    assert_eq!(conpty_receive_plan(false, Some(100), 500), ConptyReceive::StartupTimedOut);
    assert_eq!(conpty_receive_plan(false, Some(800), 500), ConptyReceive::WithinMillis(300));
}

#[test]
fn conpty_loop_receive_synthesizes_startup_timeout_without_worker_event() {
    let start = 5_000u64;
    let deadline = start + 1;
    assert_eq!(conpty_receive_plan(false, Some(deadline), start), ConptyReceive::WithinMillis(1));
    assert_eq!(conpty_receive_plan(false, Some(deadline), deadline), ConptyReceive::StartupTimedOut);
    let (_, action) = conpty_loop_step(0, false, Some(0), Some(ConptyLoopMessage::Event(ConptyEvent::StartupTimeout)));
    let (kill, _, failure) = failure_of(action);
    assert!(kill);
    assert_eq!(failure.phase, ConptyFailurePhase::WaitingInitialOutput);
    assert_eq!(failure.error, "no ConPTY output received within 0 seconds");
}

#[test]
fn sanitized_logs_are_whole_lines_without_control_characters() {
    let raw: &[u8] = b"a\x00b\x07c\x1b]0;title\x07d\x9b31me\x08f\x7fg\r\nh\x1b[2Ki\x0bj\xffk\xc2\x85l\x9dosc\x07m";
    let out = sanitize_conpty_log_bytes(raw);
    let text = String::from_utf8(out).unwrap();
    assert!(text.is_empty() || text.ends_with('\n'));
    assert!(text.chars().all(|c| c == '\n' || !c.is_control()));
    let mut sanitizer = ConptyLogSanitizer::new();
    let pushed = String::from_utf8(sanitizer.push(b"x\x1b[31my\x01z")).unwrap();
    assert_eq!(pushed, "");
    let rest = String::from_utf8(sanitizer.finish()).unwrap();
    assert!(rest.ends_with('\n'));
    assert!(rest.chars().all(|c| c == '\n' || !c.is_control()));
}
