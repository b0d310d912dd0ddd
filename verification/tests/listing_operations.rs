use tdcore::error::CoreError;
use tdcore::listing::{
    diagnostics_lines, endpoint, pad_text, profile_line, recent_header, recent_line,
    session_list_header, session_list_line,
};
use tdcore::oplog::RecentSshSession;
use tdcore::operations::{
    ensure_positive, exec_args, exec_parsed, exec_preflight, exec_timeout_message,
    needs_confirmation, operation_entry, profile_not_found, run_failure, ssh_exit_failure,
};
use tdcore::parser::{ParsedOutput, ParserSpec};
use tdcore::profile::{DangerLevel, Profile, ProfileType};
use tdcore::session_log::{SessionLogDiagnostics, SessionLogMetadata};

fn profile(profile_type: ProfileType, danger_level: DangerLevel) -> Profile {
    Profile {
        profile_id: "p_lab".into(),
        name: "Lab".into(),
        profile_type,
        host: "192.0.2.10".into(),
        port: 22,
        user: "admin".into(),
        danger_level,
        group: None,
        tags: Vec::new(),
        note: None,
        initial_send: None,
        client_overrides: None,
        created_at: 0,
        updated_at: 0,
        last_used_at: None,
    }
}

#[test]
fn exec_is_checked_then_built() {
    let ssh = profile(ProfileType::Ssh, DangerLevel::Normal);
    assert_eq!(exec_preflight(&vec![], Some(&ssh), "p_lab").unwrap_err(), "no command provided; pass after --");
    assert_eq!(exec_preflight(&vec!["ls".into()], None, "p_x").unwrap_err(), "profile not found: p_x");
    assert_eq!(
        exec_preflight(&vec!["ls".into()], Some(&profile(ProfileType::Telnet, DangerLevel::Normal)), "p_lab")
            .unwrap_err(),
        "exec only supports SSH profiles for now"
    );
    assert!(exec_preflight(&vec!["ls".into()], Some(&ssh), "p_lab").is_ok());
    assert_eq!(
        exec_args(&vec!["-p".into(), "22".into(), "admin@192.0.2.10".into()], &vec!["ls".into(), "-l".into()]),
        vec!["-p", "22", "admin@192.0.2.10", "ls", "-l"]
    );
    assert_eq!(exec_timeout_message(50, "timeout after 50ms"), "exec timed out after 50ms: timeout after 50ms");
    assert_eq!(ssh_exit_failure(255), "ssh exited with code 255");
    assert_eq!(run_failure(7), "run failed with exit code 7");
    assert_eq!(profile_not_found("p_q"), "profile not found: p_q");
    assert!(needs_confirmation(&profile(ProfileType::Ssh, DangerLevel::Critical)));
    assert!(!needs_confirmation(&profile(ProfileType::Ssh, DangerLevel::High)));
    assert_eq!(ensure_positive("--limit", 0).unwrap_err(), "--limit must be greater than 0");
    assert!(ensure_positive("--tail", 3).is_ok());
}

#[test]
fn exec_output_defaults_to_json() {
    assert_eq!(exec_parsed(None, "{\"a\": 1}", None).unwrap(), ParsedOutput::Json("{\"a\":1}".into()));
    assert_eq!(exec_parsed(None, "plain text", None).unwrap(), ParsedOutput::Empty);
    assert_eq!(exec_parsed(Some(&ParserSpec::Raw), "{\"a\": 1}", None).unwrap(), ParsedOutput::Empty);
    assert_eq!(
        exec_parsed(Some(&ParserSpec::Regex("p_x".into())), "x", None).unwrap_err(),
        CoreError::ParserNotFound("p_x".into())
    );
    let entry = operation_entry("exec", "p_lab", "/usr/bin/ssh", false, 2, 15, None);
    assert_eq!(entry.op, "exec");
    assert_eq!(entry.exit_code, Some(2));
    assert!(entry.meta_json.is_none());
}

#[test]
fn tables_pad_columns() {
    assert_eq!(pad_text("ab", 4), "ab  ");
    assert_eq!(pad_text("abcdef", 4), "abcdef");
    assert_eq!(endpoint("u", "h", 2200), "u@h:2200");
    assert_eq!(
        recent_header(),
        format!(
            "{:<16} {:<20} {:<28} {:<6} {:<8} {:<20} status",
            "profile_id", "name", "endpoint", "type", "danger", "last_connected"
        )
    );
    let item = RecentSshSession {
        profile_id: "p_lab".into(),
        name: "Lab".into(),
        user: "admin".into(),
        host: "192.0.2.10".into(),
        port: 22,
        profile_type: "ssh".into(),
        danger_level: "high".into(),
        last_connected_at: 0,
        last_ok: true,
        last_exit_code: Some(0),
        client_used: None,
        duration_ms: None,
    };
    assert_eq!(
        recent_line(&item, "1970-01-01T00:00:00Z"),
        format!(
            "{:<16} {:<20} {:<28} {:<6} {:<8} {:<20} {}",
            "p_lab", "Lab", "admin@192.0.2.10:22", "ssh", "high", "1970-01-01T00:00:00Z", "ok exit 0"
        )
    );
    assert_eq!(
        profile_line(&profile(ProfileType::Ssh, DangerLevel::Critical)),
        format!(
            "{:<16} {:<10} {:<5} {:<15} {:<12} {:<8} {}",
            "p_lab", "Lab", "ssh", "192.0.2.10", "admin", 22, "critical"
        )
    );
    assert_eq!(
        session_list_header(),
        format!(
            "{:<14} {:<16} {:<28} {:<20} {:<12} {:<18} log_path",
            "session_id", "profile_id", "endpoint", "started", "duration", "status"
        )
    );
}

#[test]
fn session_rows_cut_long_cells() {
    let m = SessionLogMetadata {
        session_id: "sl_0123456789abcdef".into(),
        profile_id: "p_lab".into(),
        user: "admin".into(),
        host: "192.0.2.10".into(),
        port: 22,
        started_at: 0,
        ended_at: 0,
        duration_ms: 0,
        exit_code: Some(0),
        backend: "script".into(),
        log_path: None,
        metadata_path: "m.json".into(),
        status: "completed".into(),
        reason: None,
    };
    let line = session_list_line(&m, "1970-01-01T00:00:00Z", "0ms", "<none>");
    assert_eq!(
        line,
        format!(
            "{:<14} {:<16} {:<28} {:<20} {:<12} {:<18} {}",
            "sl_0123456789~", "p_lab", "admin@192.0.2.10:22", "1970-01-01T00:00:00Z", "0ms", "completed exit 0", "<none>"
        )
    );
}

#[test]
fn diagnostics_are_described_line_by_line() {
    let d = SessionLogDiagnostics {
        enabled: true,
        backend_setting: "auto".into(),
        resolved_backend: "script".into(),
        script_command: Some("/usr/bin/script".into()),
        script_command_note: None,
        powershell_command: None,
        powershell_command_note: Some("not used on linux".into()),
        ssh_command: None,
        ssh_command_note: None,
        log_directory: "/logs".into(),
        log_directory_exists: true,
        log_directory_writable: None,
        last_session_log: None,
        platform: "linux".into(),
        platform_supported: true,
        fallback_reason: None,
        status: "ready".into(),
        hints: vec!["check the directory".into()],
    };
    let lines = diagnostics_lines(&d);
    assert_eq!(
        lines,
        vec![
            "Session logging diagnostics",
            "",
            "enabled: true",
            "backend setting: auto",
            "resolved backend: script",
            "script command: /usr/bin/script",
            "powershell command: not used on linux",
            "ssh command: unknown",
            "log directory: /logs",
            "log directory exists: true",
            "log directory writable: unknown",
            "last session log: none",
            "platform: linux",
            "platform supported: true",
            "",
            "Status: ready",
            "",
            "Hints:",
            "- check the directory",
        ]
    );
}
