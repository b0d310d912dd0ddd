use tdcore::cmdset::StepOnError;
use tdcore::configset::{
    apply_transfer_failure, config_apply_log_entry, config_file_action, needs_remote_home,
    read_home_answer, read_sha256sum_output, remote_command_failure, ConfigFile, ConfigFileAction,
    ConfigFileWhen,
};
use tdcore::console::{
    auth_messages, conpty_startup_timeout, danger_prompt, debug_flag_enabled, ensure_agent_socket,
    ensure_known_setting, ensure_scope_supported, ensure_ssh_profile, format_recent_status,
    format_scope_kind, format_session_log_path, format_unix_ms_utc, is_confirmed,
    linux_basic_check_sample, normalize_env_name, parse_env_key, sample_install_status,
    ssh_add_outcome, table_cell, SampleInstallStatus, ShownPath,
};
use tdcore::parser::ParserSpec;
use tdcore::profile::{DangerLevel, Profile, ProfileType};
use tdcore::settings::SettingScopeKind;
use tdcore::ssh::{MetaValue, SshAuthContext, SshAuthMethod};
use tdcore::transfer::TransferVia;

fn shown(text: &str, absolute: bool, extension: Option<&str>) -> ShownPath {
    ShownPath { text: text.into(), absolute, extension: extension.map(|e| e.to_string()) }
}

#[test]
fn session_log_path_display_ignores_warning_text() {
    assert_eq!(
        format_session_log_path(Some(&shown(
            "not selected by auto and is not integrated with the TUI.",
            false,
            Some("")
        ))),
        "<none>"
    );
    assert_eq!(format_session_log_path(Some(&shown("sl_abc123.log", false, Some("log")))), "sl_abc123.log");
    assert_eq!(format_session_log_path(None), "<none>");
}

#[test]
fn session_list_table_cells_are_bounded() {
    assert_eq!(table_cell("completed exit 0", 18), "completed exit 0");
    assert_eq!(table_cell("abcdefghijklmnopqrstuvwxyz", 8), "abcdefg~");
}

#[test]
fn sample_cmdset_install_is_idempotent() {
    let first = sample_install_status(false);
    let second = sample_install_status(true);
    assert_eq!(first, SampleInstallStatus::Created);
    assert_eq!(second, SampleInstallStatus::Skipped);
    let sample = linux_basic_check_sample();
    assert_eq!(sample.cmdset_id.as_deref(), Some("linux-basic-check"));
    assert_eq!(sample.steps.len(), 5);
}

#[test]
fn sample_steps_are_read_only_checks() {
    let sample = linux_basic_check_sample();
    let cmds: Vec<&str> = sample.steps.iter().map(|s| s.cmd.as_str()).collect();
    assert_eq!(cmds, vec!["uname -a", "uptime", "df -h", "free -m", "systemctl --failed || true"]);
    assert!(sample.steps.iter().all(|s| s.timeout_ms == Some(10_000)
        && s.on_error == StepOnError::Continue
        && s.parser_spec == ParserSpec::Raw));
    assert_eq!(SampleInstallStatus::Created.as_str(), "created");
    assert_eq!(SampleInstallStatus::Skipped.as_str(), "skipped");
}

#[test]
fn table_cells_and_log_paths_edge_cases() {
    assert_eq!(table_cell("abc", 0), "");
    assert_eq!(table_cell("日本語テキスト", 4), "日本語~");
    assert_eq!(format_session_log_path(Some(&shown("/var/log/x", true, None))), "/var/log/x");
    assert_eq!(format_session_log_path(Some(&shown("a.LOG", false, Some("LOG")))), "a.LOG");
    assert_eq!(format_session_log_path(Some(&shown("  ", false, None))), "<none>");
    assert_eq!(format_session_log_path(Some(&shown("/a\nb.log", true, Some("log")))), "<none>");
}

#[test]
fn statuses_are_spelled_out() {
    assert_eq!(format_recent_status(true, Some(0)), "ok exit 0");
    assert_eq!(format_recent_status(false, Some(-1)), "failed exit -1");
    assert_eq!(format_recent_status(true, None), "ok without exit code");
    assert_eq!(format_recent_status(false, None), "failed without exit code");
}

#[test]
fn utc_times_are_formatted_or_left_as_numbers() {
    assert_eq!(format_unix_ms_utc(0), "1970-01-01T00:00:00Z");
    assert_eq!(format_unix_ms_utc(1_700_000_000_123), "2023-11-14T22:13:20Z");
    assert_eq!(format_unix_ms_utc(-1), "1969-12-31T23:59:59Z");
    assert_eq!(format_unix_ms_utc(i64::MAX), i64::MAX.to_string());
}

#[test]
fn debug_switch_and_confirmations() {
    assert!(debug_flag_enabled(Some(" TRUE ")));
    assert!(debug_flag_enabled(Some("1")));
    assert!(debug_flag_enabled(Some("on")));
    assert!(!debug_flag_enabled(Some("enabled")));
    assert!(!debug_flag_enabled(None));
    assert!(is_confirmed(" Yes\n", "yes"));
    assert!(!is_confirmed("y", "yes"));
    assert!(is_confirmed("CLEAR", "clear"));
    assert_eq!(conpty_startup_timeout(0), None);
    assert_eq!(conpty_startup_timeout(5), Some(5));
}

fn profile(profile_type: ProfileType) -> Profile {
    Profile {
        profile_id: "p_prod".into(),
        name: "Prod".into(),
        profile_type,
        host: "db.example".into(),
        port: 2222,
        user: "root".into(),
        danger_level: DangerLevel::Critical,
        group: None,
        tags: Vec::new(),
        note: None,
        initial_send: None,
        client_overrides: None,
        created_at: 0,
        updated_at: 0,
        last_used_at: None,
    }
}

#[test]
fn refusals_name_the_problem() {
    assert_eq!(
        danger_prompt(&profile(ProfileType::Ssh)),
        "Profile 'p_prod' is marked critical. Proceed with connect to root@db.example:2222 ?"
    );
    assert!(ensure_ssh_profile(&profile(ProfileType::Ssh), "config apply").is_ok());
    assert_eq!(
        ensure_ssh_profile(&profile(ProfileType::Serial), "config apply").unwrap_err(),
        "config apply only supports SSH profiles for now"
    );
    assert!(ensure_agent_socket(Some("/tmp/agent.sock")).is_ok());
    assert_eq!(
        ensure_agent_socket(None).unwrap_err(),
        "SSH_AUTH_SOCK is not set; start ssh-agent before using td agent"
    );
}

#[test]
fn ssh_add_failures_report_their_output() {
    assert!(ssh_add_outcome(true, &vec![], &vec![], "exit status: 0", "ssh-add").is_ok());
    assert_eq!(
        ssh_add_outcome(false, &b" out \n".to_vec(), &b"bad key\n".to_vec(), "exit status: 1", "ssh-add")
            .unwrap_err(),
        "ssh-add failed: stderr: bad key\nstdout: out"
    );
    assert_eq!(
        ssh_add_outcome(false, &vec![], &vec![], "exit status: 2", "ssh-add -D").unwrap_err(),
        "ssh-add -D failed: exit status: exit status: 2"
    );
}

#[test]
fn setting_keys_scopes_and_env_names_are_checked() {
    assert!(ensure_known_setting("ssh_auth_order").is_ok());
    assert_eq!(
        ensure_known_setting("nope").unwrap_err(),
        "unknown config key: nope\nknown keys: allow_insecure_transfers, ssh_auth_order, client_overrides"
    );
    assert!(ensure_scope_supported("ssh_auth_order", SettingScopeKind::Profile).is_ok());
    assert_eq!(
        ensure_scope_supported("client_overrides", SettingScopeKind::Env).unwrap_err(),
        "config key 'client_overrides' does not support env scope"
    );
    assert_eq!(format_scope_kind(SettingScopeKind::Global), "global");
    assert_eq!(normalize_env_name("  prod ").unwrap(), "prod");
    assert_eq!(normalize_env_name("   ").unwrap_err(), "env name cannot be empty");
    assert_eq!(
        parse_env_key(" prod . ssh_auth_order.x ").unwrap(),
        ("prod".to_string(), "ssh_auth_order.x".to_string())
    );
    assert_eq!(parse_env_key("prod").unwrap_err(), "env setting must be in the form NAME.KEY");
    assert_eq!(parse_env_key(".key").unwrap_err(), "env setting must be in the form NAME.KEY");
}

#[test]
fn auth_messages_give_hint_then_warning() {
    let auth = SshAuthContext {
        order: vec![SshAuthMethod::Agent, SshAuthMethod::Password],
        args: vec![],
        hint: Some("hint".into()),
        warn_password_fallback: true,
    };
    assert_eq!(
        auth_messages(&auth),
        vec!["hint".to_string(), "Warning: falling back to password auth (order: agent,password).".to_string()]
    );
}

fn file(dest: &str) -> ConfigFile {
    ConfigFile {
        id: 1,
        config_id: "cfg_a".into(),
        src: "a.conf".into(),
        dest: dest.into(),
        mode: None,
        when: ConfigFileWhen::Always,
    }
}

#[test]
fn config_apply_reads_remote_answers() {
    assert!(needs_remote_home(&vec![file("/etc/a"), file("~/b")]));
    assert!(!needs_remote_home(&vec![file("/etc/a"), file("~b")]));
    assert_eq!(read_home_answer(" /home/alice\n").unwrap(), "/home/alice");
    assert_eq!(read_home_answer("  ").unwrap_err(), "failed to resolve remote home");
    assert_eq!(read_sha256sum_output("  abc123  a.conf\n").unwrap(), "abc123");
    assert_eq!(read_sha256sum_output(" \n").unwrap_err(), "sha256sum output missing hash");
    assert_eq!(remote_command_failure(&b"denied".to_vec()), "remote command failed: denied");
    assert_eq!(apply_transfer_failure(3), "config apply transfer failed with exit code 3");
}

#[test]
fn config_file_actions_follow_plan_backup_and_mode() {
    let planned = config_file_action(true, false, "a.conf", "/etc/a", None, true, false, "exists", 1, 2);
    assert_eq!(
        planned,
        ConfigFileAction::Planned { apply: false, line: "PLAN skip: a.conf -> /etc/a (exists)".into() }
    );
    assert!(!planned.counts_as_applied());
    let skipped = config_file_action(false, false, "a.conf", "/etc/a", None, true, false, "unchanged", 1, 2);
    assert_eq!(skipped, ConfigFileAction::Skipped { line: "skip: a.conf -> /etc/a (unchanged)".into() });
    let applied =
        config_file_action(false, true, "a.conf", "/etc/it's", Some("0644"), true, true, "changed", 10, 11);
    assert_eq!(
        applied,
        ConfigFileAction::Apply {
            backup_command: Some("cp '/etc/it'\\''s' '/etc/it'\\''s.bak.10'".into()),
            temp_path: "/etc/it's.tmp.11".into(),
            move_command: "mv '/etc/it'\\''s.tmp.11' '/etc/it'\\''s'".into(),
            chmod_command: Some("chmod 0644 '/etc/it'\\''s'".into()),
            line: "applied: a.conf -> /etc/it's".into(),
        }
    );
    assert!(applied.counts_as_applied());
    let fresh = config_file_action(false, true, "a", "/x", None, false, true, "missing", 1, 2);
    match fresh {
        ConfigFileAction::Apply { backup_command, chmod_command, .. } => {
            assert_eq!(backup_command, None);
            assert_eq!(chmod_command, None);
        }
        other => panic!("unexpected action {other:?}"),
    }
}

#[test]
fn config_apply_log_entry_counts_files() {
    let entry =
        config_apply_log_entry("cfg_a", false, true, TransferVia::Ftp, 2, 1, 3, "p_a", "/usr/bin/ssh", 40);
    assert_eq!(entry.op, "config_apply");
    assert_eq!(entry.exit_code, Some(0));
    let meta = entry.meta_json.unwrap();
    assert!(meta.entries.contains(&("via".to_string(), MetaValue::Text("ftp".into()))));
    assert!(meta.entries.contains(&("insecure".to_string(), MetaValue::Flag(true))));
    assert!(meta.entries.contains(&("total".to_string(), MetaValue::Count(3))));
}

#[test]
fn utc_dates_follow_the_gregorian_leap_years() {
    assert_eq!(format_unix_ms_utc(1_709_164_800_000), "2024-02-29T00:00:00Z");
    assert_eq!(format_unix_ms_utc(951_782_400_000), "2000-02-29T00:00:00Z");
    assert_eq!(format_unix_ms_utc(-2_203_891_200_000), "1900-03-01T00:00:00Z");
    assert_eq!(format_unix_ms_utc(-2_203_891_200_001), "1900-02-28T23:59:59Z");
    assert_eq!(format_unix_ms_utc(253_402_300_799_000), "9999-12-31T23:59:59Z");
}
