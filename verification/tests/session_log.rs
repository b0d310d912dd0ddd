use tdcore::profile::DangerLevel;
use tdcore::session_log::{
    add_reference_to_meta, build_powershell_transcript_invocation, build_script_invocation,
    complete_powershell_transcript_session, complete_script_session, config_from_values,
    default_value_for_key, diagnose_config, finish_plan, log_directory_readiness,
    plan_from_config, sort_newest_first, DirectoryReadiness, FilePreparationError,
    PendingLogBackend, PlanStep, SessionLogBackendSetting, SessionLogClientCommands,
    SessionLogConfig, SessionLogFiles, SessionLogLaunchFailurePolicy, SessionLogMetadata,
    SessionLogPlan, SessionLogPlatform, SessionLogReference, SESSION_LOG_BACKEND_AUTO,
    SESSION_LOG_BACKEND_KEY, SESSION_LOG_BACKEND_NO_LOG, SESSION_LOG_BACKEND_POWERSHELL_TRANSCRIPT,
    SESSION_LOG_ENABLED_KEY, SESSION_LOG_REASON_BACKEND_NO_LOG,
    SESSION_LOG_REASON_POWERSHELL_NOT_FOUND, SESSION_LOG_REASON_SSH_NOT_FOUND,
    SESSION_LOG_REASON_UNSUPPORTED_ON_PLATFORM,
};
use tdcore::ssh::{MetaObject, MetaValue, SshTarget};

fn sample_target() -> SshTarget {
    SshTarget {
        profile_id: "p_test".to_string(),
        name: "Test".to_string(),
        user: "alice".to_string(),
        host: "example.com".to_string(),
        port: 2222,
        danger_level: DangerLevel::Normal,
    }
}

fn ready_dir() -> DirectoryReadiness {
    log_directory_readiness(true, true, true)
}

fn sample_files() -> SessionLogFiles {
    SessionLogFiles {
        session_id: "sl_test".to_string(),
        log_path: "/tmp/sl_test.log".to_string(),
        metadata_path: "/tmp/sl_test.json".to_string(),
    }
}

#[test]
fn resolves_disabled_config_by_default() {
    let config = config_from_values(None, None, "/tmp/logs".to_string()).unwrap();
    assert!(!config.enabled);
    assert_eq!(config.backend, SessionLogBackendSetting::Auto);
}

#[test]
fn diagnostics_report_disabled_defaults() {
    let config = config_from_values(None, None, "/tmp/logs".to_string()).unwrap();
    let diagnostics = diagnose_config(
        &config,
        SessionLogPlatform::Unix,
        SessionLogClientCommands::default(),
        log_directory_readiness(false, false, false),
        None,
    );

    assert!(!diagnostics.enabled);
    assert_eq!(diagnostics.backend_setting, SESSION_LOG_BACKEND_AUTO);
    assert_eq!(diagnostics.resolved_backend, "disabled");
    assert_eq!(
        diagnostics.script_command_note.as_deref(),
        Some("not checked because logging is disabled")
    );
    assert_eq!(diagnostics.log_directory_writable, None);
    assert!(diagnostics.hints.iter().any(|hint| hint.contains("td config ui")));
}

#[test]
fn diagnostics_report_backend_no_log() {
    let config = SessionLogConfig {
        enabled: true,
        dir: "/tmp/logs".to_string(),
        backend: SessionLogBackendSetting::NoLog,
    };
    let diagnostics = diagnose_config(
        &config,
        SessionLogPlatform::Unix,
        SessionLogClientCommands::default(),
        log_directory_readiness(false, true, false),
        None,
    );

    assert_eq!(diagnostics.backend_setting, SESSION_LOG_BACKEND_NO_LOG);
    assert_eq!(diagnostics.resolved_backend, SESSION_LOG_BACKEND_NO_LOG);
    assert_eq!(
        diagnostics.fallback_reason.as_deref(),
        Some(SESSION_LOG_REASON_BACKEND_NO_LOG)
    );
    assert_eq!(
        diagnostics.script_command_note.as_deref(),
        Some("not checked because backend is no-log")
    );
}

#[test]
fn windows_auto_resolves_to_powershell_transcript_when_ready() {
    let config = SessionLogConfig {
        enabled: true,
        dir: "C:\\logs".to_string(),
        backend: SessionLogBackendSetting::Auto,
    };
    let diagnostics = diagnose_config(
        &config,
        SessionLogPlatform::Windows,
        SessionLogClientCommands {
            powershell: Some(
                "C:\\Windows\\System32\\WindowsPowerShell\\v1.0\\powershell.exe".to_string(),
            ),
            ssh: Some("C:\\Windows\\System32\\OpenSSH\\ssh.exe".to_string()),
            script: None,
        },
        ready_dir(),
        None,
    );

    assert_eq!(
        diagnostics.resolved_backend,
        SESSION_LOG_BACKEND_POWERSHELL_TRANSCRIPT
    );
    assert_eq!(diagnostics.status, "ready");
    assert!(diagnostics.platform_supported);
    assert_eq!(diagnostics.fallback_reason, None);

    let step = plan_from_config(
        &config,
        SessionLogPlatform::Windows,
        SessionLogClientCommands {
            powershell: Some("powershell.exe".to_string()),
            ssh: Some("ssh.exe".to_string()),
            script: None,
        },
    );
    let plan = match step {
        PlanStep::PrepareFiles { backend, auto_fallback } => {
            finish_plan(backend, auto_fallback, Ok(sample_files()))
        }
        other => panic!("expected files to be prepared, got {other:?}"),
    };
    match plan {
        SessionLogPlan::PowerShellTranscript {
            launch_failure_policy,
            ..
        } => assert_eq!(
            launch_failure_policy,
            SessionLogLaunchFailurePolicy::FallbackToPlain
        ),
        other => panic!("expected PowerShell transcript plan, got {other:?}"),
    }
}

#[test]
fn windows_auto_reports_powershell_missing() {
    let config = SessionLogConfig {
        enabled: true,
        dir: "C:\\logs".to_string(),
        backend: SessionLogBackendSetting::Auto,
    };
    let diagnostics = diagnose_config(
        &config,
        SessionLogPlatform::Windows,
        SessionLogClientCommands {
            powershell: None,
            ssh: Some("ssh.exe".to_string()),
            script: None,
        },
        ready_dir(),
        None,
    );

    assert_eq!(diagnostics.resolved_backend, SESSION_LOG_BACKEND_NO_LOG);
    assert_eq!(
        diagnostics.fallback_reason.as_deref(),
        Some(SESSION_LOG_REASON_POWERSHELL_NOT_FOUND)
    );
    assert_eq!(diagnostics.status, "not_ready");
}

#[test]
fn windows_auto_reports_ssh_missing() {
    let config = SessionLogConfig {
        enabled: true,
        dir: "C:\\logs".to_string(),
        backend: SessionLogBackendSetting::Auto,
    };
    let diagnostics = diagnose_config(
        &config,
        SessionLogPlatform::Windows,
        SessionLogClientCommands {
            powershell: Some("powershell.exe".to_string()),
            ssh: None,
            script: None,
        },
        ready_dir(),
        None,
    );

    assert_eq!(diagnostics.resolved_backend, SESSION_LOG_BACKEND_NO_LOG);
    assert_eq!(
        diagnostics.fallback_reason.as_deref(),
        Some(SESSION_LOG_REASON_SSH_NOT_FOUND)
    );
    assert_eq!(diagnostics.status, "not_ready");
}

#[test]
fn explicit_powershell_transcript_errors_when_not_ready_or_wrong_platform() {
    let config = SessionLogConfig {
        enabled: true,
        dir: "C:\\logs".to_string(),
        backend: SessionLogBackendSetting::PowerShellTranscript,
    };

    let missing_powershell = plan_from_config(
        &config,
        SessionLogPlatform::Windows,
        SessionLogClientCommands {
            powershell: None,
            ssh: Some("ssh.exe".to_string()),
            script: None,
        },
    );
    assert_eq!(
        missing_powershell,
        PlanStep::Decided(SessionLogPlan::Error {
            reason: SESSION_LOG_REASON_POWERSHELL_NOT_FOUND.to_string()
        })
    );

    let unsupported_platform = plan_from_config(
        &config,
        SessionLogPlatform::Unix,
        SessionLogClientCommands {
            powershell: Some("pwsh".to_string()),
            ssh: Some("ssh".to_string()),
            script: Some("script".to_string()),
        },
    );
    assert_eq!(
        unsupported_platform,
        PlanStep::Decided(SessionLogPlan::Error {
            reason: SESSION_LOG_REASON_UNSUPPORTED_ON_PLATFORM.to_string()
        })
    );
}

#[test]
fn no_log_backend_plans_without_external_script() {
    let config = config_from_values(Some("true"), Some(SESSION_LOG_BACKEND_NO_LOG), "/tmp".to_string())
        .unwrap();
    let step = plan_from_config(
        &config,
        SessionLogPlatform::Unix,
        SessionLogClientCommands::default(),
    );
    let plan = match step {
        PlanStep::Decided(plan) => plan,
        other => panic!("expected a decided plan, got {other:?}"),
    };

    assert_eq!(
        plan,
        SessionLogPlan::NoLog {
            reason: SESSION_LOG_REASON_BACKEND_NO_LOG.to_string()
        }
    );
    assert_eq!(
        plan.not_saved_reference(),
        SessionLogReference::not_saved(SESSION_LOG_REASON_BACKEND_NO_LOG)
    );
}

#[test]
fn script_invocation_uses_log_path_and_ssh_command() {
    let files = sample_files();
    let invocation = build_script_invocation(
        "/usr/bin/script",
        &files,
        "/usr/bin/ssh",
        &vec![
            "-p".to_string(),
            "2222".to_string(),
            "alice@example.com".to_string(),
        ],
        SessionLogPlatform::Unix,
    );

    assert_eq!(invocation.executable, "/usr/bin/script");
    assert!(invocation.args.iter().any(|arg| arg == "-q"));
    assert!(invocation.args.iter().any(|arg| *arg == files.log_path));
    assert_eq!(
        invocation.args,
        vec![
            "-q",
            "-f",
            "-e",
            "-c",
            "/usr/bin/ssh -p 2222 alice@example.com",
            "/tmp/sl_test.log"
        ]
    );
}

#[test]
fn script_invocation_on_macos_passes_the_command_after_the_log() {
    let invocation = build_script_invocation(
        "/usr/bin/script",
        &sample_files(),
        "/usr/bin/ssh",
        &vec!["host name".to_string()],
        SessionLogPlatform::Macos,
    );
    assert_eq!(
        invocation.args,
        vec!["-q", "/tmp/sl_test.log", "/usr/bin/ssh", "host name"]
    );
}

#[test]
fn powershell_invocation_quotes_paths_and_arguments() {
    let files = SessionLogFiles {
        session_id: "sl_test".to_string(),
        log_path: r"C:\Users\Alice Logs\sl_test.log".to_string(),
        metadata_path: r"C:\Users\Alice Logs\sl_test.json".to_string(),
    };

    let invocation = build_powershell_transcript_invocation(
        r"C:\Windows\System32\WindowsPowerShell\v1.0\powershell.exe",
        &files,
        r"C:\Program Files\OpenSSH\ssh.exe",
        &vec![
            "-p".to_string(),
            "2222".to_string(),
            "alice.o'hara@example.com".to_string(),
        ],
        SessionLogLaunchFailurePolicy::FailSession,
    );
    let command = invocation
        .args
        .last()
        .expect("PowerShell command should be last")
        .clone();

    assert_eq!(
        invocation.executable,
        r"C:\Windows\System32\WindowsPowerShell\v1.0\powershell.exe"
    );
    assert!(command.contains(r"Start-Transcript -Path 'C:\Users\Alice Logs\sl_test.log'"));
    assert!(command.contains(r"& 'C:\Program Files\OpenSSH\ssh.exe'"));
    assert!(command.contains("'alice.o''hara@example.com'"));
    assert!(command.contains("catch { throw }"));
}

#[test]
fn writes_and_lists_metadata_without_secret_fields() {
    let files = sample_files();
    let target = sample_target();
    let metadata = complete_script_session(&files, &target, 1000, 2000, 42, Some(0), true).unwrap();

    assert_eq!(metadata.session_id, files.session_id);
    assert_eq!(metadata.status, "completed");
    assert_eq!(metadata.backend, "script");
    assert!(metadata.log_path.is_some());
    assert_eq!(metadata.port, 2222);
    let listed = sort_newest_first(vec![metadata.clone()]);
    assert_eq!(listed.len(), 1);
    assert_eq!(listed[0].session_id, files.session_id);
}

#[test]
fn writes_powershell_metadata_without_secret_fields() {
    let metadata = complete_powershell_transcript_session(
        &sample_files(),
        &sample_target(),
        1000,
        2000,
        42,
        Some(0),
        true,
    )
    .unwrap();
    assert_eq!(metadata.backend, SESSION_LOG_BACKEND_POWERSHELL_TRANSCRIPT);
}

#[test]
fn completing_without_a_log_file_is_an_error() {
    let err = complete_script_session(&sample_files(), &sample_target(), 1, 2, 1, None, false)
        .unwrap_err();
    assert_eq!(
        err,
        tdcore::error::CoreError::NotFound("session log not found: /tmp/sl_test.log".to_string())
    );
}

#[test]
fn exit_codes_give_statuses() {
    let files = sample_files();
    let target = sample_target();
    let nonzero = complete_script_session(&files, &target, 1, 2, 1, Some(3), true).unwrap();
    assert_eq!(nonzero.status, "completed_nonzero");
    let none = complete_script_session(&files, &target, 1, 2, 1, None, true).unwrap();
    assert_eq!(none.status, "completed_without_exit_code");
}

#[test]
fn adds_only_safe_oplog_reference_fields() {
    let reference = SessionLogReference::saved("sl_abc123");
    let mut meta = MetaObject::new();
    meta.insert("mode", MetaValue::Text("interactive".to_string()));
    meta.insert("source", MetaValue::Text("tui".to_string()));

    add_reference_to_meta(&mut meta, &reference);

    let get = |key: &str| meta.entries.iter().rev().find(|(k, _)| k == key).map(|(_, v)| v.clone());
    assert_eq!(get("session_log_saved"), Some(MetaValue::Flag(true)));
    assert_eq!(
        get("session_log_id"),
        Some(MetaValue::Text("sl_abc123".to_string()))
    );
    assert!(get("log_path").is_none());
    assert!(get("auth_args").is_none());
    assert!(get("command").is_none());
    assert_eq!(get("mode"), Some(MetaValue::Text("interactive".to_string())));
}

#[test]
fn listing_is_newest_first_with_ties_by_larger_id() {
    let make = |id: &str, started: i64| SessionLogMetadata {
        session_id: id.to_string(),
        profile_id: "p".to_string(),
        user: "u".to_string(),
        host: "h".to_string(),
        port: 22,
        started_at: started,
        ended_at: started,
        duration_ms: 0,
        exit_code: None,
        backend: "script".to_string(),
        log_path: None,
        metadata_path: "m".to_string(),
        status: "completed".to_string(),
        reason: None,
    };
    let sorted = sort_newest_first(vec![make("sl_a", 10), make("sl_c", 30), make("sl_b", 30)]);
    let ids: Vec<&str> = sorted.iter().map(|m| m.session_id.as_str()).collect();
    assert_eq!(ids, vec!["sl_c", "sl_b", "sl_a"]);
}

#[test]
fn backend_names_round_trip_and_unknown_is_refused() {
    for backend in [
        SessionLogBackendSetting::Auto,
        SessionLogBackendSetting::Script,
        SessionLogBackendSetting::PowerShellTranscript,
        SessionLogBackendSetting::NoLog,
    ] {
        assert_eq!(SessionLogBackendSetting::parse(backend.as_str()).unwrap(), backend);
    }
    assert_eq!(
        SessionLogBackendSetting::parse("  SCRIPT ").unwrap(),
        SessionLogBackendSetting::Script
    );
    assert_eq!(
        SessionLogBackendSetting::parse(" Bogus ").unwrap_err(),
        tdcore::error::CoreError::InvalidSetting("unknown session log backend 'bogus'".to_string())
    );
}

#[test]
fn failed_file_preparation_falls_back_or_errors() {
    let quiet = finish_plan(
        PendingLogBackend::Script { script_path: "script".to_string() },
        true,
        Err(FilePreparationError::DirNotWritable("denied".to_string())),
    );
    assert_eq!(
        quiet,
        SessionLogPlan::NoLog { reason: "log_dir_not_writable: denied".to_string() }
    );
    let loud = finish_plan(
        PendingLogBackend::Script { script_path: "script".to_string() },
        false,
        Err(FilePreparationError::SetupFailed("boom".to_string())),
    );
    assert_eq!(loud, SessionLogPlan::Error { reason: "setup_failed: boom".to_string() });
}

#[test]
fn notices_name_the_reason_or_the_log_path() {
    let plan = SessionLogPlan::NoLog { reason: "x".to_string() };
    assert_eq!(
        plan.notice().unwrap(),
        "TeraDock session logging requested but no terminal log will be saved (x); continuing with normal SSH."
    );
    assert_eq!(SessionLogPlan::Disabled.notice(), None);
}

#[test]
fn session_log_config_defaults_are_resolved() {
    assert_eq!(
        default_value_for_key(SESSION_LOG_ENABLED_KEY, "/d"),
        Some("false".to_string())
    );
    assert_eq!(
        default_value_for_key(SESSION_LOG_BACKEND_KEY, "/d"),
        Some("auto".to_string())
    );
    assert_eq!(default_value_for_key("session.log.dir", "/d"), Some("/d".to_string()));
    assert_eq!(default_value_for_key("other", "/d"), None);
}

#[test]
fn explicit_script_records_into_the_prepared_files_and_fails_the_session_on_launch_failure() {
    let config = SessionLogConfig {
        enabled: true,
        dir: "/tmp/logs".to_string(),
        backend: SessionLogBackendSetting::Script,
    };
    let ready = plan_from_config(
        &config,
        SessionLogPlatform::Unix,
        SessionLogClientCommands {
            script: Some("/usr/bin/script".to_string()),
            powershell: None,
            ssh: None,
        },
    );
    let plan = match ready {
        PlanStep::PrepareFiles { backend, auto_fallback } => {
            finish_plan(backend, auto_fallback, Ok(sample_files()))
        }
        other => panic!("expected files to be prepared, got {other:?}"),
    };
    match plan {
        SessionLogPlan::Script {
            script_path,
            files,
            launch_failure_policy,
        } => {
            assert_eq!(script_path, "/usr/bin/script");
            assert_eq!(files, sample_files());
            assert_eq!(launch_failure_policy, SessionLogLaunchFailurePolicy::FailSession);
        }
        other => panic!("expected a script plan, got {other:?}"),
    }
    let missing = plan_from_config(
        &config,
        SessionLogPlatform::Unix,
        SessionLogClientCommands { script: None, powershell: None, ssh: None },
    );
    match missing {
        PlanStep::Decided(SessionLogPlan::Error { reason }) => assert_eq!(reason, "script_unavailable"),
        other => panic!("expected an error, got {other:?}"),
    }
    let auto = SessionLogConfig { backend: SessionLogBackendSetting::Auto, ..config };
    match plan_from_config(
        &auto,
        SessionLogPlatform::Unix,
        SessionLogClientCommands { script: None, powershell: None, ssh: None },
    ) {
        PlanStep::Decided(SessionLogPlan::NoLog { reason }) => assert_eq!(reason, "script_unavailable"),
        other => panic!("expected no log, got {other:?}"),
    }
}
