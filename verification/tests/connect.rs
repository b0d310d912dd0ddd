use tdcore::connect::{
    connect_log_entry, connect_outcome, logger_launch_failure, plan_not_ready, recorded_session_reference,
    LoggerFailureStep, SshRunResult,
};
use tdcore::profile::{DangerLevel, Profile, ProfileType};
use tdcore::session_log::{SessionLogLaunchFailurePolicy, SessionLogReference};
use tdcore::ssh::{assemble_ssh_invocation, MetaValue, SshAuthContext, SshInvocationMode};

fn invocation() -> tdcore::ssh::SshInvocation {
    let profile = Profile {
        profile_id: "p_web".into(),
        name: "Web".into(),
        profile_type: ProfileType::Ssh,
        host: "web.example".into(),
        port: 22,
        user: "deploy".into(),
        danger_level: DangerLevel::Normal,
        group: None,
        tags: Vec::new(),
        note: None,
        initial_send: None,
        client_overrides: None,
        created_at: 0,
        updated_at: 0,
        last_used_at: None,
    };
    let auth = SshAuthContext { order: vec![], args: vec![], hint: None, warn_password_fallback: false };
    assemble_ssh_invocation(&profile, "/usr/bin/ssh".into(), auth, "cli", SshInvocationMode::Interactive).unwrap()
}

fn lookup<'a>(entries: &'a [(String, MetaValue)], key: &str) -> Option<&'a MetaValue> {
    entries.iter().filter(|(k, _)| k == key).map(|(_, v)| v).last()
}

#[test]
fn plans_in_error_do_not_start_a_session() {
    let r = plan_not_ready("script_unavailable");
    assert_eq!(
        r,
        SshRunResult::LaunchFailed {
            error: "session logging backend is not ready: script_unavailable".into(),
            duration_ms: 0,
            session_log: SessionLogReference::not_saved("script_unavailable"),
        }
    );
    assert_eq!(connect_outcome(&r).unwrap_err(), "session logging backend is not ready: script_unavailable");
}

#[test]
fn logger_failures_fall_back_or_fail() {
    match logger_launch_failure(SessionLogLaunchFailurePolicy::FallbackToPlain, "script_launch_failed", "no such file", 3) {
        LoggerFailureStep::RunPlain { notice, session_log } => {
            assert_eq!(notice, "TeraDock session logging failed to start (no such file); continuing without logging.");
            assert_eq!(session_log.reason.as_deref(), Some("script_launch_failed"));
        }
        other => panic!("unexpected {other:?}"),
    }
    assert_eq!(
        logger_launch_failure(SessionLogLaunchFailurePolicy::FailSession, "script_launch_failed", "no such file", 3),
        LoggerFailureStep::Fail(SshRunResult::LaunchFailed {
            error: "no such file".into(),
            duration_ms: 3,
            session_log: SessionLogReference::not_saved("script_launch_failed"),
        })
    );
}

#[test]
fn recorded_sessions_are_referenced_or_explained() {
    assert_eq!(recorded_session_reference(Ok("sl_abc")), SessionLogReference::saved("sl_abc"));
    assert_eq!(
        recorded_session_reference(Err("I/O error: denied")),
        SessionLogReference::not_saved("metadata_write_failed: I/O error: denied")
    );
}

#[test]
fn connections_are_logged_with_safe_metadata() {
    let inv = invocation();
    let done = SshRunResult::Completed {
        ok: false,
        exit_code: Some(255),
        duration_ms: 40,
        session_log: SessionLogReference::saved("sl_abc"),
    };
    let entry = connect_log_entry(&inv, &done);
    assert_eq!(entry.op, "connect");
    assert_eq!(entry.exit_code, Some(255));
    let meta = entry.meta_json.unwrap();
    assert_eq!(lookup(&meta.entries, "host"), Some(&MetaValue::Text("web.example".into())));
    assert_eq!(lookup(&meta.entries, "session_log_id"), Some(&MetaValue::Text("sl_abc".into())));
    assert_eq!(lookup(&meta.entries, "launch_error"), None);
    assert_eq!(connect_outcome(&done).unwrap_err(), "ssh exited with code 255");
    let failed = SshRunResult::LaunchFailed {
        error: "failed to launch ssh".into(),
        duration_ms: 1,
        session_log: SessionLogReference::not_saved("disabled"),
    };
    let entry = connect_log_entry(&inv, &failed);
    assert!(!entry.ok);
    let meta = entry.meta_json.unwrap();
    assert_eq!(lookup(&meta.entries, "launch_error"), Some(&MetaValue::Text("failed to launch ssh".into())));
    let no_code = SshRunResult::Completed {
        ok: false,
        exit_code: None,
        duration_ms: 1,
        session_log: SessionLogReference::not_saved("disabled"),
    };
    assert_eq!(connect_outcome(&no_code).unwrap_err(), "ssh ended without exit code");
}
