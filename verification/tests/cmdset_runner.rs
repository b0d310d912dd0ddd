use tdcore::cmdset::{CmdStep, StepOnError};
use tdcore::cmdset_runner::{
    build_step_result, check_run_request, run_log_entry, step_ssh_args, step_timeout_error,
    timeout_reason, run_steps, CmdSetRunResult,
};
use tdcore::error::CoreError;
use tdcore::parser::{ParsedOutput, ParserSpec};
use tdcore::profile::{DangerLevel, Profile, ProfileType};
use tdcore::ssh::{MetaValue, SshTarget};

fn step(ord: i64, cmd: &str, on_error: StepOnError, parser_spec: ParserSpec) -> CmdStep {
    CmdStep {
        id: ord,
        cmdset_id: "c_test".into(),
        ord,
        cmd: cmd.into(),
        timeout_ms: Some(5_000),
        on_error,
        parser_spec,
    }
}

/// What the fake SSH client of the run scenarios answers for a command.
fn fake_ssh(cmd: &str) -> (Option<i32>, bool, Vec<u8>, Vec<u8>) {
    match cmd {
        "ok-json" => (Some(0), true, b"{\"ok\":true}\n".to_vec(), Vec::new()),
        "fail" => (Some(7), false, b"bad\n".to_vec(), b"err\n".to_vec()),
        other => (Some(0), true, format!("{other}\n").into_bytes(), Vec::new()),
    }
}

fn run(steps: Vec<CmdStep>) -> CmdSetRunResult {
    let state = run_steps(&steps, |s: &CmdStep| {
        let (code, success, out, err) = fake_ssh(&s.cmd);
        build_step_result(s, code, success, 3, &out, &err, None)
    })
    .unwrap();
    state.finish(10)
}

#[test]
fn a_step_that_cannot_be_executed_ends_the_run_with_its_error() {
    let steps = vec![
        step(1, "first", StepOnError::Continue, ParserSpec::Raw),
        step(2, "second", StepOnError::Continue, ParserSpec::Regex("p_missing".into())),
        step(3, "third", StepOnError::Continue, ParserSpec::Raw),
    ];
    let calls = std::cell::Cell::new(0);
    let r = run_steps(&steps, |s: &CmdStep| {
        calls.set(calls.get() + 1);
        let (code, success, out, err) = fake_ssh(&s.cmd);
        build_step_result(s, code, success, 3, &out, &err, None)
    });
    assert!(matches!(r, Err(CoreError::ParserNotFound(_))));
    assert_eq!(calls.get(), 2);
}

#[test]
fn a_stopping_failure_ends_the_run_early() {
    let steps = vec![
        step(1, "fail", StepOnError::Continue, ParserSpec::Raw),
        step(2, "fail", StepOnError::Stop, ParserSpec::Raw),
        step(3, "never", StepOnError::Stop, ParserSpec::Raw),
    ];
    let result = run(steps);
    assert_eq!(result.steps.len(), 2);
    assert_eq!(result.steps[1].ord, 2);
    assert!(!result.ok);
    assert_eq!(result.exit_code, 7);
}

#[test]
fn runs_steps_and_applies_parser() {
    let result = run(vec![step(1, "ok-json", StepOnError::Stop, ParserSpec::Json)]);
    assert!(result.ok);
    assert_eq!(result.steps.len(), 1);
    assert_eq!(result.steps[0].parsed, ParsedOutput::Json("{\"ok\":true}".into()));
    let entry = run_log_entry(&result, "p_test", "/usr/bin/ssh", "c_test");
    assert_eq!(entry.op, "run");
    assert!(entry.ok);
}

#[test]
fn stops_on_error_when_step_requests_stop() {
    let result = run(vec![
        step(1, "fail", StepOnError::Stop, ParserSpec::Raw),
        step(2, "after", StepOnError::Stop, ParserSpec::Raw),
    ]);
    assert!(!result.ok);
    assert_eq!(result.exit_code, 7);
    assert_eq!(result.steps.len(), 1);
}

#[test]
fn continues_on_error_when_step_requests_continue() {
    let result = run(vec![
        step(1, "fail", StepOnError::Continue, ParserSpec::Raw),
        step(2, "after", StepOnError::Stop, ParserSpec::Raw),
    ]);
    assert!(!result.ok);
    assert_eq!(result.steps.len(), 2);
    assert!(result.stdout.contains("after"));
}

#[test]
fn outputs_are_joined_and_the_last_exit_code_kept() {
    let result = run(vec![
        step(1, "fail", StepOnError::Continue, ParserSpec::Raw),
        step(2, "after", StepOnError::Stop, ParserSpec::Raw),
    ]);
    assert_eq!(result.stdout, "bad\nafter\n");
    assert_eq!(result.stderr, "err\n");
    assert_eq!(result.exit_code, 0);
    assert_eq!(result.duration_ms, 10);
    let entry = run_log_entry(&result, "p_test", "ssh", "c_test");
    assert_eq!(entry.exit_code, Some(0));
    assert_eq!(entry.duration_ms, Some(10));
    let meta = entry.meta_json.unwrap();
    assert!(meta.entries.contains(&("cmdset_id".to_string(), MetaValue::Text("c_test".into()))));
    assert!(meta.entries.contains(&("steps_executed".to_string(), MetaValue::Count(2))));
}

#[test]
fn step_results_decode_output_and_default_the_exit_code() {
    let s = step(4, "x", StepOnError::Stop, ParserSpec::Raw);
    let r = build_step_result(&s, None, false, 9, &vec![0x61, 0xff], &vec![], None).unwrap();
    assert_eq!(r.exit_code, 0);
    assert_eq!(r.stdout, "a\u{FFFD}");
    assert_eq!(r.parsed, ParsedOutput::Empty);
    let missing = step(5, "x", StepOnError::Stop, ParserSpec::Regex("p_x".into()));
    let err = build_step_result(&missing, Some(0), true, 1, &vec![], &vec![], None).unwrap_err();
    assert_eq!(err, CoreError::ParserNotFound("p_x".into()));
}

fn profile(profile_type: ProfileType) -> Profile {
    Profile {
        profile_id: "p_test".into(),
        name: "Test".into(),
        profile_type,
        host: "example.com".into(),
        port: 22,
        user: "alice".into(),
        danger_level: DangerLevel::Normal,
        group: None,
        tags: Vec::new(),
        note: None,
        initial_send: None,
        client_overrides: None,
        created_at: 0,
        updated_at: 0,
        last_used_at: None,
    }
}

#[test]
fn run_requests_are_checked_before_any_step() {
    let ssh = profile(ProfileType::Ssh);
    assert_eq!(
        check_run_request(None, "p_x", true, "c_test", 1).unwrap_err(),
        CoreError::NotFound("p_x".into())
    );
    assert_eq!(
        check_run_request(Some(&profile(ProfileType::Telnet)), "p_test", true, "c_test", 1)
            .unwrap_err(),
        CoreError::InvalidCommandSpec("run only supports SSH profiles for now".into())
    );
    assert_eq!(
        check_run_request(Some(&ssh), "p_test", false, "c_x", 1).unwrap_err(),
        CoreError::NotFound("c_x".into())
    );
    assert_eq!(
        check_run_request(Some(&ssh), "p_test", true, "c_test", 0).unwrap_err(),
        CoreError::InvalidCommandSpec("cmdset has no steps: c_test".into())
    );
    assert!(check_run_request(Some(&ssh), "p_test", true, "c_test", 2).is_ok());
}

#[test]
fn step_commands_and_timeouts_are_spelled_out() {
    let target = SshTarget {
        profile_id: "p_test".into(),
        name: "Test".into(),
        user: "alice".into(),
        host: "example.com".into(),
        port: 2222,
        danger_level: DangerLevel::Normal,
    };
    let args = step_ssh_args(&target, &vec!["-o".into(), "BatchMode=yes".into()], "uptime");
    assert_eq!(args, vec!["-p", "2222", "-o", "BatchMode=yes", "alice@example.com", "uptime"]);
    assert_eq!(timeout_reason(250), "timeout after 250ms");
    assert_eq!(
        step_timeout_error(3, 250, "timeout after 250ms"),
        CoreError::CommandExecution("step 3 timed out after 250ms: timeout after 250ms".into())
    );
}
