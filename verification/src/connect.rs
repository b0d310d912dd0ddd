use vstd::prelude::*;

use crate::console::connect_meta;
use crate::oplog::OpLogEntry;
use crate::session_log::{
    with_reference, SessionLogLaunchFailurePolicy, SessionLogReference,
    SESSION_LOG_REASON_METADATA_WRITE_FAILED,
};
use crate::ssh::{safe_metadata_map, MetaValueView, SshInvocation};
use crate::text::{concat2, concat3, owned, signed_decimal, i64_to_string};

verus! {

/// How an interactive SSH session ended.
#[derive(Debug, Clone, PartialEq, Eq)]
pub enum SshRunResult {
    /// The client ran; whether it succeeded, its exit code, and the session log's fate.
    Completed { ok: bool, exit_code: Option<i32>, duration_ms: i64, session_log: SessionLogReference },
    /// The session could not be started.
    LaunchFailed { error: String, duration_ms: i64, session_log: SessionLogReference },
}

/// The session a plan that is in error gives: nothing starts, and the log is not saved for
/// the plan's reason.
pub fn plan_not_ready(reason: &str) -> (r: SshRunResult)
    ensures
        r matches SshRunResult::LaunchFailed { error, duration_ms, session_log } && error@
            == "session logging backend is not ready: "@ + reason@ && duration_ms == 0 && !session_log.saved
            && session_log.session_id is None && (session_log.reason matches Some(x) && x@ == reason@),
{
    let error = concat2("session logging backend is not ready: ", reason);
    proof {
        reveal_strlit("session logging backend is not ready: ");
    }
    SshRunResult::LaunchFailed { error, duration_ms: 0, session_log: SessionLogReference::not_saved(reason) }
}

/// What to do when the program that records the session failed to start.
#[derive(Debug, Clone, PartialEq, Eq)]
pub enum LoggerFailureStep {
    /// Show the notice, then run the session without a log.
    RunPlain { notice: String, session_log: SessionLogReference },
    /// Give up: the session failed to launch.
    Fail(SshRunResult),
}

/// The decision after the logging program failed to start: with a fallback policy the
/// session runs without a log (the log is not saved for `reason`); otherwise it fails.
pub fn logger_launch_failure(
    policy: SessionLogLaunchFailurePolicy,
    reason: &str,
    error: &str,
    duration_ms: i64,
) -> (r: LoggerFailureStep)
    ensures
        policy == SessionLogLaunchFailurePolicy::FallbackToPlain ==> (r matches LoggerFailureStep::RunPlain {
            notice,
            session_log,
        } && notice@ == "TeraDock session logging failed to start ("@ + error@
            + "); continuing without logging."@ && !session_log.saved && (session_log.reason matches Some(x)
            && x@ == reason@)),
        policy == SessionLogLaunchFailurePolicy::FailSession ==> (r matches LoggerFailureStep::Fail(
            SshRunResult::LaunchFailed { error: e, duration_ms: d, session_log },
        ) && e@ == error@ && d == duration_ms && !session_log.saved && (session_log.reason matches Some(x)
            && x@ == reason@)),
{
    if policy.fallback_to_plain() {
        let notice = concat3("TeraDock session logging failed to start (", error, "); continuing without logging.");
        proof {
            reveal_strlit("TeraDock session logging failed to start (");
            reveal_strlit("); continuing without logging.");
        }
        LoggerFailureStep::RunPlain { notice, session_log: SessionLogReference::not_saved(reason) }
    } else {
        LoggerFailureStep::Fail(
            SshRunResult::LaunchFailed {
                error: owned(error),
                duration_ms,
                session_log: SessionLogReference::not_saved(reason),
            },
        )
    }
}

/// The log reference of a recorded session: saved under its id, or not saved because its
/// metadata could not be completed or written (with that error's text).
pub fn recorded_session_reference(completed: Result<&str, &str>) -> (r: SessionLogReference)
    ensures
        match completed {
            Ok(id) => r.saved && (r.session_id matches Some(x) && x@ == id@) && r.reason is None,
            Err(e) => !r.saved && r.session_id is None && (r.reason matches Some(x) && x@
                == SESSION_LOG_REASON_METADATA_WRITE_FAILED@ + ": "@ + e@),
        },
{
    match completed {
        Ok(id) => SessionLogReference::saved(id),
        Err(e) => {
            let reason = concat3(SESSION_LOG_REASON_METADATA_WRITE_FAILED, ": ", e);
            proof {
                reveal_strlit(": ");
            }
            SessionLogReference::not_saved(reason.as_str())
        },
    }
}

/// The operation-log row of an interactive SSH session: its outcome and metadata (with the
/// launch error, if it failed to start).
pub fn connect_log_entry(invocation: &SshInvocation, result: &SshRunResult) -> (r: OpLogEntry)
    ensures
        r.op@ == "connect"@,
        r.profile_id matches Some(p) && p@ == invocation.target.profile_id@,
        r.client_used matches Some(c) && c@ == invocation.client_path@,
        match *result {
            SshRunResult::Completed { ok, exit_code, duration_ms, session_log } => {
                &&& r.ok == ok
                &&& r.exit_code == exit_code
                &&& r.duration_ms == Some(duration_ms)
                &&& r.meta_json matches Some(m) && m@ == with_reference(
                    safe_metadata_map(invocation.safe_metadata),
                    session_log,
                )
            },
            SshRunResult::LaunchFailed { error, duration_ms, session_log } => {
                &&& !r.ok
                &&& r.exit_code is None
                &&& r.duration_ms == Some(duration_ms)
                &&& r.meta_json matches Some(m) && m@ == with_reference(
                    safe_metadata_map(invocation.safe_metadata).insert(
                        "launch_error"@,
                        MetaValueView::Text(error@),
                    ),
                    session_log,
                )
            },
        },
{
    let op = owned("connect");
    proof {
        reveal_strlit("connect");
    }
    match result {
        SshRunResult::Completed { ok, exit_code, duration_ms, session_log } => OpLogEntry {
            op,
            profile_id: Some(invocation.target.profile_id.clone()),
            client_used: Some(invocation.client_path.clone()),
            ok: *ok,
            exit_code: *exit_code,
            duration_ms: Some(*duration_ms),
            meta_json: Some(connect_meta(&invocation.safe_metadata, None, session_log)),
        },
        SshRunResult::LaunchFailed { error, duration_ms, session_log } => OpLogEntry {
            op,
            profile_id: Some(invocation.target.profile_id.clone()),
            client_used: Some(invocation.client_path.clone()),
            ok: false,
            exit_code: None,
            duration_ms: Some(*duration_ms),
            meta_json: Some(connect_meta(&invocation.safe_metadata, Some(error.as_str()), session_log)),
        },
    }
}

/// How the command ends after an interactive session: success, or the error to report.
pub fn connect_outcome(result: &SshRunResult) -> (r: Result<(), String>)
    ensures
        match *result {
            SshRunResult::Completed { ok, exit_code, .. } => if ok {
                r is Ok
            } else {
                match exit_code {
                    Some(c) => r matches Err(m) && m@ == "ssh exited with code "@ + signed_decimal(c as int),
                    None => r matches Err(m) && m@ == "ssh ended without exit code"@,
                }
            },
            SshRunResult::LaunchFailed { error, .. } => r matches Err(m) && m@ == error@,
        },
{
    match result {
        SshRunResult::Completed { ok, exit_code, .. } => {
            if *ok {
                Ok(())
            } else {
                match exit_code {
                    Some(c) => {
                        let n = i64_to_string(*c as i64);
                        let m = concat2("ssh exited with code ", n.as_str());
                        proof {
                            reveal_strlit("ssh exited with code ");
                        }
                        Err(m)
                    },
                    None => {
                        let m = owned("ssh ended without exit code");
                        proof {
                            reveal_strlit("ssh ended without exit code");
                        }
                        Err(m)
                    },
                }
            }
        },
        SshRunResult::LaunchFailed { error, .. } => Err(error.clone()),
    }
}

} // verus!
