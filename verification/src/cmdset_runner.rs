use vstd::prelude::*;

use crate::cmdset::{CmdStep, StepOnError};
use crate::conpty_log::{decode_utf8_lossy, lossy_text};
use crate::error::{error_text, CoreError};
use crate::oplog::OpLogEntry;
use crate::parser::{parse_output, parsed_as, ParsedOutput, ParserDefinition};
use crate::profile::{Profile, ProfileType};
use crate::ssh::{build_ssh_args, ssh_args_spec, MetaObject, MetaValue, MetaValueView, SshTarget};
use crate::text::{concat2, decimal, owned, signed_decimal, string_from_chars, strings_view, u64_to_string, i64_to_string};

verus! {

/// What one step of a run gave.
#[derive(Debug, Clone)]
pub struct CmdStepRunResult {
    pub ord: i64,
    pub cmd: String,
    pub ok: bool,
    pub exit_code: i32,
    pub duration_ms: i64,
    pub stdout: String,
    pub stderr: String,
    pub parsed: ParsedOutput,
}

/// What a whole run gave.
#[derive(Debug, Clone)]
pub struct CmdSetRunResult {
    pub ok: bool,
    pub exit_code: i32,
    pub duration_ms: i64,
    pub stdout: String,
    pub stderr: String,
    pub steps: Vec<CmdStepRunResult>,
}

/// The message of a run on a non-SSH profile.
pub open spec fn msg_ssh_only() -> Seq<char> {
    "run only supports SSH profiles for now"@
}

/// The message of a command set without steps.
pub open spec fn msg_no_steps(cmdset_id: Seq<char>) -> Seq<char> {
    "cmdset has no steps: "@ + cmdset_id
}

/// Checks a run before any step runs: the profile must exist and be an SSH profile, the
/// command set must exist and have steps.
pub fn check_run_request(
    profile: Option<&Profile>,
    profile_id: &str,
    cmdset_exists: bool,
    cmdset_id: &str,
    step_count: usize,
) -> (r: Result<(), CoreError>)
    ensures
        profile is None ==> (r matches Err(CoreError::NotFound(m)) && m@ == profile_id@),
        profile matches Some(p) ==> (p.profile_type != ProfileType::Ssh ==> (r matches Err(e) && e is InvalidCommandSpec && error_text(e) == Some(msg_ssh_only()))),
        profile matches Some(p) ==> (p.profile_type == ProfileType::Ssh && !cmdset_exists ==> (r matches Err(CoreError::NotFound(m)) && m@ == cmdset_id@)),
        profile matches Some(p) ==> (p.profile_type == ProfileType::Ssh && cmdset_exists && step_count == 0 ==> (r matches Err(e) && e is InvalidCommandSpec && error_text(e) == Some(msg_no_steps(cmdset_id@)))),
        r is Ok <==> (profile matches Some(p) && p.profile_type == ProfileType::Ssh && cmdset_exists && step_count > 0),
{
    let p = match profile {
        Some(p) => p,
        None => return Err(CoreError::NotFound(owned(profile_id))),
    };
    if p.profile_type != ProfileType::Ssh {
        let r = Err(CoreError::InvalidCommandSpec(owned("run only supports SSH profiles for now")));
        proof {
            reveal_strlit("run only supports SSH profiles for now");
        }
        return r;
    }
    if !cmdset_exists {
        return Err(CoreError::NotFound(owned(cmdset_id)));
    }
    if step_count == 0 {
        let m = concat2("cmdset has no steps: ", cmdset_id);
        proof {
            reveal_strlit("cmdset has no steps: ");
        }
        return Err(CoreError::InvalidCommandSpec(m));
    }
    Ok(())
}

/// The arguments of the SSH command that runs one step: `-p PORT`, the auth arguments,
/// `user@host`, then the step's command.
pub fn step_ssh_args(target: &SshTarget, auth_args: &Vec<String>, cmd: &str) -> (r: Vec<String>)
    ensures
        strings_view(r@) == ssh_args_spec(target.port, strings_view(auth_args@), target.user@, target.host@).push(cmd@),
{
    let mut args = build_ssh_args(target, auth_args);
    let ghost before = strings_view(args@);
    args.push(owned(cmd));
    assert(strings_view(args@) =~= before.push(cmd@));
    args
}

/// The reason a step that ran out of time reports.
pub open spec fn timeout_reason_spec(timeout_ms: u64) -> Seq<char> {
    "timeout after "@ + decimal(timeout_ms as nat) + "ms"@
}

/// `timeout after <ms>ms`.
pub fn timeout_reason(timeout_ms: u64) -> (r: String)
    ensures
        r@ == timeout_reason_spec(timeout_ms),
{
    let mut s = owned("timeout after ");
    let n = u64_to_string(timeout_ms);
    s.append(n.as_str());
    s.append("ms");
    proof {
        reveal_strlit("timeout after ");
        reveal_strlit("ms");
    }
    s
}

/// The message of a step whose command could not be run to the end within its time.
pub open spec fn step_timeout_message(ord: i64, timeout_ms: u64, reason: Seq<char>) -> Seq<char> {
    "step "@ + signed_decimal(ord as int) + " timed out after "@ + decimal(timeout_ms as nat) + "ms: "@
        + reason
}

/// The error of a step with a time limit whose command failed or ran out of time.
pub fn step_timeout_error(ord: i64, timeout_ms: u64, reason: &str) -> (r: CoreError)
    ensures
        r is CommandExecution && error_text(r) == Some(step_timeout_message(ord, timeout_ms, reason@)),
{
    let mut s = owned("step ");
    let o = i64_to_string(ord);
    s.append(o.as_str());
    s.append(" timed out after ");
    let n = u64_to_string(timeout_ms);
    s.append(n.as_str());
    s.append("ms: ");
    s.append(reason);
    proof {
        reveal_strlit("step ");
        reveal_strlit(" timed out after ");
        reveal_strlit("ms: ");
    }
    CoreError::CommandExecution(s)
}

/// The exit code a step reports: the process's code, or 0 when it has none.
pub open spec fn reported_exit_code(code: Option<i32>) -> i32 {
    match code {
        Some(c) => c,
        None => 0,
    }
}

/// The result of a finished step: its output decoded as UTF-8 (invalid sequences replaced)
/// and read with the step's parser.
pub fn build_step_result(
    step: &CmdStep,
    exit_code: Option<i32>,
    success: bool,
    duration_ms: i64,
    stdout: &Vec<u8>,
    stderr: &Vec<u8>,
    parser: Option<&ParserDefinition>,
) -> (r: Result<CmdStepRunResult, CoreError>)
    ensures
        match r {
            Ok(x) => parsed_as(step.parser_spec, lossy_text(stdout@), parser, Ok(x.parsed)) && x.ord
                == step.ord && x.cmd@ == step.cmd@ && x.ok == success && x.exit_code
                == reported_exit_code(exit_code) && x.duration_ms == duration_ms && x.stdout@
                == lossy_text(stdout@) && x.stderr@ == lossy_text(stderr@),
            Err(e) => parsed_as(step.parser_spec, lossy_text(stdout@), parser, Err(e)),
        },
{
    let stdout_text = string_from_chars(&decode_utf8_lossy(stdout));
    let stderr_text = string_from_chars(&decode_utf8_lossy(stderr));
    let parsed = match parse_output(&step.parser_spec, stdout_text.as_str(), parser) {
        Ok(p) => p,
        Err(e) => return Err(e),
    };
    let code = match exit_code {
        Some(c) => c,
        None => 0,
    };
    Ok(
        CmdStepRunResult {
            ord: step.ord,
            cmd: step.cmd.clone(),
            ok: success,
            exit_code: code,
            duration_ms,
            stdout: stdout_text,
            stderr: stderr_text,
            parsed,
        },
    )
}

/// Whether every step succeeded.
pub open spec fn all_steps_ok(steps: Seq<CmdStepRunResult>) -> bool {
    forall|i: int| 0 <= i < steps.len() ==> #[trigger] steps[i].ok
}

/// The exit code of the last step, or 0 before any step.
pub open spec fn last_exit_code(steps: Seq<CmdStepRunResult>) -> i32 {
    if steps.len() == 0 {
        0
    } else {
        steps.last().exit_code
    }
}

/// The standard output of the steps, one after the other.
pub open spec fn joined_stdout(steps: Seq<CmdStepRunResult>) -> Seq<char>
    decreases steps.len(),
{
    if steps.len() == 0 {
        seq![]
    } else {
        joined_stdout(steps.drop_last()) + steps.last().stdout@
    }
}

/// The standard error of the steps, one after the other.
pub open spec fn joined_stderr(steps: Seq<CmdStepRunResult>) -> Seq<char>
    decreases steps.len(),
{
    if steps.len() == 0 {
        seq![]
    } else {
        joined_stderr(steps.drop_last()) + steps.last().stderr@
    }
}

/// A run in progress: the steps so far and what they add up to.
#[derive(Debug, Clone)]
pub struct CmdSetRun {
    pub steps: Vec<CmdStepRunResult>,
    pub ok: bool,
    pub exit_code: i32,
    pub stdout: String,
    pub stderr: String,
}

impl CmdSetRun {
    /// Whether the totals are those of the steps: ok when every step was, the last step's
    /// exit code, and the outputs joined in order.
    pub open spec fn consistent(&self) -> bool {
        &&& self.ok == all_steps_ok(self.steps@)
        &&& self.exit_code == last_exit_code(self.steps@)
        &&& self.stdout@ == joined_stdout(self.steps@)
        &&& self.stderr@ == joined_stderr(self.steps@)
    }

    /// A run before its first step.
    pub fn new() -> (r: CmdSetRun)
        ensures
            r.consistent(),
            r.steps@.len() == 0,
    {
        CmdSetRun { steps: Vec::new(), ok: true, exit_code: 0, stdout: String::new(), stderr: String::new() }
    }

    /// Adds a finished step. Returns whether the run goes on: it stops after a failed step
    /// whose policy is `Stop`.
    pub fn record(&mut self, result: CmdStepRunResult, on_error: StepOnError) -> (go_on: bool)
        requires
            old(self).consistent(),
        ensures
            final(self).consistent(),
            final(self).steps@ == old(self).steps@.push(result),
            go_on == (result.ok || on_error == StepOnError::Continue),
    {
        let ghost old_steps = self.steps@;
        self.exit_code = result.exit_code;
        if !result.ok {
            self.ok = false;
        }
        self.stdout.append(result.stdout.as_str());
        self.stderr.append(result.stderr.as_str());
        let go_on = match on_error {
            StepOnError::Continue => true,
            StepOnError::Stop => result.ok,
        };
        self.steps.push(result);
        proof {
            let s = self.steps@;
            assert(s.drop_last() =~= old_steps);
            if self.ok {
                assert forall|i: int| 0 <= i < s.len() implies #[trigger] s[i].ok by {
                    if i < old_steps.len() {
                        assert(s[i] == old_steps[i]);
                    }
                }
            } else if result.ok {
                let j = choose|j: int| 0 <= j < old_steps.len() && !(#[trigger] old_steps[j].ok);
                assert(s[j] == old_steps[j]);
            }
        }
        go_on
    }

    /// The result of the run, with its total duration.
    pub fn finish(self, duration_ms: i64) -> (r: CmdSetRunResult)
        requires
            self.consistent(),
        ensures
            r.ok == all_steps_ok(self.steps@),
            r.exit_code == last_exit_code(self.steps@),
            r.stdout@ == joined_stdout(self.steps@),
            r.stderr@ == joined_stderr(self.steps@),
            r.steps@ == self.steps@,
            r.duration_ms == duration_ms,
    {
        CmdSetRunResult {
            ok: self.ok,
            exit_code: self.exit_code,
            duration_ms,
            stdout: self.stdout,
            stderr: self.stderr,
            steps: self.steps,
        }
    }
}

/// Which steps a run executes: at least one when there is one, never more than there are,
/// each step before the last either succeeded or continues on error, and the run stops short
/// only after a failed step whose policy is `Stop`.
pub open spec fn executed_prefix(steps: Seq<CmdStep>, results: Seq<CmdStepRunResult>) -> bool {
    &&& steps.len() > 0 ==> results.len() >= 1
    &&& results.len() <= steps.len()
    &&& forall|k: int|
        0 <= k < results.len() - 1 ==> (#[trigger] results[k]).ok || steps[k].on_error == StepOnError::Continue
    &&& results.len() < steps.len() ==> results.len() >= 1 && !results.last().ok && steps[results.len() - 1].on_error
        == StepOnError::Stop
}

/// Runs the steps of a command set in order with `exec`, which executes one step: stops after
/// a failed step whose policy is `Stop`, and at the first step that cannot be executed, whose
/// error it returns. Law: the run holds one result per executed step, each what `exec` gave
/// for that step, the executed steps are a prefix as `executed_prefix` says, and the totals are
/// those of the steps (`consistent`).
pub fn run_steps<E, F: Fn(&CmdStep) -> Result<CmdStepRunResult, E>>(steps: &Vec<CmdStep>, exec: F) -> (r: Result<
    CmdSetRun,
    E,
>)
    requires
        forall|k: int| 0 <= k < steps@.len() ==> exec.requires((&steps@[k],)),
    ensures
        match r {
            Ok(run) => {
                &&& run.consistent()
                &&& executed_prefix(steps@, run.steps@)
                &&& forall|k: int|
                    0 <= k < run.steps@.len() ==> exec.ensures(
                        (&steps@[k],),
                        Ok::<CmdStepRunResult, E>(#[trigger] run.steps@[k]),
                    )
            },
            Err(e) => exists|k: int| 0 <= k < steps@.len() && exec.ensures((&steps@[k],), Err::<CmdStepRunResult, E>(e)),
        },
{
    let mut run = CmdSetRun::new();
    let mut i: usize = 0;
    while i < steps.len()
        invariant
            i <= steps.len(),
            forall|k: int| 0 <= k < steps@.len() ==> exec.requires((&steps@[k],)),
            run.consistent(),
            run.steps@.len() == i,
            forall|k: int| 0 <= k < run.steps@.len() ==> (#[trigger] run.steps@[k]).ok || steps@[k].on_error
                == StepOnError::Continue,
            forall|k: int|
                0 <= k < run.steps@.len() ==> exec.ensures(
                    (&steps@[k],),
                    Ok::<CmdStepRunResult, E>(#[trigger] run.steps@[k]),
                ),
        decreases steps.len() - i,
    {
        let step = &steps[i];
        let result = match exec(step) {
            Ok(result) => result,
            Err(e) => {
                return Err(e);
            },
        };
        let ghost before = run.steps@;
        let go_on = run.record(result, step.on_error);
        proof {
            assert(run.steps@[i as int] == result);
            assert forall|k: int| 0 <= k < run.steps@.len() implies exec.ensures(
                (&steps@[k],),
                Ok::<CmdStepRunResult, E>(#[trigger] run.steps@[k]),
            ) by {
                if k < i {
                    assert(run.steps@[k] == before[k]);
                }
            }
        }
        if !go_on {
            proof {
                assert forall|k: int| 0 <= k < run.steps@.len() - 1 implies (#[trigger] run.steps@[k]).ok
                    || steps@[k].on_error == StepOnError::Continue by {
                    assert(run.steps@[k] == before[k]);
                }
            }
            return Ok(run);
        }
        i = i + 1;
    }
    Ok(run)
}

/// The operation-log row of a finished run.
pub fn run_log_entry(result: &CmdSetRunResult, profile_id: &str, client_used: &str, cmdset_id: &str) -> (r: OpLogEntry)
    ensures
        r.op@ == "run"@,
        r.profile_id matches Some(p) && p@ == profile_id@,
        r.client_used matches Some(c) && c@ == client_used@,
        r.ok == result.ok,
        r.exit_code == Some(result.exit_code),
        r.duration_ms == Some(result.duration_ms),
        r.meta_json matches Some(m) && m@ == Map::<Seq<char>, MetaValueView>::empty().insert(
            "cmdset_id"@,
            MetaValueView::Text(cmdset_id@),
        ).insert("steps_executed"@, MetaValueView::Count(result.steps@.len() as u64)),
{
    let mut meta = MetaObject::new();
    meta.insert("cmdset_id", MetaValue::Text(owned(cmdset_id)));
    meta.insert("steps_executed", MetaValue::Count(result.steps.len() as u64));
    let op = owned("run");
    proof {
        reveal_strlit("run");
        reveal_strlit("cmdset_id");
        reveal_strlit("steps_executed");
    }
    OpLogEntry {
        op,
        profile_id: Some(owned(profile_id)),
        client_used: Some(owned(client_used)),
        ok: result.ok,
        exit_code: Some(result.exit_code),
        duration_ms: Some(result.duration_ms),
        meta_json: Some(meta),
    }
}

} // verus!
