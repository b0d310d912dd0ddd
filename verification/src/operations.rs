use vstd::prelude::*;

use crate::error::CoreError;
use crate::oplog::OpLogEntry;
use crate::parser::{parse_output, parsed_as, ParsedOutput, ParserDefinition, ParserSpec};
use crate::profile::{DangerLevel, Profile, ProfileType};
use crate::ssh::{MetaObject};
use crate::text::{
    concat2, decimal, owned, signed_decimal, strings_view, i64_to_string, u64_to_string,
};

verus! {

/// The refusal of an unknown profile.
pub open spec fn profile_not_found_message(profile_id: Seq<char>) -> Seq<char> {
    "profile not found: "@ + profile_id
}

/// The refusal of an unknown profile.
pub fn profile_not_found(profile_id: &str) -> (r: String)
    ensures
        r@ == profile_not_found_message(profile_id@),
{
    let r = concat2("profile not found: ", profile_id);
    proof {
        reveal_strlit("profile not found: ");
    }
    r
}

/// Whether an operation on the profile must be confirmed first: it is marked critical.
pub fn needs_confirmation(profile: &Profile) -> (r: bool)
    ensures
        r == (profile.danger_level == DangerLevel::Critical),
{
    match profile.danger_level {
        DangerLevel::Critical => true,
        _ => false,
    }
}

/// An operation-log row of a finished operation on a profile.
pub fn operation_entry(
    op: &str,
    profile_id: &str,
    client_used: &str,
    ok: bool,
    exit_code: i32,
    duration_ms: i64,
    meta: Option<MetaObject>,
) -> (r: OpLogEntry)
    ensures
        r.op@ == op@,
        r.profile_id matches Some(p) && p@ == profile_id@,
        r.client_used matches Some(c) && c@ == client_used@,
        r.ok == ok,
        r.exit_code == Some(exit_code),
        r.duration_ms == Some(duration_ms),
        r.meta_json == meta,
{
    OpLogEntry {
        op: owned(op),
        profile_id: Some(owned(profile_id)),
        client_used: Some(owned(client_used)),
        ok,
        exit_code: Some(exit_code),
        duration_ms: Some(duration_ms),
        meta_json: meta,
    }
}

/// The refusals of a remote command before it runs: a command is needed, the profile must
/// exist and be an SSH profile.
pub open spec fn exec_preflight_spec(cmd_len: nat, profile: Option<Profile>, profile_id: Seq<char>) -> Option<
    Seq<char>,
> {
    if cmd_len == 0 {
        Some("no command provided; pass after --"@)
    } else {
        match profile {
            None => Some(profile_not_found_message(profile_id)),
            Some(p) => if p.profile_type != ProfileType::Ssh {
                Some("exec only supports SSH profiles for now"@)
            } else {
                None
            },
        }
    }
}

/// Checks a remote command before it runs (see `exec_preflight_spec`).
pub fn exec_preflight(cmd: &Vec<String>, profile: Option<&Profile>, profile_id: &str) -> (r: Result<(), String>)
    ensures
        match exec_preflight_spec(cmd@.len(), match profile {
            Some(p) => Some(*p),
            None => None,
        }, profile_id@) {
            None => r is Ok,
            Some(m) => r matches Err(e) && e@ == m,
        },
{
    proof {
        reveal_strlit("no command provided; pass after --");
        reveal_strlit("exec only supports SSH profiles for now");
    }
    if cmd.len() == 0 {
        return Err(owned("no command provided; pass after --"));
    }
    match profile {
        None => Err(profile_not_found(profile_id)),
        Some(p) => if p.profile_type != ProfileType::Ssh {
            Err(owned("exec only supports SSH profiles for now"))
        } else {
            Ok(())
        },
    }
}

/// The arguments of a remote command: the invocation's arguments, then the command's words.
pub fn exec_args(invocation_args: &Vec<String>, cmd: &Vec<String>) -> (r: Vec<String>)
    ensures
        strings_view(r@) == strings_view(invocation_args@) + strings_view(cmd@),
{
    let mut r: Vec<String> = Vec::new();
    let mut i: usize = 0;
    while i < invocation_args.len()
        invariant
            i <= invocation_args.len(),
            strings_view(r@) == strings_view(invocation_args@).take(i as int),
        decreases invocation_args.len() - i,
    {
        let ghost before = strings_view(r@);
        r.push(invocation_args[i].clone());
        assert(strings_view(r@) =~= before.push(invocation_args@[i as int]@));
        assert(strings_view(invocation_args@).take(i + 1) =~= strings_view(invocation_args@).take(i as int).push(
            invocation_args@[i as int]@,
        ));
        i = i + 1;
    }
    assert(strings_view(invocation_args@).take(invocation_args@.len() as int) =~= strings_view(invocation_args@));
    let mut j: usize = 0;
    while j < cmd.len()
        invariant
            j <= cmd.len(),
            strings_view(r@) == strings_view(invocation_args@) + strings_view(cmd@).take(j as int),
        decreases cmd.len() - j,
    {
        let ghost before = strings_view(r@);
        r.push(cmd[j].clone());
        assert(strings_view(r@) =~= before.push(cmd@[j as int]@));
        assert(strings_view(cmd@).take(j + 1) =~= strings_view(cmd@).take(j as int).push(cmd@[j as int]@));
        j = j + 1;
    }
    assert(strings_view(cmd@).take(cmd@.len() as int) =~= strings_view(cmd@));
    r
}

/// The error of a remote command with a time limit that failed or ran out of time.
pub fn exec_timeout_message(timeout_ms: u64, reason: &str) -> (r: String)
    ensures
        r@ == "exec timed out after "@ + decimal(timeout_ms as nat) + "ms: "@ + reason@,
{
    let mut r = owned("exec timed out after ");
    let n = u64_to_string(timeout_ms);
    r.append(n.as_str());
    r.append("ms: ");
    r.append(reason);
    proof {
        reveal_strlit("exec timed out after ");
        reveal_strlit("ms: ");
    }
    r
}

/// What a remote command's output is read as: with the given parser spec, or as JSON (an
/// empty object when it is not JSON) without one.
pub fn exec_parsed(spec: Option<&ParserSpec>, stdout: &str, parser: Option<&ParserDefinition>) -> (r: Result<
    ParsedOutput,
    CoreError,
>)
    ensures
        match spec {
            Some(s) => parsed_as(*s, stdout@, parser, r),
            None => parsed_as(ParserSpec::Json, stdout@, parser, r),
        },
{
    match spec {
        Some(s) => parse_output(s, stdout, parser),
        None => parse_output(&ParserSpec::Json, stdout, parser),
    }
}

/// The error of a remote command that exited unsuccessfully.
pub fn ssh_exit_failure(exit_code: i32) -> (r: String)
    ensures
        r@ == "ssh exited with code "@ + signed_decimal(exit_code as int),
{
    let n = i64_to_string(exit_code as i64);
    let r = concat2("ssh exited with code ", n.as_str());
    proof {
        reveal_strlit("ssh exited with code ");
    }
    r
}

/// The error of a command-set run that did not succeed.
pub fn run_failure(exit_code: i32) -> (r: String)
    ensures
        r@ == "run failed with exit code "@ + signed_decimal(exit_code as int),
{
    let n = i64_to_string(exit_code as i64);
    let r = concat2("run failed with exit code ", n.as_str());
    proof {
        reveal_strlit("run failed with exit code ");
    }
    r
}

/// Refuses a zero count for an option that must be positive, such as `--limit`.
pub fn ensure_positive(option: &str, value: usize) -> (r: Result<(), String>)
    ensures
        value > 0 ==> r is Ok,
        value == 0 ==> (r matches Err(m) && m@ == option@ + " must be greater than 0"@),
{
    if value == 0 {
        let m = concat2(option, " must be greater than 0");
        proof {
            reveal_strlit(" must be greater than 0");
        }
        return Err(m);
    }
    Ok(())
}

} // verus!
