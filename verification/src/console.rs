use vstd::prelude::*;

use crate::cmdset::{NewCmdSet, NewCmdStep, StepOnError};
use crate::conpty_log::{decode_utf8_lossy, lossy_text};
use crate::error::CoreError;
use crate::parser::ParserSpec;
use crate::profile::{Profile, ProfileType};
use crate::session_log::{
    add_reference_to_meta, notice_spec, with_reference, SessionLogMetadata, SessionLogPlan,
    SessionLogReference,
};
use crate::settings::SettingScopeKind;
use crate::settings_registry::{key_index, list_keys, scope_supported, scopes_at, setting_keys};
use crate::ssh::{format_auth_order, format_auth_order_spec, safe_metadata_map, MetaObject, MetaValue, MetaValueView, SafeSshMetadata, SshAuthContext};
use crate::text::{
    ascii_lower, chars_ascii_lower, chars_eq, chars_eq_str, chars_of, concat2, concat3, decimal,
    join, join_strings, owned, signed_decimal, slice_chars, split_once, split_once_chars,
    string_from_chars, strings_view, trim, trim_chars, i64_to_string, u64_to_string, append_chars,
    u64_to_decimal,
};

verus! {

/// Whether a debug switch's value turns debugging on: `1`, `true`, `yes` or `on`, ignoring
/// surrounding whitespace and ASCII case.
pub open spec fn debug_flag_spec(value: Option<Seq<char>>) -> bool {
    match value {
        Some(v) => {
            let t = ascii_lower(trim(v));
            t == "1"@ || t == "true"@ || t == "yes"@ || t == "on"@
        },
        None => false,
    }
}

/// Whether the debug switch is on, given the variable's value (`None` when it is unset).
pub fn debug_flag_enabled(value: Option<&str>) -> (r: bool)
    ensures
        r == debug_flag_spec(match value {
            Some(v) => Some(v@),
            None => None,
        }),
{
    match value {
        None => false,
        Some(v) => {
            let chars = chars_of(v);
            let t = chars_ascii_lower(&trim_chars(&chars));
            proof {
                reveal_strlit("1");
                reveal_strlit("true");
                reveal_strlit("yes");
                reveal_strlit("on");
            }
            chars_eq_str(&t, "1") || chars_eq_str(&t, "true") || chars_eq_str(&t, "yes")
                || chars_eq_str(&t, "on")
        },
    }
}

/// Whether an answer to a prompt is the expected word, ignoring surrounding whitespace and
/// ASCII case.
pub open spec fn confirms(input: Seq<char>, word: Seq<char>) -> bool {
    ascii_lower(trim(input)) == ascii_lower(word)
}

/// Whether `input` confirms a prompt that asked for `word`.
pub fn is_confirmed(input: &str, word: &str) -> (r: bool)
    ensures
        r == confirms(input@, word@),
{
    let a = chars_ascii_lower(&trim_chars(&chars_of(input)));
    let b = chars_ascii_lower(&chars_of(word));
    chars_eq(&a, &b)
}

/// The question asked before connecting to a critical profile.
pub open spec fn danger_prompt_spec(p: Profile) -> Seq<char> {
    "Profile '"@ + p.profile_id@ + "' is marked critical. Proceed with connect to "@ + p.user@ + "@"@
        + p.host@ + ":"@ + decimal(p.port as nat) + " ?"@
}

/// The question asked before connecting to a critical profile.
pub fn danger_prompt(p: &Profile) -> (r: String)
    ensures
        r@ == danger_prompt_spec(*p),
{
    let mut s = concat3("Profile '", p.profile_id.as_str(), "' is marked critical. Proceed with connect to ");
    s.append(p.user.as_str());
    s.append("@");
    s.append(p.host.as_str());
    s.append(":");
    let port = u64_to_string(p.port as u64);
    s.append(port.as_str());
    s.append(" ?");
    proof {
        reveal_strlit("Profile '");
        reveal_strlit("' is marked critical. Proceed with connect to ");
        reveal_strlit("@");
        reveal_strlit(":");
        reveal_strlit(" ?");
    }
    s
}

/// How a recent session's outcome is shown.
pub open spec fn recent_status_spec(ok: bool, exit_code: Option<i32>) -> Seq<char> {
    match exit_code {
        Some(c) => if ok {
            "ok exit "@ + signed_decimal(c as int)
        } else {
            "failed exit "@ + signed_decimal(c as int)
        },
        None => if ok {
            "ok without exit code"@
        } else {
            "failed without exit code"@
        },
    }
}

/// How a recent session's outcome is shown.
pub fn format_recent_status(ok: bool, exit_code: Option<i32>) -> (r: String)
    ensures
        r@ == recent_status_spec(ok, exit_code),
{
    proof {
        reveal_strlit("ok exit ");
        reveal_strlit("failed exit ");
        reveal_strlit("ok without exit code");
        reveal_strlit("failed without exit code");
    }
    match exit_code {
        Some(c) => {
            let code = i64_to_string(c as i64);
            if ok {
                concat2("ok exit ", code.as_str())
            } else {
                concat2("failed exit ", code.as_str())
            }
        },
        None => if ok {
            owned("ok without exit code")
        } else {
            owned("failed without exit code")
        },
    }
}

/// How a session's status is shown: the status, with its exit code when there is one.
pub open spec fn session_status_spec(status: Seq<char>, exit_code: Option<i32>) -> Seq<char> {
    match exit_code {
        Some(c) => status + " exit "@ + signed_decimal(c as int),
        None => status,
    }
}

/// How a session's status is shown.
pub fn format_session_status(metadata: &SessionLogMetadata) -> (r: String)
    ensures
        r@ == session_status_spec(metadata.status@, metadata.exit_code),
{
    match metadata.exit_code {
        Some(c) => {
            let code = i64_to_string(c as i64);
            let r = concat3(metadata.status.as_str(), " exit ", code.as_str());
            proof {
                reveal_strlit(" exit ");
            }
            r
        },
        None => metadata.status.clone(),
    }
}

/// A table cell of at most `width` characters: longer text keeps its first `width - 1`
/// characters and ends in `~`.
pub open spec fn table_cell_spec(value: Seq<char>, width: nat) -> Seq<char> {
    if value.len() <= width {
        value
    } else if width == 0 {
        seq![]
    } else {
        value.take(width - 1).push('~')
    }
}

/// A table cell of at most `width` characters.
pub fn table_cell(value: &str, width: usize) -> (r: String)
    ensures
        r@ == table_cell_spec(value@, width as nat),
        r@.len() <= width,
{
    let chars = chars_of(value);
    if chars.len() <= width {
        return owned(value);
    }
    if width == 0 {
        return String::new();
    }
    let mut kept = slice_chars(&chars, 0, width - 1);
    kept.push('~');
    proof {
        assert(kept@ =~= value@.take(width - 1).push('~'));
    }
    string_from_chars(&kept)
}

/// A path as the session listing sees it: its text, whether it is absolute, and its
/// extension (the part of the file name after the last dot), as the platform reads it.
#[derive(Debug, Clone, PartialEq, Eq)]
pub struct ShownPath {
    pub text: String,
    pub absolute: bool,
    pub extension: Option<String>,
}

/// Whether a recorded log path is shown: not blank, on one line, and absolute or ending in
/// `.log` in any ASCII case.
pub open spec fn displayable_path_spec(p: ShownPath) -> bool {
    &&& trim(p.text@).len() > 0
    &&& !p.text@.contains('\n')
    &&& !p.text@.contains('\r')
    &&& (p.absolute || (p.extension matches Some(e) && ascii_lower(e@) == "log"@))
}

fn has_char_exec(v: &Vec<char>, c: char) -> (r: bool)
    ensures
        r == v@.contains(c),
{
    let mut i: usize = 0;
    while i < v.len()
        invariant
            i <= v.len(),
            forall|k: int| 0 <= k < i ==> v@[k] != c,
        decreases v.len() - i,
    {
        if v[i] == c {
            assert(v@[i as int] == c);
            return true;
        }
        i = i + 1;
    }
    false
}

/// Whether a recorded log path is shown (see `displayable_path_spec`).
pub fn is_displayable_session_log_path(p: &ShownPath) -> (r: bool)
    ensures
        r == displayable_path_spec(*p),
{
    let chars = chars_of(p.text.as_str());
    if trim_chars(&chars).len() == 0 || has_char_exec(&chars, '\n') || has_char_exec(&chars, '\r') {
        return false;
    }
    if p.absolute {
        return true;
    }
    match &p.extension {
        Some(e) => {
            let lower = chars_ascii_lower(&chars_of(e.as_str()));
            proof {
                reveal_strlit("log");
            }
            chars_eq_str(&lower, "log")
        },
        None => false,
    }
}

/// How a session's log path is shown: the path when it is displayable, else `<none>`.
pub fn format_session_log_path(path: Option<&ShownPath>) -> (r: String)
    ensures
        match path {
            Some(p) => if displayable_path_spec(*p) {
                r@ == p.text@
            } else {
                r@ == "<none>"@
            },
            None => r@ == "<none>"@,
        },
{
    proof {
        reveal_strlit("<none>");
    }
    match path {
        None => owned("<none>"),
        Some(p) => if is_displayable_session_log_path(p) {
            p.text.clone()
        } else {
            owned("<none>")
        },
    }
}

/// The refusal of an operation that only SSH profiles support.
pub open spec fn ssh_only_message(op: Seq<char>) -> Seq<char> {
    op + " only supports SSH profiles for now"@
}

/// Refuses a profile that is not an SSH profile.
pub fn ensure_ssh_profile(profile: &Profile, op: &str) -> (r: Result<(), String>)
    ensures
        profile.profile_type == ProfileType::Ssh ==> r is Ok,
        profile.profile_type != ProfileType::Ssh ==> (r matches Err(m) && m@ == ssh_only_message(op@)),
{
    if profile.profile_type != ProfileType::Ssh {
        let m = concat2(op, " only supports SSH profiles for now");
        proof {
            reveal_strlit(" only supports SSH profiles for now");
        }
        Err(m)
    } else {
        Ok(())
    }
}

/// The refusal of agent commands without an agent socket.
pub open spec fn no_agent_socket_message() -> Seq<char> {
    "SSH_AUTH_SOCK is not set; start ssh-agent before using td agent"@
}

/// Refuses agent commands when no agent socket is known.
pub fn ensure_agent_socket(auth_sock: Option<&str>) -> (r: Result<(), String>)
    ensures
        auth_sock is Some ==> r is Ok,
        auth_sock is None ==> (r matches Err(m) && m@ == no_agent_socket_message()),
{
    match auth_sock {
        Some(_) => Ok(()),
        None => {
            let m = owned("SSH_AUTH_SOCK is not set; start ssh-agent before using td agent");
            proof {
                reveal_strlit("SSH_AUTH_SOCK is not set; start ssh-agent before using td agent");
            }
            Err(m)
        },
    }
}

/// The detail of a failed `ssh-add`: the trimmed standard error and output, labelled, one
/// per line; or the exit status when both are empty.
pub open spec fn ssh_add_detail(stdout: Seq<char>, stderr: Seq<char>, status: Seq<char>) -> Seq<char> {
    let out = trim(stdout);
    let err = trim(stderr);
    if err.len() == 0 && out.len() == 0 {
        "exit status: "@ + status
    } else if out.len() == 0 {
        "stderr: "@ + err
    } else if err.len() == 0 {
        "stdout: "@ + out
    } else {
        "stderr: "@ + err + "\n"@ + "stdout: "@ + out
    }
}

/// The outcome of an `ssh-add` run: nothing on success, else `<label> failed: <detail>`.
/// `status` is how the platform shows the process's exit status.
pub fn ssh_add_outcome(success: bool, stdout: &Vec<u8>, stderr: &Vec<u8>, status: &str, label: &str) -> (r:
    Result<(), String>)
    ensures
        success ==> r is Ok,
        !success ==> (r matches Err(m) && m@ == label@ + " failed: "@ + ssh_add_detail(
            lossy_text(stdout@),
            lossy_text(stderr@),
            status@,
        )),
{
    if success {
        return Ok(());
    }
    let out = trim_chars(&decode_utf8_lossy(stdout));
    let err = trim_chars(&decode_utf8_lossy(stderr));
    let out_s = string_from_chars(&out);
    let err_s = string_from_chars(&err);
    proof {
        reveal_strlit("exit status: ");
        reveal_strlit("stderr: ");
        reveal_strlit("stdout: ");
        reveal_strlit("\n");
        reveal_strlit(" failed: ");
    }
    let detail = if err.len() == 0 && out.len() == 0 {
        concat2("exit status: ", status)
    } else if out.len() == 0 {
        concat2("stderr: ", err_s.as_str())
    } else if err.len() == 0 {
        concat2("stdout: ", out_s.as_str())
    } else {
        let mut d = concat2("stderr: ", err_s.as_str());
        d.append("\n");
        d.append("stdout: ");
        d.append(out_s.as_str());
        d
    };
    Err(concat3(label, " failed: ", detail.as_str()))
}

/// The refusal of an unknown setting key, which lists the known keys.
pub open spec fn unknown_key_message(key: Seq<char>) -> Seq<char> {
    "unknown config key: "@ + key + "\nknown keys: "@ + join(setting_keys(), ", "@)
}

/// Refuses a key that the settings registry does not know.
pub fn ensure_known_setting(key: &str) -> (r: Result<(), String>)
    ensures
        key_index(key@) is Some ==> r is Ok,
        key_index(key@) is None ==> (r matches Err(m) && m@ == unknown_key_message(key@)),
{
    match crate::settings_registry::schema_for_key(key) {
        Some(_) => Ok(()),
        None => {
            let keys = list_keys();
            let joined = join_strings(&keys, ", ");
            let mut m = concat3("unknown config key: ", key, "\nknown keys: ");
            m.append(joined.as_str());
            proof {
                reveal_strlit("unknown config key: ");
                reveal_strlit("\nknown keys: ");
            }
            Err(m)
        },
    }
}

/// The name of a scope kind as the command line shows it.
pub open spec fn scope_kind_name(scope: SettingScopeKind) -> Seq<char> {
    match scope {
        SettingScopeKind::Global => "global"@,
        SettingScopeKind::Env => "env"@,
        SettingScopeKind::Profile => "profile"@,
    }
}

/// The name of a scope kind as the command line shows it.
pub fn format_scope_kind(scope: SettingScopeKind) -> (r: &'static str)
    ensures
        r@ == scope_kind_name(scope),
{
    proof {
        reveal_strlit("global");
        reveal_strlit("env");
        reveal_strlit("profile");
    }
    match scope {
        SettingScopeKind::Global => "global",
        SettingScopeKind::Env => "env",
        SettingScopeKind::Profile => "profile",
    }
}

/// The refusal of a key in a scope it does not support.
pub open spec fn unsupported_scope_message(key: Seq<char>, scope: SettingScopeKind) -> Seq<char> {
    "config key '"@ + key + "' does not support "@ + scope_kind_name(scope) + " scope"@
}

/// Refuses a key in a scope it does not support. An unknown key is refused with the
/// registry's message.
pub fn ensure_scope_supported(key: &str, scope: SettingScopeKind) -> (r: Result<(), String>)
    ensures
        match key_index(key@) {
            Some(i) => if scopes_at(i).contains(scope) {
                r is Ok
            } else {
                r matches Err(m) && m@ == unsupported_scope_message(key@, scope)
            },
            None => r matches Err(m) && m@ == "unknown setting '"@ + key@ + "'"@,
        },
{
    match scope_supported(key, scope) {
        Err(CoreError::InvalidSetting(m)) => Err(m),
        Err(_) => Err(String::new()),
        Ok(true) => Ok(()),
        Ok(false) => {
            let mut m = concat3("config key '", key, "' does not support ");
            m.append(format_scope_kind(scope));
            m.append(" scope");
            proof {
                reveal_strlit("config key '");
                reveal_strlit("' does not support ");
                reveal_strlit(" scope");
            }
            Err(m)
        },
    }
}

/// An environment name: trimmed, and not empty.
pub fn normalize_env_name(name: &str) -> (r: Result<String, String>)
    ensures
        trim(name@).len() > 0 ==> (r matches Ok(n) && n@ == trim(name@)),
        trim(name@).len() == 0 ==> (r matches Err(m) && m@ == "env name cannot be empty"@),
{
    let t = trim_chars(&chars_of(name));
    if t.len() == 0 {
        let m = owned("env name cannot be empty");
        proof {
            reveal_strlit("env name cannot be empty");
        }
        return Err(m);
    }
    Ok(string_from_chars(&t))
}

/// The environment and key of `NAME.KEY`: split at the first dot, both parts trimmed.
pub open spec fn env_key_parts(raw: Seq<char>) -> (Seq<char>, Seq<char>) {
    let (a, b) = split_once(raw, '.');
    (trim(a), match b {
        Some(k) => trim(k),
        None => seq![],
    })
}

/// Reads `NAME.KEY`; both parts must be non-empty after trimming.
pub fn parse_env_key(raw: &str) -> (r: Result<(String, String), String>)
    ensures
        env_key_parts(raw@).0.len() > 0 && env_key_parts(raw@).1.len() > 0 ==> (r matches Ok((e, k))
            && e@ == env_key_parts(raw@).0 && k@ == env_key_parts(raw@).1),
        env_key_parts(raw@).0.len() == 0 || env_key_parts(raw@).1.len() == 0 ==> (r matches Err(m) && m@
            == "env setting must be in the form NAME.KEY"@),
{
    let (a, b) = split_once_chars(&chars_of(raw), '.');
    let env = trim_chars(&a);
    let key = match b {
        Some(k) => trim_chars(&k),
        None => Vec::new(),
    };
    if env.len() == 0 || key.len() == 0 {
        let m = owned("env setting must be in the form NAME.KEY");
        proof {
            reveal_strlit("env setting must be in the form NAME.KEY");
        }
        return Err(m);
    }
    Ok((string_from_chars(&env), string_from_chars(&key)))
}

/// The startup timeout of the ConPTY test, in seconds: none for zero.
pub fn conpty_startup_timeout(seconds: u64) -> (r: Option<u64>)
    ensures
        seconds > 0 ==> r == Some(seconds),
        seconds == 0 ==> r is None,
{
    if seconds > 0 {
        Some(seconds)
    } else {
        None
    }
}

/// The warning shown with a notice when a terminal log will be captured.
pub open spec fn capture_warning() -> Seq<char> {
    "TeraDock does not mask terminal output; passwords, tokens, or secrets shown on screen may be captured."@
}

/// The lines shown before a session about its log: the plan's notice, followed by the
/// capture warning when a script or transcript will record the terminal.
pub open spec fn session_log_notice_lines(plan: SessionLogPlan) -> Seq<Seq<char>> {
    match notice_spec(plan) {
        None => seq![],
        Some(n) => match plan {
            SessionLogPlan::Script { .. } => seq![n, capture_warning()],
            SessionLogPlan::PowerShellTranscript { .. } => seq![n, capture_warning()],
            _ => seq![n],
        },
    }
}

/// The lines shown before a session about its log.
pub fn session_log_notices(plan: &SessionLogPlan) -> (r: Vec<String>)
    ensures
        strings_view(r@) == session_log_notice_lines(*plan),
{
    let mut lines: Vec<String> = Vec::new();
    match plan.notice() {
        None => {},
        Some(n) => {
            lines.push(n);
            let capture = match plan {
                SessionLogPlan::Script { .. } => true,
                SessionLogPlan::PowerShellTranscript { .. } => true,
                _ => false,
            };
            if capture {
                lines.push(
                    owned(
                        "TeraDock does not mask terminal output; passwords, tokens, or secrets shown on screen may be captured.",
                    ),
                );
                proof {
                    reveal_strlit(
                        "TeraDock does not mask terminal output; passwords, tokens, or secrets shown on screen may be captured.",
                    );
                }
            }
        },
    }
    proof {
        assert(strings_view(lines@) =~= session_log_notice_lines(*plan));
    }
    lines
}

/// The warning about falling back to password authentication.
pub open spec fn password_fallback_warning_spec(order: Seq<crate::ssh::SshAuthMethod>) -> Seq<char> {
    "Warning: falling back to password auth (order: "@ + format_auth_order_spec(order) + ")."@
}

/// The lines shown about SSH authentication: the hint, then the fallback warning.
pub open spec fn auth_message_lines(auth: SshAuthContext) -> Seq<Seq<char>> {
    let hint: Seq<Seq<char>> = match auth.hint {
        Some(h) => seq![h@],
        None => seq![],
    };
    if auth.warn_password_fallback {
        hint.push(password_fallback_warning_spec(auth.order@))
    } else {
        hint
    }
}

/// The lines shown about SSH authentication.
pub fn auth_messages(auth: &SshAuthContext) -> (r: Vec<String>)
    ensures
        strings_view(r@) == auth_message_lines(*auth),
{
    let mut lines: Vec<String> = Vec::new();
    match &auth.hint {
        Some(h) => lines.push(h.clone()),
        None => {},
    }
    if auth.warn_password_fallback {
        let order = format_auth_order(&auth.order);
        let w = concat3("Warning: falling back to password auth (order: ", order.as_str(), ").");
        proof {
            reveal_strlit("Warning: falling back to password auth (order: ");
            reveal_strlit(").");
        }
        lines.push(w);
    }
    proof {
        assert(strings_view(lines@) =~= auth_message_lines(*auth));
    }
    lines
}

/// The metadata logged for an SSH connection: the safe metadata, the launch error if any,
/// and the session-log reference.
pub fn connect_meta(safe: &SafeSshMetadata, launch_error: Option<&str>, reference: &SessionLogReference) -> (r:
    MetaObject)
    ensures
        r@ == with_reference(
            match launch_error {
                Some(e) => safe_metadata_map(*safe).insert("launch_error"@, MetaValueView::Text(e@)),
                None => safe_metadata_map(*safe),
            },
            *reference,
        ),
{
    let mut meta = MetaObject { entries: safe.entries() };
    match launch_error {
        Some(e) => {
            meta.insert("launch_error", MetaValue::Text(owned(e)));
            proof {
                reveal_strlit("launch_error");
            }
        },
        None => {},
    }
    add_reference_to_meta(&mut meta, reference);
    meta
}

/// Whether installing a sample created it or found it already there.
#[derive(Debug, Clone, Copy, PartialEq, Eq, Structural)]
pub enum SampleInstallStatus {
    Created,
    Skipped,
}

impl SampleInstallStatus {
    /// The word shown for the status.
    pub fn as_str(&self) -> (r: &'static str)
        ensures
            r@ == (match *self {
                SampleInstallStatus::Created => "created"@,
                SampleInstallStatus::Skipped => "skipped"@,
            }),
    {
        proof {
            reveal_strlit("created");
            reveal_strlit("skipped");
        }
        match self {
            SampleInstallStatus::Created => "created",
            SampleInstallStatus::Skipped => "skipped",
        }
    }
}

/// What installing one sample command set did.
#[derive(Debug, Clone, PartialEq, Eq)]
pub struct SampleInstallResult {
    pub cmdset_id: String,
    pub status: SampleInstallStatus,
}

/// The identifier of the sample command set.
pub const SAMPLE_CMDSET_ID: &'static str = "linux-basic-check";

/// The commands of the sample command set, in order.
pub open spec fn sample_commands() -> Seq<Seq<char>> {
    seq!["uname -a"@, "uptime"@, "df -h"@, "free -m"@, "systemctl --failed || true"@]
}

/// The sample command set: five read-only Linux checks, each with a 10 s limit, going on
/// after a failure, with raw output.
pub fn linux_basic_check_sample() -> (r: NewCmdSet)
    ensures
        r.cmdset_id matches Some(id) && id@ == SAMPLE_CMDSET_ID@,
        r.name@ == "Linux basic check"@,
        r.vars is None,
        r.steps@.len() == 5,
        forall|i: int| 0 <= i < 5 ==> (#[trigger] r.steps@[i]).cmd@ == sample_commands()[i] && r.steps@[i].timeout_ms
            == Some(10_000u64) && r.steps@[i].on_error == StepOnError::Continue && r.steps@[i].parser_spec
            == ParserSpec::Raw,
{
    let commands: [&str; 5] = ["uname -a", "uptime", "df -h", "free -m", "systemctl --failed || true"];
    proof {
        reveal_strlit("uname -a");
        reveal_strlit("uptime");
        reveal_strlit("df -h");
        reveal_strlit("free -m");
        reveal_strlit("systemctl --failed || true");
        reveal_strlit("linux-basic-check");
        reveal_strlit("Linux basic check");
    }
    let mut steps: Vec<NewCmdStep> = Vec::new();
    let mut i: usize = 0;
    while i < 5
        invariant
            i <= 5,
            steps@.len() == i,
            forall|k: int| 0 <= k < 5 ==> commands@[k]@ == sample_commands()[k],
            forall|j: int| 0 <= j < i ==> (#[trigger] steps@[j]).cmd@ == sample_commands()[j] && steps@[j].timeout_ms
                == Some(10_000u64) && steps@[j].on_error == StepOnError::Continue && steps@[j].parser_spec
                == ParserSpec::Raw,
        decreases 5 - i,
    {
        steps.push(
            NewCmdStep {
                cmd: owned(commands[i]),
                timeout_ms: Some(10_000),
                on_error: StepOnError::Continue,
                parser_spec: ParserSpec::Raw,
            },
        );
        i = i + 1;
    }
    NewCmdSet {
        cmdset_id: Some(owned(SAMPLE_CMDSET_ID)),
        name: owned("Linux basic check"),
        vars: None,
        steps,
    }
}

/// What installing the sample does: it is skipped when a command set with its id exists.
pub fn sample_install_status(already_present: bool) -> (r: SampleInstallStatus)
    ensures
        r == (if already_present {
            SampleInstallStatus::Skipped
        } else {
            SampleInstallStatus::Created
        }),
{
    if already_present {
        SampleInstallStatus::Skipped
    } else {
        SampleInstallStatus::Created
    }
}

/// Whether a year of the proleptic Gregorian calendar is a leap year.
pub open spec fn is_leap_year(y: int) -> bool {
    y % 4 == 0 && (y % 100 != 0 || y % 400 == 0)
}

/// The number of days of a year.
pub open spec fn year_length(y: int) -> int {
    if is_leap_year(y) {
        366
    } else {
        365
    }
}

/// The number of days of a month (1 to 12) of a year.
pub open spec fn days_in_month(y: int, m: int) -> int {
    if m == 2 {
        if is_leap_year(y) {
            29
        } else {
            28
        }
    } else if m == 4 || m == 6 || m == 9 || m == 11 {
        30
    } else {
        31
    }
}

/// Whether (year, month, day) is a date of the proleptic Gregorian calendar.
pub open spec fn valid_date(y: int, m: int, d: int) -> bool {
    1 <= m <= 12 && 1 <= d <= days_in_month(y, m)
}

/// The leap years among the years 1 to `n`, counted from a fixed origin (also for `n` below 1).
pub open spec fn leaps_through(n: int) -> int {
    n / 4 - n / 100 + n / 400
}

/// The days from 1970-01-01 to the first day of year `y` (negative before 1970).
pub open spec fn days_before_year(y: int) -> int {
    365 * (y - 1970) + leaps_through(y - 1) - leaps_through(1969)
}

/// The days of a year before the first day of month `m`.
pub open spec fn days_before_month(y: int, m: int) -> int {
    let common = if m <= 1 {
        0int
    } else if m == 2 {
        31
    } else if m == 3 {
        59
    } else if m == 4 {
        90
    } else if m == 5 {
        120
    } else if m == 6 {
        151
    } else if m == 7 {
        181
    } else if m == 8 {
        212
    } else if m == 9 {
        243
    } else if m == 10 {
        273
    } else if m == 11 {
        304
    } else {
        334
    };
    if m > 2 && is_leap_year(y) {
        common + 1
    } else {
        common
    }
}

/// The day number of a date: the days from 1970-01-01 to it.
pub open spec fn days_from_civil(y: int, m: int, d: int) -> int {
    days_before_year(y) + days_before_month(y, m) + d - 1
}

/// The date whose day number is `z`.
pub open spec fn civil_date_of_day(z: int) -> (int, int, int) {
    choose|t: (int, int, int)| valid_date(t.0, t.1, t.2) && days_from_civil(t.0, t.1, t.2) == z
}

proof fn lemma_leaps_step(y: int)
    ensures
        leaps_through(y) - leaps_through(y - 1) == if is_leap_year(y) {
            1int
        } else {
            0int
        },
{
    assert(y / 4 - (y - 1) / 4 == if y % 4 == 0 { 1int } else { 0int }) by (nonlinear_arith);
    assert(y / 100 - (y - 1) / 100 == if y % 100 == 0 { 1int } else { 0int }) by (nonlinear_arith);
    assert(y / 400 - (y - 1) / 400 == if y % 400 == 0 { 1int } else { 0int }) by (nonlinear_arith);
    assert(y % 100 == 0 ==> y % 4 == 0) by (nonlinear_arith);
    assert(y % 400 == 0 ==> y % 100 == 0) by (nonlinear_arith);
}

proof fn lemma_year_step(y: int)
    ensures
        days_before_year(y + 1) == days_before_year(y) + year_length(y),
{
    lemma_leaps_step(y);
}

proof fn lemma_years_ordered(y1: int, y2: int)
    requires
        y1 < y2,
    ensures
        days_before_year(y1) + year_length(y1) <= days_before_year(y2),
    decreases y2 - y1,
{
    lemma_year_step(y1);
    if y1 + 1 < y2 {
        lemma_years_ordered(y1 + 1, y2);
    }
}

proof fn lemma_day_of_year_bounds(y: int, m: int, d: int)
    requires
        valid_date(y, m, d),
    ensures
        0 <= days_before_month(y, m) + d - 1 < year_length(y),
        m < 12 ==> days_before_month(y, m) + d - 1 < days_before_month(y, m + 1),
{
}

proof fn lemma_months_ordered(y: int, m1: int, m2: int)
    requires
        1 <= m1 < m2 <= 12,
    ensures
        days_before_month(y, m1 + 1) <= days_before_month(y, m2),
{
}

/// Two dates with one day number are the same date.
pub proof fn lemma_day_number_unique(y1: int, m1: int, d1: int, y2: int, m2: int, d2: int)
    requires
        valid_date(y1, m1, d1),
        valid_date(y2, m2, d2),
        days_from_civil(y1, m1, d1) == days_from_civil(y2, m2, d2),
    ensures
        y1 == y2 && m1 == m2 && d1 == d2,
{
    lemma_day_of_year_bounds(y1, m1, d1);
    lemma_day_of_year_bounds(y2, m2, d2);
    if y1 < y2 {
        lemma_years_ordered(y1, y2);
    } else if y2 < y1 {
        lemma_years_ordered(y2, y1);
    } else if m1 < m2 {
        lemma_months_ordered(y1, m1, m2);
    } else if m2 < m1 {
        lemma_months_ordered(y1, m2, m1);
    }
}

/// The calendar date (year, month, day) of a Unix time in seconds, as the time crate's
/// `OffsetDateTime::from_unix_timestamp` gives it in UTC; `None` outside its range.
pub uninterp spec fn utc_calendar_date(secs: i64) -> Option<(i32, u8, u8)>;

/// Whether a Unix time in seconds falls in the years -9999 to 9999, which the time crate's
/// dates always cover.
pub open spec fn in_calendar_range(secs: int) -> bool {
    -377705116800 <= secs <= 253402300799
}

/// The UTC calendar date of a Unix time in seconds: in the years -9999 to 9999 the date of
/// its day; beyond them, what the time crate gives.
pub open spec fn utc_date(secs: i64) -> Option<(int, int, int)> {
    if in_calendar_range(secs as int) {
        Some(civil_date_of_day(secs / 86400))
    } else {
        match utc_calendar_date(secs) {
            Some((y, m, d)) => Some((y as int, m as int, d as int)),
            None => None,
        }
    }
}

/// `time::OffsetDateTime::from_unix_timestamp` and its year, month, day, hour, minute and
/// second. The contract claims the named date, that it is the proleptic Gregorian date of
/// the timestamp's day (days counted from 1970-01-01, rounding down), that timestamps in the
/// years -9999 to 9999 are accepted, and the time of day as the crate's source computes it
/// from the seconds within the day.
#[verifier::external_body]
fn utc_fields(secs: i64) -> (r: Option<(i32, u8, u8, u8, u8, u8)>)
    ensures
        match r {
            Some((y, mo, d, h, mi, s)) => utc_calendar_date(secs) == Some((y, mo, d)) && valid_date(
                y as int,
                mo as int,
                d as int,
            ) && days_from_civil(y as int, mo as int, d as int) == secs / 86400 && h == (secs % 86400)
                / 3600 && mi == ((secs % 86400) % 3600) / 60 && s == (secs % 86400) % 60,
            None => utc_calendar_date(secs) is None,
        },
        in_calendar_range(secs as int) ==> r is Some,
{
    match time::OffsetDateTime::from_unix_timestamp(secs) {
        Ok(dt) => Some((dt.year(), u8::from(dt.month()), dt.day(), dt.hour(), dt.minute(), dt.second())),
        Err(_) => None,
    }
}

/// Law: a date is the date of its own day number.
pub proof fn lemma_civil_date_round_trip(y: int, m: int, d: int)
    requires
        valid_date(y, m, d),
    ensures
        civil_date_of_day(days_from_civil(y, m, d)) == (y, m, d),
{
    let z = days_from_civil(y, m, d);
    let w = (y, m, d);
    assert(valid_date(w.0, w.1, w.2) && days_from_civil(w.0, w.1, w.2) == z);
    let t = civil_date_of_day(z);
    assert(valid_date(t.0, t.1, t.2) && days_from_civil(t.0, t.1, t.2) == z);
    lemma_day_number_unique(t.0, t.1, t.2, y, m, d);
}

proof fn lemma_utc_date_of_fields(secs: i64, r: Option<(i32, u8, u8, u8, u8, u8)>)
    requires
        match r {
            Some((y, mo, d, h, mi, s)) => utc_calendar_date(secs) == Some((y, mo, d)) && valid_date(
                y as int,
                mo as int,
                d as int,
            ) && days_from_civil(y as int, mo as int, d as int) == secs / 86400,
            None => utc_calendar_date(secs) is None,
        },
        in_calendar_range(secs as int) ==> r is Some,
    ensures
        match r {
            Some((y, mo, d, h, mi, s)) => utc_date(secs) == Some((y as int, mo as int, d as int)),
            None => utc_date(secs) is None,
        },
{
    if let Some((y, mo, d, h, mi, s)) = r {
        if in_calendar_range(secs as int) {
            let z = secs / 86400;
            let w = (y as int, mo as int, d as int);
            assert(valid_date(w.0, w.1, w.2) && days_from_civil(w.0, w.1, w.2) == z);
            let t = civil_date_of_day(z);
            assert(valid_date(t.0, t.1, t.2) && days_from_civil(t.0, t.1, t.2) == z);
            lemma_day_number_unique(t.0, t.1, t.2, w.0, w.1, w.2);
        }
    }
}

/// Decimal digits padded with zeros on the left to at least `width` characters.
pub open spec fn zero_padded(digits: Seq<char>, width: nat) -> Seq<char> {
    if digits.len() >= width {
        digits
    } else {
        Seq::new((width - digits.len()) as nat, |i: int| '0') + digits
    }
}

/// A number formatted with `{:0width$}`: the sign counts toward the width.
pub open spec fn signed_zero_padded(n: int, width: nat) -> Seq<char> {
    if n >= 0 {
        zero_padded(decimal(n as nat), width)
    } else {
        "-"@ + zero_padded(decimal((-n) as nat), (width - 1) as nat)
    }
}

fn pad_chars(digits: &Vec<char>, width: usize) -> (r: Vec<char>)
    ensures
        r@ == zero_padded(digits@, width as nat),
{
    let mut r: Vec<char> = Vec::new();
    if digits.len() < width {
        let k = width - digits.len();
        while r.len() < k
            invariant
                r.len() <= k,
                r@ == Seq::new(r@.len(), |i: int| '0'),
            decreases k - r.len(),
        {
            r.push('0');
            assert(r@ =~= Seq::new(r@.len(), |i: int| '0'));
        }
    }
    let ghost zeros = r@;
    append_chars(&mut r, digits);
    proof {
        if digits@.len() >= width {
            assert(zeros.len() == 0);
            assert(r@ =~= digits@);
        } else {
            assert(zeros =~= Seq::new((width - digits@.len()) as nat, |i: int| '0'));
        }
    }
    r
}

fn padded_unsigned(n: u64, width: usize) -> (r: String)
    ensures
        r@ == zero_padded(decimal(n as nat), width as nat),
{
    let digits = u64_to_decimal(n);
    string_from_chars(&pad_chars(&digits, width))
}

fn padded_signed(n: i32, width: usize) -> (r: String)
    requires
        width >= 1,
    ensures
        r@ == signed_zero_padded(n as int, width as nat),
{
    if n >= 0 {
        padded_unsigned(n as u64, width)
    } else {
        let m: u64 = (-(n as i64)) as u64;
        let tail = padded_unsigned(m, width - 1);
        let r = concat2("-", tail.as_str());
        proof {
            reveal_strlit("-");
        }
        r
    }
}

/// The whole seconds of a time in milliseconds, rounded down.
fn seconds_floor(ts_ms: i64) -> (r: i64)
    ensures
        r == ts_ms / 1000,
{
    if ts_ms >= 0 {
        ((ts_ms as u64) / 1000) as i64
    } else {
        let m: u64 = (-(ts_ms + 1)) as u64;
        let q = (m / 1000) as i64;
        assert(ts_ms / 1000 == -q - 1) by (nonlinear_arith)
            requires
                ts_ms < 0,
                m == -(ts_ms + 1),
                q == m / 1000,
        ;
        -q - 1
    }
}

/// A Unix time in milliseconds as `YYYY-MM-DDTHH:MM:SSZ` in UTC; the plain number when the
/// time is outside the calendar's range.
pub fn format_unix_ms_utc(ts_ms: i64) -> (r: String)
    ensures
        match utc_date((ts_ms / 1000) as i64) {
            Some((y, mo, d)) => r@ == signed_zero_padded(y, 4) + "-"@ + zero_padded(decimal(mo as nat), 2)
                + "-"@ + zero_padded(decimal(d as nat), 2) + "T"@ + zero_padded(
                decimal((((ts_ms / 1000) % 86400) / 3600) as nat),
                2,
            ) + ":"@ + zero_padded(decimal(((((ts_ms / 1000) % 86400) % 3600) / 60) as nat), 2) + ":"@
                + zero_padded(decimal((((ts_ms / 1000) % 86400) % 60) as nat), 2) + "Z"@,
            None => r@ == signed_decimal(ts_ms as int),
        },
{
    let secs = seconds_floor(ts_ms);
    let fields = utc_fields(secs);
    proof {
        lemma_utc_date_of_fields(secs, fields);
    }
    match fields {
        None => i64_to_string(ts_ms),
        Some((y, mo, d, h, mi, sec)) => {
            let mut out = padded_signed(y, 4);
            out.append("-");
            let a = padded_unsigned(mo as u64, 2);
            out.append(a.as_str());
            out.append("-");
            let b = padded_unsigned(d as u64, 2);
            out.append(b.as_str());
            out.append("T");
            let c = padded_unsigned(h as u64, 2);
            out.append(c.as_str());
            out.append(":");
            let e = padded_unsigned(mi as u64, 2);
            out.append(e.as_str());
            out.append(":");
            let f = padded_unsigned(sec as u64, 2);
            out.append(f.as_str());
            out.append("Z");
            proof {
                reveal_strlit("-");
                reveal_strlit("T");
                reveal_strlit(":");
                reveal_strlit("Z");
            }
            out
        },
    }
}

} // verus!
