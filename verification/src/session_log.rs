use vstd::prelude::*;

use crate::error::CoreError;
use crate::settings::{flag_is_true, opt_view, setting_flag};
use crate::ssh::{MetaObject, MetaValue, MetaValueView, SshTarget};
use crate::text::{
    ascii_lower, chars_ascii_lower, chars_eq_str, chars_of, concat2, concat3, join, join_strings,
    owned, push_owned, replace_char, replace_char_spec, str_eq, string_from_chars, strings_view,
    text_less, text_less_exec, trim, trim_chars,
};

verus! {

pub const SESSION_LOG_ENABLED_KEY: &'static str = "session.log.enabled";

pub const SESSION_LOG_DIR_KEY: &'static str = "session.log.dir";

pub const SESSION_LOG_BACKEND_KEY: &'static str = "session.log.backend";

pub const SESSION_LOG_BACKEND_AUTO: &'static str = "auto";

pub const SESSION_LOG_BACKEND_SCRIPT: &'static str = "script";

pub const SESSION_LOG_BACKEND_POWERSHELL_TRANSCRIPT: &'static str = "powershell-transcript";

pub const SESSION_LOG_BACKEND_NO_LOG: &'static str = "no-log";

pub const SESSION_LOG_REASON_DISABLED: &'static str = "disabled";

pub const SESSION_LOG_REASON_BACKEND_NO_LOG: &'static str = "backend_no_log";

pub const SESSION_LOG_REASON_SCRIPT_UNAVAILABLE: &'static str = "script_unavailable";

pub const SESSION_LOG_REASON_POWERSHELL_NOT_FOUND: &'static str = "powershell_not_found";

pub const SESSION_LOG_REASON_SSH_NOT_FOUND: &'static str = "ssh_not_found";

pub const SESSION_LOG_REASON_LOG_DIR_NOT_WRITABLE: &'static str = "log_dir_not_writable";

pub const SESSION_LOG_REASON_UNSUPPORTED_ON_WINDOWS: &'static str = "unsupported_on_windows";

pub const SESSION_LOG_REASON_UNSUPPORTED_ON_PLATFORM: &'static str = "unsupported_on_platform";

pub const SESSION_LOG_REASON_SETUP_FAILED: &'static str = "setup_failed";

pub const SESSION_LOG_REASON_SCRIPT_LAUNCH_FAILED: &'static str = "script_launch_failed";

pub const SESSION_LOG_REASON_POWERSHELL_LAUNCH_FAILED: &'static str = "powershell_launch_failed";

pub const SESSION_LOG_REASON_METADATA_WRITE_FAILED: &'static str = "metadata_write_failed";

/// How a session's terminal output is to be recorded.
#[derive(Debug, Clone, Copy, PartialEq, Eq, Structural)]
pub enum SessionLogBackendSetting {
    Auto,
    Script,
    PowerShellTranscript,
    NoLog,
}

/// The stored name of a backend setting.
pub open spec fn backend_name(b: SessionLogBackendSetting) -> Seq<char> {
    match b {
        SessionLogBackendSetting::Auto => "auto"@,
        SessionLogBackendSetting::Script => "script"@,
        SessionLogBackendSetting::PowerShellTranscript => "powershell-transcript"@,
        SessionLogBackendSetting::NoLog => "no-log"@,
    }
}

/// The backend setting whose stored name is `s`.
pub open spec fn backend_from_name(s: Seq<char>) -> Option<SessionLogBackendSetting> {
    if s == "auto"@ {
        Some(SessionLogBackendSetting::Auto)
    } else if s == "script"@ {
        Some(SessionLogBackendSetting::Script)
    } else if s == "powershell-transcript"@ {
        Some(SessionLogBackendSetting::PowerShellTranscript)
    } else if s == "no-log"@ {
        Some(SessionLogBackendSetting::NoLog)
    } else {
        None
    }
}

impl SessionLogBackendSetting {
    /// Reads a backend setting; surrounding whitespace and ASCII case are ignored.
    pub fn parse(raw: &str) -> (r: Result<SessionLogBackendSetting, CoreError>)
        ensures
            match backend_from_name(ascii_lower(trim(raw@))) {
                Some(b) => r == Ok::<SessionLogBackendSetting, CoreError>(b),
                None => r matches Err(CoreError::InvalidSetting(m)) && m@
                    == "unknown session log backend '"@ + ascii_lower(trim(raw@)) + "'"@,
            },
    {
        let chars = chars_of(raw);
        let t = trim_chars(&chars);
        let l = chars_ascii_lower(&t);
        if chars_eq_str(&l, "auto") {
            Ok(SessionLogBackendSetting::Auto)
        } else if chars_eq_str(&l, "script") {
            Ok(SessionLogBackendSetting::Script)
        } else if chars_eq_str(&l, "powershell-transcript") {
            Ok(SessionLogBackendSetting::PowerShellTranscript)
        } else if chars_eq_str(&l, "no-log") {
            Ok(SessionLogBackendSetting::NoLog)
        } else {
            let other = string_from_chars(&l);
            Err(CoreError::InvalidSetting(concat3("unknown session log backend '", other.as_str(), "'")))
        }
    }

    /// The stored name.
    pub fn as_str(&self) -> (r: &'static str)
        ensures
            r@ == backend_name(*self),
    {
        match self {
            SessionLogBackendSetting::Auto => "auto",
            SessionLogBackendSetting::Script => "script",
            SessionLogBackendSetting::PowerShellTranscript => "powershell-transcript",
            SessionLogBackendSetting::NoLog => "no-log",
        }
    }
}

/// Law: every backend setting is read back from its stored name.
pub proof fn lemma_backend_round_trip(b: SessionLogBackendSetting)
    ensures
        backend_from_name(ascii_lower(trim(backend_name(b)))) == Some(b),
{
    reveal_strlit("auto");
    reveal_strlit("script");
    reveal_strlit("powershell-transcript");
    reveal_strlit("no-log");
    let n = backend_name(b);
    assert(trim(n) == n) by {
        crate::text::lemma_trim_unchanged(n);
    }
    assert(ascii_lower(n) =~= n);
    match b {
        SessionLogBackendSetting::Auto => {},
        SessionLogBackendSetting::Script => {
            assert(n != "auto"@) by {
                assert(n.len() != "auto"@.len());
            }
        },
        SessionLogBackendSetting::PowerShellTranscript => {
            assert(n != "auto"@) by {
                assert(n.len() != "auto"@.len());
            }
            assert(n != "script"@) by {
                assert(n.len() != "script"@.len());
            }
        },
        SessionLogBackendSetting::NoLog => {
            assert(n != "auto"@) by {
                assert(n[0] != "auto"@[0]);
            }
            assert(n != "script"@) by {
                assert(n[0] != "script"@[0]);
            }
            assert(n != "powershell-transcript"@) by {
                assert(n.len() != "powershell-transcript"@.len());
            }
        },
    }
}

/// Where session logs go and how they are recorded.
#[derive(Debug, Clone, PartialEq, Eq)]
pub struct SessionLogConfig {
    pub enabled: bool,
    pub dir: String,
    pub backend: SessionLogBackendSetting,
}

/// The operating-system family the session runs on.
#[derive(Debug, Clone, Copy, PartialEq, Eq, Structural)]
pub enum SessionLogPlatform {
    Windows,
    Macos,
    Unix,
    Unknown,
}

/// The name of a platform.
pub open spec fn platform_name(p: SessionLogPlatform) -> Seq<char> {
    match p {
        SessionLogPlatform::Windows => "windows"@,
        SessionLogPlatform::Macos => "macos"@,
        SessionLogPlatform::Unix => "unix"@,
        SessionLogPlatform::Unknown => "unknown"@,
    }
}

/// Whether the `script` command can record sessions on a platform.
pub open spec fn supports_script_spec(p: SessionLogPlatform) -> bool {
    p == SessionLogPlatform::Macos || p == SessionLogPlatform::Unix
}

/// Whether PowerShell transcripts can record sessions on a platform.
pub open spec fn supports_powershell_spec(p: SessionLogPlatform) -> bool {
    p == SessionLogPlatform::Windows
}

impl SessionLogPlatform {
    /// The platform's name.
    pub fn name(self) -> (r: &'static str)
        ensures
            r@ == platform_name(self),
    {
        match self {
            SessionLogPlatform::Windows => "windows",
            SessionLogPlatform::Macos => "macos",
            SessionLogPlatform::Unix => "unix",
            SessionLogPlatform::Unknown => "unknown",
        }
    }

    /// Whether the `script` command is used on this platform.
    pub fn supports_script(self) -> (r: bool)
        ensures
            r == supports_script_spec(self),
    {
        match self {
            SessionLogPlatform::Macos | SessionLogPlatform::Unix => true,
            _ => false,
        }
    }

    /// Whether PowerShell transcripts are used on this platform.
    pub fn supports_powershell_transcript(self) -> (r: bool)
        ensures
            r == supports_powershell_spec(self),
    {
        match self {
            SessionLogPlatform::Windows => true,
            _ => false,
        }
    }
}

/// The external commands found for session logging.
#[derive(Debug, Clone, Default, PartialEq, Eq)]
pub struct SessionLogClientCommands {
    pub script: Option<String>,
    pub powershell: Option<String>,
    pub ssh: Option<String>,
}

/// The files of one logged session.
#[derive(Debug, Clone, PartialEq, Eq)]
pub struct SessionLogFiles {
    pub session_id: String,
    pub log_path: String,
    pub metadata_path: String,
}

/// What happens when the logging wrapper fails to start.
#[derive(Debug, Clone, Copy, PartialEq, Eq, Structural)]
pub enum SessionLogLaunchFailurePolicy {
    FallbackToPlain,
    FailSession,
}

impl SessionLogLaunchFailurePolicy {
    /// Whether a failed start falls back to a plain session.
    pub fn fallback_to_plain(self) -> (r: bool)
        ensures
            r == (self == SessionLogLaunchFailurePolicy::FallbackToPlain),
    {
        match self {
            SessionLogLaunchFailurePolicy::FallbackToPlain => true,
            SessionLogLaunchFailurePolicy::FailSession => false,
        }
    }
}

/// How one session is to be logged.
#[derive(Debug, Clone, PartialEq, Eq)]
pub enum SessionLogPlan {
    Disabled,
    NoLog { reason: String },
    Error { reason: String },
    Script {
        script_path: String,
        files: SessionLogFiles,
        launch_failure_policy: SessionLogLaunchFailurePolicy,
    },
    PowerShellTranscript {
        powershell_path: String,
        files: SessionLogFiles,
        launch_failure_policy: SessionLogLaunchFailurePolicy,
    },
}

/// What an operation log records of a session's log.
#[derive(Debug, Clone, PartialEq, Eq)]
pub struct SessionLogReference {
    pub saved: bool,
    pub session_id: Option<String>,
    pub reason: Option<String>,
}

impl SessionLogReference {
    /// A reference to a saved log.
    pub fn saved(session_id: &str) -> (r: SessionLogReference)
        ensures
            r.saved,
            opt_view(r.session_id) == Some(session_id@),
            r.reason is None,
    {
        SessionLogReference { saved: true, session_id: Some(owned(session_id)), reason: None }
    }

    /// A reference saying why no log was saved.
    pub fn not_saved(reason: &str) -> (r: SessionLogReference)
        ensures
            !r.saved,
            r.session_id is None,
            opt_view(r.reason) == Some(reason@),
    {
        SessionLogReference { saved: false, session_id: None, reason: Some(owned(reason)) }
    }
}

/// The reason recorded for a session whose log was not saved.
pub open spec fn not_saved_reason(p: SessionLogPlan) -> Seq<char> {
    match p {
        SessionLogPlan::Disabled => "disabled"@,
        SessionLogPlan::NoLog { reason } => reason@,
        SessionLogPlan::Error { reason } => reason@,
        SessionLogPlan::Script { .. } => "not_completed"@,
        SessionLogPlan::PowerShellTranscript { .. } => "not_completed"@,
    }
}

/// The notice shown before a session, for a plan.
pub open spec fn notice_spec(p: SessionLogPlan) -> Option<Seq<char>> {
    match p {
        SessionLogPlan::Disabled => None,
        SessionLogPlan::NoLog { reason } => Some(
            "TeraDock session logging requested but no terminal log will be saved ("@ + reason@
                + "); continuing with normal SSH."@,
        ),
        SessionLogPlan::Error { reason } => Some(
            "TeraDock session logging requested, but the selected backend is not ready ("@
                + reason@ + ")."@,
        ),
        SessionLogPlan::Script { files, .. } => Some(
            "TeraDock session logging is enabled; terminal output may include secrets and will be saved to "@
                + files.log_path@ + "."@,
        ),
        SessionLogPlan::PowerShellTranscript { files, .. } => Some(
            "TeraDock session logging is enabled; terminal output may include secrets and will be saved to "@
                + files.log_path@ + "."@,
        ),
    }
}

impl SessionLogPlan {
    /// The reference recorded when the session ends without a saved log.
    pub fn not_saved_reference(&self) -> (r: SessionLogReference)
        ensures
            !r.saved,
            r.session_id is None,
            opt_view(r.reason) == Some(not_saved_reason(*self)),
    {
        match self {
            SessionLogPlan::Disabled => SessionLogReference::not_saved("disabled"),
            SessionLogPlan::NoLog { reason } => SessionLogReference::not_saved(reason.as_str()),
            SessionLogPlan::Error { reason } => SessionLogReference::not_saved(reason.as_str()),
            SessionLogPlan::Script { .. } => SessionLogReference::not_saved("not_completed"),
            SessionLogPlan::PowerShellTranscript { .. } => SessionLogReference::not_saved(
                "not_completed",
            ),
        }
    }

    /// The notice shown before the session starts, if any.
    pub fn notice(&self) -> (r: Option<String>)
        ensures
            opt_view(r) == notice_spec(*self),
    {
        match self {
            SessionLogPlan::Disabled => None,
            SessionLogPlan::NoLog { reason } => Some(
                concat3(
                    "TeraDock session logging requested but no terminal log will be saved (",
                    reason.as_str(),
                    "); continuing with normal SSH.",
                ),
            ),
            SessionLogPlan::Error { reason } => Some(
                concat3(
                    "TeraDock session logging requested, but the selected backend is not ready (",
                    reason.as_str(),
                    ").",
                ),
            ),
            SessionLogPlan::Script { files, .. } => Some(
                concat3(
                    "TeraDock session logging is enabled; terminal output may include secrets and will be saved to ",
                    files.log_path.as_str(),
                    ".",
                ),
            ),
            SessionLogPlan::PowerShellTranscript { files, .. } => Some(
                concat3(
                    "TeraDock session logging is enabled; terminal output may include secrets and will be saved to ",
                    files.log_path.as_str(),
                    ".",
                ),
            ),
        }
    }
}

/// The status recorded for a session by its exit code.
pub open spec fn status_for_exit_spec(exit_code: Option<i32>) -> Seq<char> {
    match exit_code {
        Some(c) => if c == 0 {
            "completed"@
        } else {
            "completed_nonzero"@
        },
        None => "completed_without_exit_code"@,
    }
}

/// The status recorded for a session by its exit code.
pub fn status_for_exit(exit_code: Option<i32>) -> (r: String)
    ensures
        r@ == status_for_exit_spec(exit_code),
{
    match exit_code {
        Some(0) => owned("completed"),
        Some(_) => owned("completed_nonzero"),
        None => owned("completed_without_exit_code"),
    }
}

/// The view of an optional string slice.
pub open spec fn opt_str_view(o: Option<&str>) -> Option<Seq<char>> {
    match o {
        Some(s) => Some(s@),
        None => None,
    }
}

/// The backend a configuration resolves to, whether the platform supports it, and why
/// logging falls back, if it does.
#[derive(Debug, Clone, PartialEq, Eq)]
pub struct BackendResolution {
    pub resolved_backend: String,
    pub platform_supported: bool,
    pub fallback_reason: Option<String>,
}

/// A resolution as plain values.
pub open spec fn resolution_view(r: BackendResolution) -> (Seq<char>, bool, Option<Seq<char>>) {
    (r.resolved_backend@, r.platform_supported, opt_view(r.fallback_reason))
}

/// Logging falls back to no log, for the given reason.
pub open spec fn no_log_because(reason: Seq<char>) -> (Seq<char>, bool, Option<Seq<char>>) {
    ("no-log"@, false, Some(reason))
}

/// The resolution of the `script` backend.
pub open spec fn script_resolution(has_script: bool, dir_reason: Option<Seq<char>>) -> (
    Seq<char>,
    bool,
    Option<Seq<char>>,
) {
    if !has_script {
        no_log_because("script_unavailable"@)
    } else {
        match dir_reason {
            Some(r) => no_log_because(r),
            None => ("script"@, true, None),
        }
    }
}

/// The resolution of the PowerShell transcript backend.
pub open spec fn powershell_resolution(
    has_powershell: bool,
    has_ssh: bool,
    dir_reason: Option<Seq<char>>,
) -> (Seq<char>, bool, Option<Seq<char>>) {
    if !has_powershell {
        no_log_because("powershell_not_found"@)
    } else if !has_ssh {
        no_log_because("ssh_not_found"@)
    } else {
        match dir_reason {
            Some(r) => no_log_because(r),
            None => ("powershell-transcript"@, true, None),
        }
    }
}

/// The resolution of a configuration on a platform with the commands found.
pub open spec fn resolution_spec(
    enabled: bool,
    backend: SessionLogBackendSetting,
    platform: SessionLogPlatform,
    has_script: bool,
    has_powershell: bool,
    has_ssh: bool,
    dir_reason: Option<Seq<char>>,
) -> (Seq<char>, bool, Option<Seq<char>>) {
    if !enabled {
        ("disabled"@, false, None)
    } else {
        match backend {
            SessionLogBackendSetting::NoLog => no_log_because("backend_no_log"@),
            SessionLogBackendSetting::Auto => if supports_powershell_spec(platform) {
                powershell_resolution(has_powershell, has_ssh, dir_reason)
            } else if supports_script_spec(platform) {
                script_resolution(has_script, dir_reason)
            } else {
                no_log_because("unsupported_on_platform"@)
            },
            SessionLogBackendSetting::Script => if !supports_script_spec(platform) {
                no_log_because("unsupported_on_windows"@)
            } else {
                script_resolution(has_script, dir_reason)
            },
            SessionLogBackendSetting::PowerShellTranscript => if !supports_powershell_spec(
                platform,
            ) {
                no_log_because("unsupported_on_platform"@)
            } else {
                powershell_resolution(has_powershell, has_ssh, dir_reason)
            },
        }
    }
}

fn no_log_resolution(reason: &str) -> (r: BackendResolution)
    ensures
        resolution_view(r) == no_log_because(reason@),
{
    BackendResolution {
        resolved_backend: owned("no-log"),
        platform_supported: false,
        fallback_reason: Some(owned(reason)),
    }
}

/// Resolves the `script` backend.
pub fn resolve_script_backend(script_command: Option<&String>, log_directory_reason: Option<&str>) -> (r:
    BackendResolution)
    ensures
        resolution_view(r) == script_resolution(
            script_command is Some,
            opt_str_view(log_directory_reason),
        ),
{
    if script_command.is_none() {
        return no_log_resolution("script_unavailable");
    }
    match log_directory_reason {
        Some(reason) => no_log_resolution(reason),
        None => BackendResolution {
            resolved_backend: owned("script"),
            platform_supported: true,
            fallback_reason: None,
        },
    }
}

/// Resolves the PowerShell transcript backend.
pub fn resolve_powershell_backend(
    powershell_command: Option<&String>,
    ssh_command: Option<&String>,
    log_directory_reason: Option<&str>,
) -> (r: BackendResolution)
    ensures
        resolution_view(r) == powershell_resolution(
            powershell_command is Some,
            ssh_command is Some,
            opt_str_view(log_directory_reason),
        ),
{
    if powershell_command.is_none() {
        return no_log_resolution("powershell_not_found");
    }
    if ssh_command.is_none() {
        return no_log_resolution("ssh_not_found");
    }
    match log_directory_reason {
        Some(reason) => no_log_resolution(reason),
        None => BackendResolution {
            resolved_backend: owned("powershell-transcript"),
            platform_supported: true,
            fallback_reason: None,
        },
    }
}

/// Resolves which backend a configuration uses on a platform.
pub fn resolve_backend(
    config: &SessionLogConfig,
    platform: SessionLogPlatform,
    script_command: Option<&String>,
    powershell_command: Option<&String>,
    ssh_command: Option<&String>,
    log_directory_reason: Option<&str>,
) -> (r: BackendResolution)
    ensures
        resolution_view(r) == resolution_spec(
            config.enabled,
            config.backend,
            platform,
            script_command is Some,
            powershell_command is Some,
            ssh_command is Some,
            opt_str_view(log_directory_reason),
        ),
{
    if !config.enabled {
        return BackendResolution {
            resolved_backend: owned("disabled"),
            platform_supported: false,
            fallback_reason: None,
        };
    }
    match config.backend {
        SessionLogBackendSetting::NoLog => no_log_resolution("backend_no_log"),
        SessionLogBackendSetting::Auto => {
            if platform.supports_powershell_transcript() {
                resolve_powershell_backend(powershell_command, ssh_command, log_directory_reason)
            } else if platform.supports_script() {
                resolve_script_backend(script_command, log_directory_reason)
            } else {
                no_log_resolution("unsupported_on_platform")
            }
        },
        SessionLogBackendSetting::Script => {
            if !platform.supports_script() {
                return no_log_resolution("unsupported_on_windows");
            }
            resolve_script_backend(script_command, log_directory_reason)
        },
        SessionLogBackendSetting::PowerShellTranscript => {
            if !platform.supports_powershell_transcript() {
                return no_log_resolution("unsupported_on_platform");
            }
            resolve_powershell_backend(powershell_command, ssh_command, log_directory_reason)
        },
    }
}

/// The note shown beside a command: `missing` when it was not found.
pub open spec fn command_note_spec(found: bool) -> Option<Seq<char>> {
    if found {
        None
    } else {
        Some("missing"@)
    }
}

/// The note shown beside a command.
pub fn command_note(path: Option<&String>) -> (r: Option<String>)
    ensures
        opt_view(r) == command_note_spec(path is Some),
{
    if path.is_some() {
        None
    } else {
        Some(owned("missing"))
    }
}

/// The overall status of the diagnostics.
pub open spec fn status_spec(enabled: bool, resolved: Seq<char>, fallback: Option<Seq<char>>) -> Seq<
    char,
> {
    if !enabled {
        "disabled"@
    } else if fallback is Some {
        "not_ready"@
    } else if resolved == "script"@ || resolved == "powershell-transcript"@ {
        "ready"@
    } else {
        "not_ready"@
    }
}

/// The overall status of the diagnostics.
pub fn diagnostics_status(enabled: bool, resolved_backend: &str, fallback_reason: Option<&str>) -> (r:
    String)
    ensures
        r@ == status_spec(enabled, resolved_backend@, opt_str_view(fallback_reason)),
{
    if !enabled {
        return owned("disabled");
    }
    if fallback_reason.is_some() {
        return owned("not_ready");
    }
    if str_eq(resolved_backend, "script") || str_eq(resolved_backend, "powershell-transcript") {
        owned("ready")
    } else {
        owned("not_ready")
    }
}

/// The hint for a fallback reason.
pub open spec fn reason_hint(reason: Option<Seq<char>>) -> Seq<Seq<char>> {
    match reason {
        Some(r) => if r == "script_unavailable"@ {
            seq!["Install a script command or set session.log.backend to no-log."@]
        } else if r == "powershell_not_found"@ {
            seq!["Install PowerShell or set session.log.backend to no-log."@]
        } else if r == "ssh_not_found"@ {
            seq!["Install OpenSSH client or configure an ssh client override."@]
        } else if r == "log_dir_not_writable"@ {
            seq!["Update session.log.dir or fix directory permissions."@]
        } else if r == "unsupported_on_windows"@ {
            seq!["Use powershell-transcript or auto for Windows session logging."@]
        } else if r == "unsupported_on_platform"@ {
            seq!["Use script on Linux/macOS or no-log on unsupported platforms."@]
        } else {
            seq![]
        },
        None => seq![],
    }
}

/// The hints shown with the diagnostics.
pub open spec fn hints_spec(
    enabled: bool,
    backend: SessionLogBackendSetting,
    platform_supported: bool,
    fallback_reason: Option<Seq<char>>,
    has_last_session_log: bool,
) -> Seq<Seq<char>> {
    if !enabled {
        seq![
            "Enable logging with: td config set session.log.enabled true"@,
            "Or open settings UI with: td config ui"@,
        ]
    } else {
        (if backend == SessionLogBackendSetting::NoLog {
            seq!["Set backend to auto with: td config set session.log.backend auto"@]
        } else {
            seq![]
        }) + (if !platform_supported {
            seq!["Current backend is not ready on this platform."@]
        } else {
            seq![]
        }) + reason_hint(fallback_reason) + (if !has_last_session_log {
            seq!["Saved logs appear after an interactive SSH session exits."@]
        } else {
            seq![]
        })
    }
}

fn push_reason_hint(hints: &mut Vec<String>, fallback_reason: Option<&str>)
    ensures
        strings_view(final(hints)@) == strings_view(old(hints)@) + reason_hint(
            opt_str_view(fallback_reason),
        ),
{
    let ghost before = strings_view(hints@);
    match fallback_reason {
        Some(r) => {
            if str_eq(r, "script_unavailable") {
                push_owned(hints, "Install a script command or set session.log.backend to no-log.");
            } else if str_eq(r, "powershell_not_found") {
                push_owned(hints, "Install PowerShell or set session.log.backend to no-log.");
            } else if str_eq(r, "ssh_not_found") {
                push_owned(hints, "Install OpenSSH client or configure an ssh client override.");
            } else if str_eq(r, "log_dir_not_writable") {
                push_owned(hints, "Update session.log.dir or fix directory permissions.");
            } else if str_eq(r, "unsupported_on_windows") {
                push_owned(hints, "Use powershell-transcript or auto for Windows session logging.");
            } else if str_eq(r, "unsupported_on_platform") {
                push_owned(hints, "Use script on Linux/macOS or no-log on unsupported platforms.");
            }
        },
        None => {},
    }
    assert(strings_view(hints@) =~= before + reason_hint(opt_str_view(fallback_reason)));
}

/// The hints shown with the diagnostics.
pub fn diagnostics_hints(
    enabled: bool,
    backend: SessionLogBackendSetting,
    platform_supported: bool,
    fallback_reason: Option<&str>,
    has_last_session_log: bool,
) -> (r: Vec<String>)
    ensures
        strings_view(r@) == hints_spec(
            enabled,
            backend,
            platform_supported,
            opt_str_view(fallback_reason),
            has_last_session_log,
        ),
{
    let mut hints: Vec<String> = Vec::new();
    if !enabled {
        push_owned(&mut hints, "Enable logging with: td config set session.log.enabled true");
        push_owned(&mut hints, "Or open settings UI with: td config ui");
        assert(strings_view(hints@) =~= hints_spec(
            enabled,
            backend,
            platform_supported,
            opt_str_view(fallback_reason),
            has_last_session_log,
        ));
        return hints;
    }
    let ghost empty = strings_view(hints@);
    assert(empty =~= Seq::<Seq<char>>::empty());
    if backend == SessionLogBackendSetting::NoLog {
        push_owned(&mut hints, "Set backend to auto with: td config set session.log.backend auto");
    }
    let ghost a = strings_view(hints@);
    if !platform_supported {
        push_owned(&mut hints, "Current backend is not ready on this platform.");
    }
    let ghost b = strings_view(hints@);
    push_reason_hint(&mut hints, fallback_reason);
    let ghost c = strings_view(hints@);
    if !has_last_session_log {
        push_owned(&mut hints, "Saved logs appear after an interactive SSH session exits.");
    }
    assert(strings_view(hints@) =~= hints_spec(
        enabled,
        backend,
        platform_supported,
        opt_str_view(fallback_reason),
        has_last_session_log,
    ));
    hints
}

/// What the diagnostics report of the log directory.
#[derive(Debug, Clone, PartialEq, Eq)]
pub struct DirectoryReadiness {
    pub exists: bool,
    pub writable: Option<bool>,
    pub reason: Option<String>,
}

/// Whether the log directory is prepared and probed for a configuration: only when logging is
/// enabled with a backend that writes logs.
pub fn checks_log_directory(config: &SessionLogConfig) -> (r: bool)
    ensures
        r == (config.enabled && config.backend != SessionLogBackendSetting::NoLog),
{
    config.enabled && config.backend != SessionLogBackendSetting::NoLog
}

/// The readiness of the log directory: `checked` says whether it was prepared and probed,
/// `is_dir` whether it is a directory afterwards, `writable` whether preparing it and creating a
/// probe file in it succeeded.
pub fn log_directory_readiness(checked: bool, is_dir: bool, writable: bool) -> (r: DirectoryReadiness)
    ensures
        r.exists == is_dir,
        checked ==> r.writable == Some(writable),
        !checked ==> r.writable is None,
        opt_view(r.reason) == if checked && !writable {
            Some("log_dir_not_writable"@)
        } else {
            None::<Seq<char>>
        },
{
    if !checked {
        return DirectoryReadiness { exists: is_dir, writable: None, reason: None };
    }
    let reason = if writable {
        None
    } else {
        Some(owned("log_dir_not_writable"))
    };
    DirectoryReadiness { exists: is_dir, writable: Some(writable), reason }
}

/// The diagnostics of session logging.
#[derive(Debug, Clone, PartialEq, Eq)]
pub struct SessionLogDiagnostics {
    pub enabled: bool,
    pub backend_setting: String,
    pub resolved_backend: String,
    pub script_command: Option<String>,
    pub script_command_note: Option<String>,
    pub powershell_command: Option<String>,
    pub powershell_command_note: Option<String>,
    pub ssh_command: Option<String>,
    pub ssh_command_note: Option<String>,
    pub log_directory: String,
    pub log_directory_exists: bool,
    pub log_directory_writable: Option<bool>,
    pub last_session_log: Option<String>,
    pub platform: String,
    pub platform_supported: bool,
    pub fallback_reason: Option<String>,
    pub status: String,
    pub hints: Vec<String>,
}

/// The `script` command and its note as the diagnostics report them.
pub open spec fn script_report(
    enabled: bool,
    backend: SessionLogBackendSetting,
    platform: SessionLogPlatform,
    found: Option<Seq<char>>,
) -> (Option<Seq<char>>, Option<Seq<char>>) {
    if !enabled {
        (None, Some("not checked because logging is disabled"@))
    } else if backend == SessionLogBackendSetting::NoLog {
        (None, Some("not checked because backend is no-log"@))
    } else if !(backend == SessionLogBackendSetting::Auto || backend
        == SessionLogBackendSetting::Script) {
        (None, Some("not checked for this backend"@))
    } else if !supports_script_spec(platform) {
        (None, Some("not checked because script is unsupported on this platform"@))
    } else {
        (found, command_note_spec(found is Some))
    }
}

/// The PowerShell or ssh command and its note as the diagnostics report them.
pub open spec fn command_report(
    enabled: bool,
    backend: SessionLogBackendSetting,
    found: Option<Seq<char>>,
) -> (Option<Seq<char>>, Option<Seq<char>>) {
    if !enabled {
        (None, Some("not checked because logging is disabled"@))
    } else if backend == SessionLogBackendSetting::NoLog {
        (None, Some("not checked because backend is no-log"@))
    } else {
        (found, command_note_spec(found is Some))
    }
}

fn report_command(enabled: bool, backend: SessionLogBackendSetting, found: Option<String>) -> (r: (
    Option<String>,
    Option<String>,
))
    ensures
        (opt_view(r.0), opt_view(r.1)) == command_report(enabled, backend, opt_view(found)),
{
    if !enabled {
        (None, Some(owned("not checked because logging is disabled")))
    } else if backend == SessionLogBackendSetting::NoLog {
        (None, Some(owned("not checked because backend is no-log")))
    } else {
        let note = command_note(found.as_ref());
        (found, note)
    }
}

fn report_script(
    enabled: bool,
    backend: SessionLogBackendSetting,
    platform: SessionLogPlatform,
    found: Option<String>,
) -> (r: (Option<String>, Option<String>))
    ensures
        (opt_view(r.0), opt_view(r.1)) == script_report(enabled, backend, platform, opt_view(found)),
{
    if !enabled || backend == SessionLogBackendSetting::NoLog {
        report_command(enabled, backend, found)
    } else if !(backend == SessionLogBackendSetting::Auto || backend
        == SessionLogBackendSetting::Script) {
        (None, Some(owned("not checked for this backend")))
    } else if !platform.supports_script() {
        (None, Some(owned("not checked because script is unsupported on this platform")))
    } else {
        let note = command_note(found.as_ref());
        (found, note)
    }
}

fn opt_as_str(o: &Option<String>) -> (r: Option<&str>)
    ensures
        opt_str_view(r) == opt_view(*o),
{
    match o {
        Some(s) => Some(s.as_str()),
        None => None,
    }
}

/// Diagnoses session logging for a configuration, given the platform, the commands found, the
/// state of the log directory and the newest saved log.
pub fn diagnose_config(
    config: &SessionLogConfig,
    platform: SessionLogPlatform,
    clients: SessionLogClientCommands,
    readiness: DirectoryReadiness,
    last_session_log: Option<String>,
) -> (r: SessionLogDiagnostics)
    ensures
        r.enabled == config.enabled,
        r.backend_setting@ == backend_name(config.backend),
        (r.resolved_backend@, r.platform_supported, opt_view(r.fallback_reason)) == resolution_spec(
            config.enabled,
            config.backend,
            platform,
            clients.script is Some,
            clients.powershell is Some,
            clients.ssh is Some,
            opt_view(readiness.reason),
        ),
        (opt_view(r.script_command), opt_view(r.script_command_note)) == script_report(
            config.enabled,
            config.backend,
            platform,
            opt_view(clients.script),
        ),
        (opt_view(r.powershell_command), opt_view(r.powershell_command_note)) == command_report(
            config.enabled,
            config.backend,
            opt_view(clients.powershell),
        ),
        (opt_view(r.ssh_command), opt_view(r.ssh_command_note)) == command_report(
            config.enabled,
            config.backend,
            opt_view(clients.ssh),
        ),
        r.log_directory@ == config.dir@,
        r.log_directory_exists == readiness.exists,
        r.log_directory_writable == readiness.writable,
        opt_view(r.last_session_log) == opt_view(last_session_log),
        r.platform@ == platform_name(platform),
        r.status@ == status_spec(config.enabled, r.resolved_backend@, opt_view(r.fallback_reason)),
        strings_view(r.hints@) == hints_spec(
            config.enabled,
            config.backend,
            r.platform_supported,
            opt_view(r.fallback_reason),
            last_session_log is Some,
        ),
{
    let resolution = resolve_backend(
        config,
        platform,
        clients.script.as_ref(),
        clients.powershell.as_ref(),
        clients.ssh.as_ref(),
        opt_as_str(&readiness.reason),
    );
    let (script_command, script_command_note) = report_script(
        config.enabled,
        config.backend,
        platform,
        clients.script,
    );
    let (powershell_command, powershell_command_note) = report_command(
        config.enabled,
        config.backend,
        clients.powershell,
    );
    let (ssh_command, ssh_command_note) = report_command(
        config.enabled,
        config.backend,
        clients.ssh,
    );
    let status = diagnostics_status(
        config.enabled,
        resolution.resolved_backend.as_str(),
        opt_as_str(&resolution.fallback_reason),
    );
    let hints = diagnostics_hints(
        config.enabled,
        config.backend,
        resolution.platform_supported,
        opt_as_str(&resolution.fallback_reason),
        last_session_log.is_some(),
    );
    SessionLogDiagnostics {
        enabled: config.enabled,
        backend_setting: owned(config.backend.as_str()),
        resolved_backend: resolution.resolved_backend,
        script_command,
        script_command_note,
        powershell_command,
        powershell_command_note,
        ssh_command,
        ssh_command_note,
        log_directory: config.dir.clone(),
        log_directory_exists: readiness.exists,
        log_directory_writable: readiness.writable,
        last_session_log,
        platform: owned(platform.name()),
        platform_supported: resolution.platform_supported,
        fallback_reason: resolution.fallback_reason,
        status,
        hints,
    }
}

/// A backend that writes a log once the session's files are prepared.
#[derive(Debug, Clone, PartialEq, Eq)]
pub enum PendingLogBackend {
    Script { script_path: String },
    PowerShellTranscript { powershell_path: String },
}

/// The next step of planning: a finished plan, or the session's files to prepare first.
#[derive(Debug, Clone, PartialEq, Eq)]
pub enum PlanStep {
    Decided(SessionLogPlan),
    PrepareFiles { backend: PendingLogBackend, auto_fallback: bool },
}

/// Why the files of a session could not be prepared, with the error's text.
#[derive(Debug, Clone, PartialEq, Eq)]
pub enum FilePreparationError {
    DirNotWritable(String),
    SetupFailed(String),
}

/// The launch-failure policy of a backend chosen automatically or explicitly.
pub open spec fn launch_policy_spec(auto_fallback: bool) -> SessionLogLaunchFailurePolicy {
    if auto_fallback {
        SessionLogLaunchFailurePolicy::FallbackToPlain
    } else {
        SessionLogLaunchFailurePolicy::FailSession
    }
}

/// A backend chosen automatically falls back to a plain session when it fails to start; one
/// chosen explicitly fails the session.
pub fn launch_policy(auto_fallback: bool) -> (r: SessionLogLaunchFailurePolicy)
    ensures
        r == launch_policy_spec(auto_fallback),
{
    if auto_fallback {
        SessionLogLaunchFailurePolicy::FallbackToPlain
    } else {
        SessionLogLaunchFailurePolicy::FailSession
    }
}

/// Whether `p` gives up logging for `reason`: quietly (no log) for a backend chosen
/// automatically, as an error for one chosen explicitly.
pub open spec fn fallback_or_error_spec(auto_fallback: bool, reason: Seq<char>, p: SessionLogPlan) -> bool {
    if auto_fallback {
        p matches SessionLogPlan::NoLog { reason: r } && r@ == reason
    } else {
        p matches SessionLogPlan::Error { reason: r } && r@ == reason
    }
}

/// Gives up logging for `reason`, quietly or as an error.
pub fn fallback_or_error(auto_fallback: bool, reason: String) -> (r: SessionLogPlan)
    ensures
        fallback_or_error_spec(auto_fallback, reason@, r),
{
    if auto_fallback {
        SessionLogPlan::NoLog { reason }
    } else {
        SessionLogPlan::Error { reason }
    }
}

/// Whether `step` decides `p` giving up for `reason`.
pub open spec fn gives_up(step: PlanStep, auto_fallback: bool, reason: Seq<char>) -> bool {
    step matches PlanStep::Decided(p) && fallback_or_error_spec(auto_fallback, reason, p)
}

/// The step for the `script` backend.
pub open spec fn script_step(script: Option<String>, auto_fallback: bool, step: PlanStep) -> bool {
    match script {
        None => gives_up(step, auto_fallback, "script_unavailable"@),
        Some(path) => step matches PlanStep::PrepareFiles {
            backend: PendingLogBackend::Script { script_path },
            auto_fallback: a,
        } && script_path@ == path@ && a == auto_fallback,
    }
}

/// The step for the PowerShell transcript backend.
pub open spec fn powershell_step(
    powershell: Option<String>,
    ssh: Option<String>,
    auto_fallback: bool,
    step: PlanStep,
) -> bool {
    match powershell {
        None => gives_up(step, auto_fallback, "powershell_not_found"@),
        Some(path) => match ssh {
            None => gives_up(step, auto_fallback, "ssh_not_found"@),
            Some(_) => step matches PlanStep::PrepareFiles {
                backend: PendingLogBackend::PowerShellTranscript { powershell_path },
                auto_fallback: a,
            } && powershell_path@ == path@ && a == auto_fallback,
        },
    }
}

/// The first step of planning a session's log.
pub open spec fn plan_step_spec(
    config: SessionLogConfig,
    platform: SessionLogPlatform,
    clients: SessionLogClientCommands,
    step: PlanStep,
) -> bool {
    if !config.enabled {
        step matches PlanStep::Decided(SessionLogPlan::Disabled)
    } else {
        match config.backend {
            SessionLogBackendSetting::NoLog => gives_up(step, true, "backend_no_log"@),
            SessionLogBackendSetting::Auto => if supports_powershell_spec(platform) {
                powershell_step(clients.powershell, clients.ssh, true, step)
            } else if supports_script_spec(platform) {
                script_step(clients.script, true, step)
            } else {
                gives_up(step, true, "unsupported_on_platform"@)
            },
            SessionLogBackendSetting::Script => if !supports_script_spec(platform) {
                gives_up(step, false, "unsupported_on_windows"@)
            } else {
                script_step(clients.script, false, step)
            },
            SessionLogBackendSetting::PowerShellTranscript => if !supports_powershell_spec(
                platform,
            ) {
                gives_up(step, false, "unsupported_on_platform"@)
            } else {
                powershell_step(clients.powershell, clients.ssh, false, step)
            },
        }
    }
}

fn plan_script_backend(script_path: Option<String>, auto_fallback: bool) -> (r: PlanStep)
    ensures
        script_step(script_path, auto_fallback, r),
{
    match script_path {
        None => PlanStep::Decided(fallback_or_error(auto_fallback, owned("script_unavailable"))),
        Some(script_path) => PlanStep::PrepareFiles {
            backend: PendingLogBackend::Script { script_path },
            auto_fallback,
        },
    }
}

fn plan_powershell_backend(
    powershell_path: Option<String>,
    ssh_path: Option<String>,
    auto_fallback: bool,
) -> (r: PlanStep)
    ensures
        powershell_step(powershell_path, ssh_path, auto_fallback, r),
{
    match powershell_path {
        None => PlanStep::Decided(fallback_or_error(auto_fallback, owned("powershell_not_found"))),
        Some(powershell_path) => {
            if ssh_path.is_none() {
                return PlanStep::Decided(fallback_or_error(auto_fallback, owned("ssh_not_found")));
            }
            PlanStep::PrepareFiles {
                backend: PendingLogBackend::PowerShellTranscript { powershell_path },
                auto_fallback,
            }
        },
    }
}

/// Plans how a session is logged, on a platform with the commands found. Where a backend is
/// ready, the step asks for the session's files to be prepared; `finish_plan` completes it.
pub fn plan_from_config(
    config: &SessionLogConfig,
    platform: SessionLogPlatform,
    clients: SessionLogClientCommands,
) -> (r: PlanStep)
    ensures
        plan_step_spec(*config, platform, clients, r),
{
    if !config.enabled {
        return PlanStep::Decided(SessionLogPlan::Disabled);
    }
    match config.backend {
        SessionLogBackendSetting::NoLog => PlanStep::Decided(
            SessionLogPlan::NoLog { reason: owned("backend_no_log") },
        ),
        SessionLogBackendSetting::Auto => {
            if platform.supports_powershell_transcript() {
                plan_powershell_backend(clients.powershell, clients.ssh, true)
            } else if platform.supports_script() {
                plan_script_backend(clients.script, true)
            } else {
                PlanStep::Decided(SessionLogPlan::NoLog { reason: owned("unsupported_on_platform") })
            }
        },
        SessionLogBackendSetting::Script => {
            if !platform.supports_script() {
                return PlanStep::Decided(
                    SessionLogPlan::Error { reason: owned("unsupported_on_windows") },
                );
            }
            plan_script_backend(clients.script, false)
        },
        SessionLogBackendSetting::PowerShellTranscript => {
            if !platform.supports_powershell_transcript() {
                return PlanStep::Decided(
                    SessionLogPlan::Error { reason: owned("unsupported_on_platform") },
                );
            }
            plan_powershell_backend(clients.powershell, clients.ssh, false)
        },
    }
}

/// The plan once the session's files were prepared, or could not be.
pub open spec fn finish_spec(
    backend: PendingLogBackend,
    auto_fallback: bool,
    prepared: Result<SessionLogFiles, FilePreparationError>,
    p: SessionLogPlan,
) -> bool {
    match prepared {
        Ok(files) => match backend {
            PendingLogBackend::Script { script_path } => p == SessionLogPlan::Script {
                script_path,
                files,
                launch_failure_policy: launch_policy_spec(auto_fallback),
            },
            PendingLogBackend::PowerShellTranscript { powershell_path } => p
                == SessionLogPlan::PowerShellTranscript {
                powershell_path,
                files,
                launch_failure_policy: launch_policy_spec(auto_fallback),
            },
        },
        Err(FilePreparationError::DirNotWritable(e)) => fallback_or_error_spec(
            auto_fallback,
            "log_dir_not_writable: "@ + e@,
            p,
        ),
        Err(FilePreparationError::SetupFailed(e)) => fallback_or_error_spec(
            auto_fallback,
            "setup_failed: "@ + e@,
            p,
        ),
    }
}

/// Completes a plan whose backend is ready, with the outcome of preparing the session's files.
pub fn finish_plan(
    backend: PendingLogBackend,
    auto_fallback: bool,
    prepared: Result<SessionLogFiles, FilePreparationError>,
) -> (r: SessionLogPlan)
    ensures
        finish_spec(backend, auto_fallback, prepared, r),
{
    match prepared {
        Ok(files) => match backend {
            PendingLogBackend::Script { script_path } => SessionLogPlan::Script {
                script_path,
                files,
                launch_failure_policy: launch_policy(auto_fallback),
            },
            PendingLogBackend::PowerShellTranscript { powershell_path } => {
                SessionLogPlan::PowerShellTranscript {
                    powershell_path,
                    files,
                    launch_failure_policy: launch_policy(auto_fallback),
                }
            },
        },
        Err(FilePreparationError::DirNotWritable(e)) => fallback_or_error(
            auto_fallback,
            concat2("log_dir_not_writable: ", e.as_str()),
        ),
        Err(FilePreparationError::SetupFailed(e)) => fallback_or_error(
            auto_fallback,
            concat2("setup_failed: ", e.as_str()),
        ),
    }
}

/// The plan a session ends up with: the decided plan, or the one completed after preparing
/// the session's files.
pub open spec fn final_plan(
    step: PlanStep,
    prepared: Result<SessionLogFiles, FilePreparationError>,
    plan: SessionLogPlan,
) -> bool {
    match step {
        PlanStep::Decided(p) => plan == p,
        PlanStep::PrepareFiles { backend, auto_fallback } => finish_spec(backend, auto_fallback, prepared, plan),
    }
}

/// The launch-failure policy of a plan that logs, if it logs.
pub open spec fn plan_policy(plan: SessionLogPlan) -> Option<SessionLogLaunchFailurePolicy> {
    match plan {
        SessionLogPlan::Script { launch_failure_policy, .. } => Some(launch_failure_policy),
        SessionLogPlan::PowerShellTranscript { launch_failure_policy, .. } => Some(launch_failure_policy),
        _ => None,
    }
}

/// Law: how a configuration shapes every plan, whatever the platform, the programs found and
/// the outcome of preparing the files. A disabled configuration plans no log; `no-log` gives
/// up quietly with `backend_no_log`; `auto` never ends in an error and a plan it starts falls
/// back to a plain session when the logger fails to start; an explicit backend never gives up
/// quietly and a plan it starts fails the session when the logger fails to start.
pub proof fn lemma_plan_policy(
    config: SessionLogConfig,
    platform: SessionLogPlatform,
    clients: SessionLogClientCommands,
    step: PlanStep,
    prepared: Result<SessionLogFiles, FilePreparationError>,
    plan: SessionLogPlan,
)
    requires
        plan_step_spec(config, platform, clients, step),
        final_plan(step, prepared, plan),
    ensures
        !config.enabled ==> plan is Disabled,
        config.enabled && config.backend == SessionLogBackendSetting::NoLog ==> (plan matches SessionLogPlan::NoLog { reason }
            && reason@ == "backend_no_log"@),
        config.enabled && config.backend == SessionLogBackendSetting::Auto ==> {
            &&& plan !is Error
            &&& plan !is Disabled
            &&& plan_policy(plan) is Some ==> plan_policy(plan) == Some(SessionLogLaunchFailurePolicy::FallbackToPlain)
        },
        config.enabled && (config.backend == SessionLogBackendSetting::Script || config.backend
            == SessionLogBackendSetting::PowerShellTranscript) ==> {
            &&& plan !is NoLog
            &&& plan !is Disabled
            &&& plan_policy(plan) is Some ==> plan_policy(plan) == Some(SessionLogLaunchFailurePolicy::FailSession)
        },
{
}

/// Whether the configured backend can record a session: the platform supports it and the
/// programs it runs were found. `auto` takes PowerShell transcripts where the platform has
/// them and `script` otherwise; `no-log` never records.
pub open spec fn backend_ready(
    backend: SessionLogBackendSetting,
    platform: SessionLogPlatform,
    clients: SessionLogClientCommands,
) -> bool {
    let powershell_ready = supports_powershell_spec(platform) && clients.powershell is Some
        && clients.ssh is Some;
    let script_ready = supports_script_spec(platform) && clients.script is Some;
    match backend {
        SessionLogBackendSetting::NoLog => false,
        SessionLogBackendSetting::Script => script_ready,
        SessionLogBackendSetting::PowerShellTranscript => powershell_ready,
        SessionLogBackendSetting::Auto => if supports_powershell_spec(platform) {
            powershell_ready
        } else {
            script_ready
        },
    }
}

/// The files a plan records into, if it records.
pub open spec fn plan_files(plan: SessionLogPlan) -> Option<SessionLogFiles> {
    match plan {
        SessionLogPlan::Script { files, .. } => Some(files),
        SessionLogPlan::PowerShellTranscript { files, .. } => Some(files),
        _ => None,
    }
}

/// Law: when a session is recorded, over every configuration, platform, set of programs found
/// and outcome of preparing the files. An enabled configuration records exactly when its
/// backend is ready and the files were prepared, and then into those files. Otherwise `auto`
/// gives up quietly (never with an error) and a recording it starts falls back to a plain
/// session if the logger fails; an explicit backend ends in an error (never gives up quietly)
/// and a recording it starts fails the session if the logger fails.
pub proof fn lemma_plan_readiness(
    config: SessionLogConfig,
    platform: SessionLogPlatform,
    clients: SessionLogClientCommands,
    step: PlanStep,
    prepared: Result<SessionLogFiles, FilePreparationError>,
    plan: SessionLogPlan,
)
    requires
        plan_step_spec(config, platform, clients, step),
        final_plan(step, prepared, plan),
    ensures
        config.enabled && backend_ready(config.backend, platform, clients) && prepared is Ok ==> plan_files(
            plan,
        ) == Some(prepared->Ok_0),
        plan_files(plan) is Some ==> config.enabled && backend_ready(config.backend, platform, clients)
            && prepared is Ok && plan_files(plan) == Some(prepared->Ok_0),
        config.enabled && config.backend == SessionLogBackendSetting::Auto ==> {
            &&& plan is NoLog || plan_policy(plan) == Some(SessionLogLaunchFailurePolicy::FallbackToPlain)
            &&& !(backend_ready(config.backend, platform, clients) && prepared is Ok) ==> plan is NoLog
        },
        config.enabled && (config.backend == SessionLogBackendSetting::Script || config.backend
            == SessionLogBackendSetting::PowerShellTranscript) ==> {
            &&& plan is Error || plan_policy(plan) == Some(SessionLogLaunchFailurePolicy::FailSession)
            &&& !(backend_ready(config.backend, platform, clients) && prepared is Ok) ==> plan is Error
        },
{
}

/// Law: diagnostics and planning agree. For an enabled configuration whose log directory is
/// usable, the backend the diagnostics resolve to is the one the plan prepares files for, and
/// where the diagnostics fall back to no log, the plan gives up for the same reason.
pub proof fn lemma_plan_agrees_with_diagnostics(
    config: SessionLogConfig,
    platform: SessionLogPlatform,
    clients: SessionLogClientCommands,
    step: PlanStep,
)
    requires
        config.enabled,
        plan_step_spec(config, platform, clients, step),
    ensures
        ({
            let res = resolution_spec(
                true,
                config.backend,
                platform,
                clients.script is Some,
                clients.powershell is Some,
                clients.ssh is Some,
                None,
            );
            &&& (res.0 == "script"@) == (step matches PlanStep::PrepareFiles {
                backend: PendingLogBackend::Script { .. },
                ..
            })
            &&& (res.0 == "powershell-transcript"@) == (step matches PlanStep::PrepareFiles {
                backend: PendingLogBackend::PowerShellTranscript { .. },
                ..
            })
            &&& (res.2 matches Some(reason) ==> (step matches PlanStep::Decided(p)
                && not_saved_reason(p) == reason))
        }),
{
    reveal_strlit("script");
    reveal_strlit("powershell-transcript");
    reveal_strlit("no-log");
    assert("script"@ != "no-log"@) by {
        assert("script"@[0] != "no-log"@[0]);
    }
    assert("powershell-transcript"@ != "no-log"@) by {
        assert("powershell-transcript"@.len() != "no-log"@.len());
    }
    assert("powershell-transcript"@ != "script"@) by {
        assert("powershell-transcript"@.len() != "script"@.len());
    }
}

/// A command line: the program and its arguments.
#[derive(Debug, Clone, PartialEq, Eq)]
pub struct ExternalCommandInvocation {
    pub executable: String,
    pub args: Vec<String>,
}

/// Characters that stand in a POSIX shell word without quoting.
pub open spec fn shell_plain_char(c: char) -> bool {
    ('a' <= c <= 'z') || ('A' <= c <= 'Z') || ('0' <= c <= '9') || c == '_' || c == '@' || c == '%'
        || c == '+' || c == '=' || c == ':' || c == ',' || c == '.' || c == '/' || c == '-'
}

/// A word quoted for a POSIX shell: left alone when every character is plain, otherwise put in
/// single quotes with each single quote written as `'\''`.
pub open spec fn posix_shell_quote_spec(t: Seq<char>) -> Seq<char> {
    if t.len() == 0 {
        "''"@
    } else if forall|i: int| 0 <= i < t.len() ==> shell_plain_char(#[trigger] t[i]) {
        t
    } else {
        "'"@ + replace_char_spec(t, '\'', "'\\''"@) + "'"@
    }
}

fn shell_plain_char_exec(c: char) -> (r: bool)
    ensures
        r == shell_plain_char(c),
{
    ('a' <= c && c <= 'z') || ('A' <= c && c <= 'Z') || ('0' <= c && c <= '9') || c == '_' || c
        == '@' || c == '%' || c == '+' || c == '=' || c == ':' || c == ',' || c == '.' || c == '/'
        || c == '-'
}

/// Quotes a word for a POSIX shell.
pub fn posix_shell_quote(value: &str) -> (r: String)
    ensures
        r@ == posix_shell_quote_spec(value@),
{
    let v = chars_of(value);
    if v.len() == 0 {
        return owned("''");
    }
    let mut plain = true;
    let mut i: usize = 0;
    while i < v.len()
        invariant
            i <= v.len(),
            plain == (forall|j: int| 0 <= j < i ==> shell_plain_char(#[trigger] v@[j])),
        decreases v.len() - i,
    {
        if !shell_plain_char_exec(v[i]) {
            plain = false;
        }
        i = i + 1;
    }
    if plain {
        owned(value)
    } else {
        let escaped = replace_char(value, '\'', "'\\''");
        concat3("'", escaped.as_str(), "'")
    }
}

/// A word quoted for PowerShell: in single quotes, each single quote doubled.
pub open spec fn powershell_single_quote_spec(t: Seq<char>) -> Seq<char> {
    "'"@ + replace_char_spec(t, '\'', "''"@) + "'"@
}

/// Quotes a word for PowerShell.
pub fn powershell_single_quote(value: &str) -> (r: String)
    ensures
        r@ == powershell_single_quote_spec(value@),
{
    let escaped = replace_char(value, '\'', "''");
    concat3("'", escaped.as_str(), "'")
}

/// The shell command line that runs `executable` with `args`, each word quoted.
pub open spec fn posix_shell_command_spec(executable: Seq<char>, args: Seq<Seq<char>>) -> Seq<char> {
    join(
        seq![posix_shell_quote_spec(executable)] + args.map_values(
            |a: Seq<char>| posix_shell_quote_spec(a),
        ),
        " "@,
    )
}

/// The shell command line that runs `executable` with `args`.
pub fn posix_shell_command(executable: &str, args: &Vec<String>) -> (r: String)
    ensures
        r@ == posix_shell_command_spec(executable@, strings_view(args@)),
{
    let mut parts: Vec<String> = Vec::new();
    parts.push(posix_shell_quote(executable));
    let mut i: usize = 0;
    while i < args.len()
        invariant
            i <= args.len(),
            strings_view(parts@) == seq![posix_shell_quote_spec(executable@)] + strings_view(
                args@,
            ).take(i as int).map_values(|a: Seq<char>| posix_shell_quote_spec(a)),
        decreases args.len() - i,
    {
        let ghost before = strings_view(parts@);
        let q = posix_shell_quote(args[i].as_str());
        parts.push(q);
        assert(strings_view(parts@) =~= before.push(q@));
        assert(strings_view(args@).take(i + 1).map_values(|a: Seq<char>| posix_shell_quote_spec(a))
            =~= strings_view(args@).take(i as int).map_values(
            |a: Seq<char>| posix_shell_quote_spec(a),
        ).push(posix_shell_quote_spec(args@[i as int]@)));
        i = i + 1;
        assert(strings_view(parts@) =~= seq![posix_shell_quote_spec(executable@)] + strings_view(
            args@,
        ).take(i as int).map_values(|a: Seq<char>| posix_shell_quote_spec(a)));
    }
    assert(strings_view(args@).take(args.len() as int) =~= strings_view(args@));
    join_strings(&parts, " ")
}

/// The PowerShell statement that calls `executable` with `args`.
pub open spec fn powershell_call_command_spec(executable: Seq<char>, args: Seq<Seq<char>>) -> Seq<
    char,
> {
    join(
        seq!["&"@, powershell_single_quote_spec(executable)] + args.map_values(
            |a: Seq<char>| powershell_single_quote_spec(a),
        ),
        " "@,
    )
}

/// The PowerShell statement that calls `executable` with `args`.
pub fn powershell_call_command(executable: &str, args: &Vec<String>) -> (r: String)
    ensures
        r@ == powershell_call_command_spec(executable@, strings_view(args@)),
{
    let mut parts: Vec<String> = Vec::new();
    parts.push(owned("&"));
    parts.push(powershell_single_quote(executable));
    let mut i: usize = 0;
    while i < args.len()
        invariant
            i <= args.len(),
            strings_view(parts@) == seq!["&"@, powershell_single_quote_spec(executable@)]
                + strings_view(args@).take(i as int).map_values(
                |a: Seq<char>| powershell_single_quote_spec(a),
            ),
        decreases args.len() - i,
    {
        let ghost before = strings_view(parts@);
        let q = powershell_single_quote(args[i].as_str());
        parts.push(q);
        assert(strings_view(parts@) =~= before.push(q@));
        assert(strings_view(args@).take(i + 1).map_values(
            |a: Seq<char>| powershell_single_quote_spec(a),
        ) =~= strings_view(args@).take(i as int).map_values(
            |a: Seq<char>| powershell_single_quote_spec(a),
        ).push(powershell_single_quote_spec(args@[i as int]@)));
        i = i + 1;
        assert(strings_view(parts@) =~= seq!["&"@, powershell_single_quote_spec(executable@)]
            + strings_view(args@).take(i as int).map_values(
            |a: Seq<char>| powershell_single_quote_spec(a),
        ));
    }
    assert(strings_view(args@).take(args.len() as int) =~= strings_view(args@));
    join_strings(&parts, " ")
}

/// The handler of a failed transcript start: a warning when the session falls back to a plain
/// one, otherwise the error is thrown again.
pub open spec fn transcript_start_catch(fallback_to_plain: bool) -> Seq<char> {
    if fallback_to_plain {
        "catch { Write-Warning \"TeraDock session logging failed to start; continuing without logging.\" }"@
    } else {
        "catch { throw }"@
    }
}

/// The PowerShell script that records a transcript of the ssh session to `log_path` and exits
/// with ssh's exit code.
pub open spec fn powershell_transcript_command_spec(
    log_path: Seq<char>,
    ssh_executable: Seq<char>,
    ssh_args: Seq<Seq<char>>,
    fallback_to_plain: bool,
) -> Seq<char> {
    "$ErrorActionPreference = 'Stop'; $teradockTranscriptStarted = $false; try { Start-Transcript -Path "@
        + powershell_single_quote_spec(log_path)
        + " -Force | Out-Null; $teradockTranscriptStarted = $true; } "@ + transcript_start_catch(
        fallback_to_plain,
    ) + " try { "@ + powershell_call_command_spec(ssh_executable, ssh_args)
        + "; $teradockExitCode = if ($null -eq $LASTEXITCODE) { 0 } else { $LASTEXITCODE }; } finally { if ($teradockTranscriptStarted) { try { Stop-Transcript | Out-Null } catch { Write-Warning $_ } } }; exit $teradockExitCode"@
}

/// The PowerShell script that records a transcript of the ssh session.
pub fn powershell_transcript_command(
    log_path: &str,
    ssh_executable: &str,
    ssh_args: &Vec<String>,
    fallback_to_plain: bool,
) -> (r: String)
    ensures
        r@ == powershell_transcript_command_spec(
            log_path@,
            ssh_executable@,
            strings_view(ssh_args@),
            fallback_to_plain,
        ),
{
    let ssh_command = powershell_call_command(ssh_executable, ssh_args);
    let catch_clause = if fallback_to_plain {
        "catch { Write-Warning \"TeraDock session logging failed to start; continuing without logging.\" }"
    } else {
        "catch { throw }"
    };
    let quoted_log = powershell_single_quote(log_path);
    let mut r = owned(
        "$ErrorActionPreference = 'Stop'; $teradockTranscriptStarted = $false; try { Start-Transcript -Path ",
    );
    r.append(quoted_log.as_str());
    r.append(" -Force | Out-Null; $teradockTranscriptStarted = $true; } ");
    r.append(catch_clause);
    r.append(" try { ");
    r.append(ssh_command.as_str());
    r.append(
        "; $teradockExitCode = if ($null -eq $LASTEXITCODE) { 0 } else { $LASTEXITCODE }; } finally { if ($teradockTranscriptStarted) { try { Stop-Transcript | Out-Null } catch { Write-Warning $_ } } }; exit $teradockExitCode",
    );
    r
}

/// The arguments of the `script` command that records the ssh session to `log_path`: on macOS
/// the command follows the log file, elsewhere it is one shell command line after `-c`.
pub open spec fn script_args_spec(
    platform: SessionLogPlatform,
    log_path: Seq<char>,
    ssh_executable: Seq<char>,
    ssh_args: Seq<Seq<char>>,
) -> Seq<Seq<char>> {
    if platform == SessionLogPlatform::Macos {
        seq!["-q"@, log_path, ssh_executable] + ssh_args
    } else {
        seq![
            "-q"@,
            "-f"@,
            "-e"@,
            "-c"@,
            posix_shell_command_spec(ssh_executable, ssh_args),
            log_path,
        ]
    }
}

/// The `script` invocation that records an ssh session, for the platform it runs on.
pub fn build_script_invocation(
    script_path: &str,
    files: &SessionLogFiles,
    ssh_executable: &str,
    ssh_args: &Vec<String>,
    platform: SessionLogPlatform,
) -> (r: ExternalCommandInvocation)
    ensures
        r.executable@ == script_path@,
        strings_view(r.args@) == script_args_spec(
            platform,
            files.log_path@,
            ssh_executable@,
            strings_view(ssh_args@),
        ),
{
    let mut args: Vec<String> = Vec::new();
    if platform == SessionLogPlatform::Macos {
        push_owned(&mut args, "-q");
        push_owned(&mut args, files.log_path.as_str());
        push_owned(&mut args, ssh_executable);
        let mut i: usize = 0;
        while i < ssh_args.len()
            invariant
                i <= ssh_args.len(),
                strings_view(args@) == seq!["-q"@, files.log_path@, ssh_executable@]
                    + strings_view(ssh_args@).take(i as int),
            decreases ssh_args.len() - i,
        {
            push_owned(&mut args, ssh_args[i].as_str());
            i = i + 1;
            assert(strings_view(args@) =~= seq!["-q"@, files.log_path@, ssh_executable@]
                + strings_view(ssh_args@).take(i as int));
        }
        assert(strings_view(ssh_args@).take(ssh_args.len() as int) =~= strings_view(ssh_args@));
    } else {
        push_owned(&mut args, "-q");
        push_owned(&mut args, "-f");
        push_owned(&mut args, "-e");
        push_owned(&mut args, "-c");
        let command = posix_shell_command(ssh_executable, ssh_args);
        push_owned(&mut args, command.as_str());
        push_owned(&mut args, files.log_path.as_str());
    }
    assert(strings_view(args@) =~= script_args_spec(
        platform,
        files.log_path@,
        ssh_executable@,
        strings_view(ssh_args@),
    ));
    ExternalCommandInvocation { executable: owned(script_path), args }
}

/// The PowerShell invocation that records an ssh session as a transcript.
pub fn build_powershell_transcript_invocation(
    powershell_path: &str,
    files: &SessionLogFiles,
    ssh_executable: &str,
    ssh_args: &Vec<String>,
    launch_failure_policy: SessionLogLaunchFailurePolicy,
) -> (r: ExternalCommandInvocation)
    ensures
        r.executable@ == powershell_path@,
        strings_view(r.args@) == seq![
            "-NoLogo"@,
            "-NoProfile"@,
            "-ExecutionPolicy"@,
            "Bypass"@,
            "-Command"@,
            powershell_transcript_command_spec(
                files.log_path@,
                ssh_executable@,
                strings_view(ssh_args@),
                launch_failure_policy == SessionLogLaunchFailurePolicy::FallbackToPlain,
            ),
        ],
{
    let mut args: Vec<String> = Vec::new();
    push_owned(&mut args, "-NoLogo");
    push_owned(&mut args, "-NoProfile");
    push_owned(&mut args, "-ExecutionPolicy");
    push_owned(&mut args, "Bypass");
    push_owned(&mut args, "-Command");
    let command = powershell_transcript_command(
        files.log_path.as_str(),
        ssh_executable,
        ssh_args,
        launch_failure_policy.fallback_to_plain(),
    );
    push_owned(&mut args, command.as_str());
    ExternalCommandInvocation { executable: owned(powershell_path), args }
}

/// What is recorded of one logged session; it holds no secret material.
#[derive(Debug, Clone, PartialEq, Eq)]
pub struct SessionLogMetadata {
    pub session_id: String,
    pub profile_id: String,
    pub user: String,
    pub host: String,
    pub port: u16,
    pub started_at: i64,
    pub ended_at: i64,
    pub duration_ms: i64,
    pub exit_code: Option<i32>,
    pub backend: String,
    pub log_path: Option<String>,
    pub metadata_path: String,
    pub status: String,
    pub reason: Option<String>,
}

/// Whether `m` records the session of `files` to `target` as completed by `backend`.
pub open spec fn completed_metadata(
    m: SessionLogMetadata,
    files: SessionLogFiles,
    target: SshTarget,
    started_at: i64,
    ended_at: i64,
    duration_ms: i64,
    exit_code: Option<i32>,
    backend: Seq<char>,
) -> bool {
    &&& m.session_id@ == files.session_id@
    &&& m.profile_id@ == target.profile_id@
    &&& m.user@ == target.user@
    &&& m.host@ == target.host@
    &&& m.port == target.port
    &&& m.started_at == started_at
    &&& m.ended_at == ended_at
    &&& m.duration_ms == duration_ms
    &&& m.exit_code == exit_code
    &&& m.backend@ == backend
    &&& opt_view(m.log_path) == Some(files.log_path@)
    &&& m.metadata_path@ == files.metadata_path@
    &&& m.status@ == status_for_exit_spec(exit_code)
    &&& m.reason is None
}

/// Whether `r` is the outcome of completing a logged session: the metadata when the log file is
/// present, otherwise the error naming the missing log.
pub open spec fn completion_spec(
    r: Result<SessionLogMetadata, CoreError>,
    files: SessionLogFiles,
    target: SshTarget,
    started_at: i64,
    ended_at: i64,
    duration_ms: i64,
    exit_code: Option<i32>,
    backend: Seq<char>,
    log_file_present: bool,
) -> bool {
    if log_file_present {
        r matches Ok(m) && completed_metadata(
            m,
            files,
            target,
            started_at,
            ended_at,
            duration_ms,
            exit_code,
            backend,
        )
    } else {
        r matches Err(CoreError::NotFound(msg)) && msg@ == "session log not found: "@
            + files.log_path@
    }
}

fn complete_logged_session(
    files: &SessionLogFiles,
    target: &SshTarget,
    started_at: i64,
    ended_at: i64,
    duration_ms: i64,
    exit_code: Option<i32>,
    backend: &str,
    log_file_present: bool,
) -> (r: Result<SessionLogMetadata, CoreError>)
    ensures
        completion_spec(
            r,
            *files,
            *target,
            started_at,
            ended_at,
            duration_ms,
            exit_code,
            backend@,
            log_file_present,
        ),
{
    if !log_file_present {
        return Err(CoreError::NotFound(concat2("session log not found: ", files.log_path.as_str())));
    }
    Ok(
        SessionLogMetadata {
            session_id: files.session_id.clone(),
            profile_id: target.profile_id.clone(),
            user: target.user.clone(),
            host: target.host.clone(),
            port: target.port,
            started_at,
            ended_at,
            duration_ms,
            exit_code,
            backend: owned(backend),
            log_path: Some(files.log_path.clone()),
            metadata_path: files.metadata_path.clone(),
            status: status_for_exit(exit_code),
            reason: None,
        },
    )
}

/// The metadata of a session recorded by `script`, or the error when its log file is missing.
pub fn complete_script_session(
    files: &SessionLogFiles,
    target: &SshTarget,
    started_at: i64,
    ended_at: i64,
    duration_ms: i64,
    exit_code: Option<i32>,
    log_file_present: bool,
) -> (r: Result<SessionLogMetadata, CoreError>)
    ensures
        completion_spec(
            r,
            *files,
            *target,
            started_at,
            ended_at,
            duration_ms,
            exit_code,
            "script"@,
            log_file_present,
        ),
{
    complete_logged_session(
        files,
        target,
        started_at,
        ended_at,
        duration_ms,
        exit_code,
        "script",
        log_file_present,
    )
}

/// The metadata of a session recorded as a PowerShell transcript, or the error when its log file
/// is missing.
pub fn complete_powershell_transcript_session(
    files: &SessionLogFiles,
    target: &SshTarget,
    started_at: i64,
    ended_at: i64,
    duration_ms: i64,
    exit_code: Option<i32>,
    log_file_present: bool,
) -> (r: Result<SessionLogMetadata, CoreError>)
    ensures
        completion_spec(
            r,
            *files,
            *target,
            started_at,
            ended_at,
            duration_ms,
            exit_code,
            "powershell-transcript"@,
            log_file_present,
        ),
{
    complete_logged_session(
        files,
        target,
        started_at,
        ended_at,
        duration_ms,
        exit_code,
        "powershell-transcript",
        log_file_present,
    )
}

/// Whether `x` may be listed before `y`: it started later, or at the same time with a session id
/// that is not smaller.
pub open spec fn listed_before(x: SessionLogMetadata, y: SessionLogMetadata) -> bool {
    x.started_at > y.started_at || (x.started_at == y.started_at && !text_less(
        x.session_id@,
        y.session_id@,
    ))
}

/// Whether a listing is newest first, ties broken by the larger session id.
pub open spec fn newest_first(s: Seq<SessionLogMetadata>) -> bool {
    forall|i: int, j: int| 0 <= i < j < s.len() ==> listed_before(#[trigger] s[i], #[trigger] s[j])
}

fn strictly_before(x: &SessionLogMetadata, y: &SessionLogMetadata) -> (r: bool)
    ensures
        r == !listed_before(*y, *x),
{
    x.started_at > y.started_at || (x.started_at == y.started_at && text_less_exec(
        y.session_id.as_str(),
        x.session_id.as_str(),
    ))
}

proof fn lemma_listed_before_chain(x: SessionLogMetadata, y: SessionLogMetadata, z: SessionLogMetadata)
    requires
        !listed_before(y, x),
        listed_before(y, z),
    ensures
        listed_before(x, z),
{
    if x.started_at == y.started_at && y.started_at == z.started_at {
        crate::text::lemma_text_less_total(z.session_id@, y.session_id@);
        if text_less(x.session_id@, z.session_id@) {
            if z.session_id@ != y.session_id@ {
                crate::text::lemma_text_less_transitive(
                    z.session_id@,
                    y.session_id@,
                    x.session_id@,
                );
            }
            crate::text::lemma_text_less_asymmetric(x.session_id@, z.session_id@);
        }
    }
}

/// Started at `started_at` under the session id `session_id`.
pub open spec fn listed_at(started_at: i64, session_id: Seq<char>) -> spec_fn(SessionLogMetadata) -> bool {
    |m: SessionLogMetadata| m.started_at == started_at && m.session_id@ == session_id
}

/// The sessions of a listing with one start time and session id, in their order.
pub open spec fn sessions_at(s: Seq<SessionLogMetadata>, started_at: i64, session_id: Seq<char>) -> Seq<
    SessionLogMetadata,
> {
    s.filter(listed_at(started_at, session_id))
}

/// Putting `x` in front of the entries listed after it adds `x` at the end of the group of
/// its own start time and session id, and leaves every other group as it was.
proof fn lemma_insert_keeps_session_groups(
    r: Seq<SessionLogMetadata>,
    p: int,
    x: SessionLogMetadata,
    started_at: i64,
    session_id: Seq<char>,
)
    requires
        0 <= p <= r.len(),
        forall|k: int|
            p <= k < r.len() ==> !(#[trigger] r[k].started_at == x.started_at && r[k].session_id@
                == x.session_id@),
    ensures
        sessions_at(r.insert(p, x), started_at, session_id) == if listed_at(started_at, session_id)(x) {
            sessions_at(r, started_at, session_id).push(x)
        } else {
            sessions_at(r, started_at, session_id)
        },
{
    broadcast use vstd::seq_lib::group_seq_properties;

    let pred = listed_at(started_at, session_id);
    let a = r.take(p);
    let b = r.skip(p);
    assert(r =~= a + b);
    assert(r.insert(p, x) =~= a + seq![x] + b);
    Seq::filter_distributes_over_add(a, b, pred);
    Seq::filter_distributes_over_add(a + seq![x], b, pred);
    Seq::filter_distributes_over_add(a, seq![x], pred);
    Seq::<SessionLogMetadata>::empty().lemma_filter_push(x, pred);
    assert(seq![x] =~= Seq::<SessionLogMetadata>::empty().push(x));
    reveal(Seq::filter);
    assert(Seq::<SessionLogMetadata>::empty().filter(pred) =~= Seq::<SessionLogMetadata>::empty());
    if pred(x) {
        assert(b.all(|e: SessionLogMetadata| !pred(e))) by {
            assert forall|k: int| 0 <= k < b.len() implies !pred(#[trigger] b[k]) by {
                assert(b[k] == r[p + k]);
            }
        }
        b.lemma_all_neg_filter_empty(pred);
        assert(b.filter(pred) =~= Seq::<SessionLogMetadata>::empty());
        assert(a.filter(pred) + b.filter(pred) =~= a.filter(pred));
        assert(a.filter(pred) + seq![x] + b.filter(pred) =~= a.filter(pred).push(x));
    } else {
        assert(a.filter(pred) + Seq::<SessionLogMetadata>::empty() + b.filter(pred) =~= a.filter(pred)
            + b.filter(pred));
    }
}

/// Orders session logs newest first, ties broken by the larger session id; sessions with the
/// same start time and id keep their order (a stable sort).
pub fn sort_newest_first(items: Vec<SessionLogMetadata>) -> (r: Vec<SessionLogMetadata>)
    ensures
        newest_first(r@),
        r@.to_multiset() == items@.to_multiset(),
        forall|started_at: i64, session_id: Seq<char>|
            #[trigger] sessions_at(r@, started_at, session_id) == sessions_at(items@, started_at, session_id),
{
    broadcast use vstd::multiset::group_multiset_axioms;
    broadcast use vstd::seq_lib::group_to_multiset_ensures;

    let ghost all = items@.to_multiset();
    let ghost all_seq = items@;
    let ghost mut done: Seq<SessionLogMetadata> = Seq::empty();
    let mut rest = items;
    let mut r: Vec<SessionLogMetadata> = Vec::new();
    assert(r@.to_multiset() =~= vstd::multiset::Multiset::empty());
    assert(r@.to_multiset().add(rest@.to_multiset()) =~= all);
    proof {
        assert(done + rest@ =~= all_seq);
        assert forall|t: i64, id: Seq<char>| #[trigger] sessions_at(r@, t, id) == sessions_at(done, t, id) by {
            assert(r@ =~= done);
        }
    }
    while rest.len() > 0
        invariant
            newest_first(r@),
            r@.to_multiset().add(rest@.to_multiset()) == all,
            done + rest@ == all_seq,
            forall|t: i64, id: Seq<char>| #[trigger] sessions_at(r@, t, id) == sessions_at(done, t, id),
        decreases rest.len(),
    {
        let ghost rest_before = rest@;
        let x = rest.remove(0);
        proof {
            vstd::seq_lib::to_multiset_remove(rest_before, 0);
            assert(rest_before[0] == x);
            assert(rest_before.contains(x));
            vstd::seq_lib::to_multiset_contains(rest_before, x);
        }
        let mut p: usize = 0;
        let mut searching = true;
        while searching && p < r.len()
            invariant
                p <= r.len(),
                newest_first(r@),
                forall|k: int| 0 <= k < p ==> listed_before(#[trigger] r@[k], x),
                !searching ==> p < r.len() && !listed_before(r@[p as int], x),
            decreases r.len() - p + if searching {
                1int
            } else {
                0int
            },
        {
            if strictly_before(&x, &r[p]) {
                searching = false;
            } else {
                p = p + 1;
            }
        }
        let ghost before = r@;
        proof {
            vstd::seq_lib::to_multiset_insert(before, p as int, x);
            assert forall|k: int| p <= k < before.len() implies listed_before(
                x,
                #[trigger] before[k],
            ) by {
                crate::text::lemma_text_less_asymmetric(x.session_id@, before[p as int].session_id@);
                if k > p {
                    lemma_listed_before_chain(x, before[p as int], before[k]);
                }
            }
        }
        r.insert(p, x);
        assert(r@.to_multiset().add(rest@.to_multiset()) =~= all);
        assert forall|i: int, j: int| 0 <= i < j < r@.len() implies listed_before(
            #[trigger] r@[i],
            #[trigger] r@[j],
        ) by {
            if j < p {
                assert(r@[i] == before[i]);
                assert(r@[j] == before[j]);
            } else if j == p {
                assert(r@[i] == before[i]);
            } else if i < p {
                assert(r@[i] == before[i]);
                assert(r@[j] == before[j - 1]);
                assert(listed_before(x, before[j - 1]));
                lemma_listed_before_trans_via(before[i], x, before[j - 1]);
            } else if i == p {
                assert(r@[j] == before[j - 1]);
            } else {
                assert(r@[i] == before[i - 1]);
                assert(r@[j] == before[j - 1]);
            }
        }
        proof {
            assert forall|k: int| p <= k < before.len() implies !(#[trigger] before[k].started_at
                == x.started_at && before[k].session_id@ == x.session_id@) by {
                if before[k].started_at == x.started_at && before[k].session_id@ == x.session_id@ {
                    crate::text::lemma_text_less_asymmetric(x.session_id@, x.session_id@);
                    assert(listed_before(before[k], x));
                    if k > p {
                        assert(listed_before(before[p as int], before[k]));
                        lemma_listed_before_trans_via(before[p as int], before[k], x);
                    }
                }
            }
            let ghost done_before = done;
            done = done.push(x);
            assert(done + rest@ =~= all_seq) by {
                assert(rest_before =~= seq![x] + rest@);
                assert(done_before + rest_before == all_seq);
            }
            assert forall|t: i64, id: Seq<char>| #[trigger] sessions_at(r@, t, id) == sessions_at(done, t, id) by {
                lemma_insert_keeps_session_groups(before, p as int, x, t, id);
                done_before.lemma_filter_push(x, listed_at(t, id));
                assert(sessions_at(before, t, id) == sessions_at(done_before, t, id));
            }
        }
    }
    proof {
        assert(done =~= all_seq);
    }
    r
}

proof fn lemma_listed_before_trans_via(a: SessionLogMetadata, b: SessionLogMetadata, c: SessionLogMetadata)
    requires
        listed_before(a, b),
        listed_before(b, c),
    ensures
        listed_before(a, c),
{
    if a.started_at == b.started_at && b.started_at == c.started_at {
        if text_less(a.session_id@, c.session_id@) {
            crate::text::lemma_text_less_total(a.session_id@, b.session_id@);
            crate::text::lemma_text_less_total(b.session_id@, c.session_id@);
            if a.session_id@ != b.session_id@ && b.session_id@ != c.session_id@ {
                crate::text::lemma_text_less_transitive(c.session_id@, b.session_id@, a.session_id@);
                crate::text::lemma_text_less_asymmetric(a.session_id@, c.session_id@);
            } else if a.session_id@ == b.session_id@ {
                crate::text::lemma_text_less_asymmetric(b.session_id@, c.session_id@);
            } else {
                crate::text::lemma_text_less_asymmetric(a.session_id@, b.session_id@);
            }
        }
    }
}

/// An operation log's metadata once a session-log reference is added to it: whether a log was
/// saved, and the saved log's id or the reason none was saved, when the reference has them.
pub open spec fn with_reference(
    meta: Map<Seq<char>, MetaValueView>,
    reference: SessionLogReference,
) -> Map<Seq<char>, MetaValueView> {
    let m1 = meta.insert("session_log_saved"@, MetaValueView::Flag(reference.saved));
    let m2 = match reference.session_id {
        Some(id) => m1.insert("session_log_id"@, MetaValueView::Text(id@)),
        None => m1,
    };
    match reference.reason {
        Some(reason) => m2.insert("session_log_reason"@, MetaValueView::Text(reason@)),
        None => m2,
    }
}

/// Adds a session-log reference to an operation log's metadata.
pub fn add_reference_to_meta(meta: &mut MetaObject, reference: &SessionLogReference)
    ensures
        final(meta)@ == with_reference(old(meta)@, *reference),
{
    meta.insert("session_log_saved", MetaValue::Flag(reference.saved));
    match &reference.session_id {
        Some(session_id) => meta.insert("session_log_id", MetaValue::Text(session_id.clone())),
        None => {},
    }
    match &reference.reason {
        Some(reason) => meta.insert("session_log_reason", MetaValue::Text(reason.clone())),
        None => {},
    }
}

/// Law: adding a session-log reference only ever sets the three session-log keys; every other
/// key keeps its value.
pub proof fn lemma_reference_adds_only_log_keys(
    meta: Map<Seq<char>, MetaValueView>,
    reference: SessionLogReference,
    key: Seq<char>,
)
    requires
        key != "session_log_saved"@,
        key != "session_log_id"@,
        key != "session_log_reason"@,
    ensures
        with_reference(meta, reference).dom().contains(key) == meta.dom().contains(key),
        meta.dom().contains(key) ==> with_reference(meta, reference)[key] == meta[key],
{
}

/// The session-log configuration from the stored values of its settings: logging is enabled when
/// the flag reads `true` (any case, surrounding whitespace ignored), the backend defaults to
/// `auto`, and an unknown backend is refused.
pub fn config_from_values(
    enabled_raw: Option<&str>,
    backend_raw: Option<&str>,
    dir: String,
) -> (r: Result<SessionLogConfig, CoreError>)
    ensures
        ({
            let b = match backend_raw {
                Some(v) => v@,
                None => "auto"@,
            };
            match backend_from_name(ascii_lower(trim(b))) {
                Some(backend) => r matches Ok(c) && c.enabled == flag_is_true(opt_str_view(enabled_raw))
                    && c.backend == backend && c.dir@ == dir@,
                None => r matches Err(CoreError::InvalidSetting(m)) && m@
                    == "unknown session log backend '"@ + ascii_lower(trim(b)) + "'"@,
            }
        }),
{
    let enabled = setting_flag(enabled_raw);
    let backend_text = match backend_raw {
        Some(v) => v,
        None => "auto",
    };
    let backend = SessionLogBackendSetting::parse(backend_text)?;
    Ok(SessionLogConfig { enabled, dir, backend })
}

/// The default value shown for a session-log setting; `dir` is the configured log directory.
pub fn default_value_for_key(key: &str, dir: &str) -> (r: Option<String>)
    ensures
        opt_view(r) == if key@ == "session.log.enabled"@ {
            Some("false"@)
        } else if key@ == "session.log.backend"@ {
            Some("auto"@)
        } else if key@ == "session.log.dir"@ {
            Some(dir@)
        } else {
            None::<Seq<char>>
        },
{
    if str_eq(key, "session.log.enabled") {
        Some(owned("false"))
    } else if str_eq(key, "session.log.backend") {
        Some(owned("auto"))
    } else if str_eq(key, "session.log.dir") {
        Some(owned(dir))
    } else {
        None
    }
}

} // verus!
