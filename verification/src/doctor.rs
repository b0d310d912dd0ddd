use vstd::prelude::*;

use crate::agent::AgentStatus;
use crate::settings::opt_view;
use crate::text::{ascii_lower, chars_ascii_lower, chars_eq_str, chars_of, concat2, concat3, is_ws, char_is_ws, owned, pieces_view, slice_chars, split, split_chars, split_once, split_once_chars, starts_with_chars, string_from_chars, strings_view, trim, trim_chars, trim_start};
use crate::id::starts_with;
use crate::configset::strip_prefixes;

verus! {

/// Where a client executable was found.
#[derive(Debug, Clone, Copy, PartialEq, Eq, Structural)]
pub enum ClientSource {
    ProfileOverride,
    GlobalOverride,
    Path,
    Missing,
}

impl ClientSource {
    /// The text the original prints for this source.
    pub fn as_str(&self) -> (r: &'static str)
        ensures
            r@ == client_source_text(*self),
    {
        match self {
            ClientSource::ProfileOverride => "profile override",
            ClientSource::GlobalOverride => "global override",
            ClientSource::Path => "path",
            ClientSource::Missing => "missing",
        }
    }
}

/// The display text of a client source.
pub open spec fn client_source_text(s: ClientSource) -> Seq<char> {
    match s {
        ClientSource::ProfileOverride => "profile override"@,
        ClientSource::GlobalOverride => "global override"@,
        ClientSource::Path => "path"@,
        ClientSource::Missing => "missing"@,
    }
}

/// One external client in a doctor report.
#[derive(Debug, Clone)]
pub struct ClientStatus {
    pub name: String,
    pub path: Option<String>,
    pub source: ClientSource,
}

/// A warning or error found by the doctor.
#[derive(Debug, Clone)]
pub struct DoctorMessage {
    pub code: String,
    pub message: String,
}

/// The external clients TeraDock drives.
#[derive(Debug, Clone, Copy, PartialEq, Eq, Structural)]
pub enum ClientKind {
    Ssh,
    Scp,
    Sftp,
    Ftp,
    Telnet,
}

/// The name of a client kind.
pub open spec fn client_kind_name(k: ClientKind) -> Seq<char> {
    match k {
        ClientKind::Ssh => "ssh"@,
        ClientKind::Scp => "scp"@,
        ClientKind::Sftp => "sftp"@,
        ClientKind::Ftp => "ftp"@,
        ClientKind::Telnet => "telnet"@,
    }
}

/// The executable names searched in PATH for a client kind.
pub open spec fn client_candidates(k: ClientKind) -> Seq<Seq<char>> {
    match k {
        ClientKind::Ssh => seq!["ssh"@, "ssh.exe"@],
        ClientKind::Scp => seq!["scp"@, "scp.exe"@],
        ClientKind::Sftp => seq!["sftp"@, "sftp.exe"@],
        ClientKind::Ftp => seq!["ftp"@, "ftp.exe"@],
        ClientKind::Telnet => seq!["telnet"@, "telnet.exe"@],
    }
}

impl ClientKind {
    pub fn as_str(&self) -> (r: &'static str)
        ensures
            r@ == client_kind_name(*self),
    {
        match self {
            ClientKind::Ssh => "ssh",
            ClientKind::Scp => "scp",
            ClientKind::Sftp => "sftp",
            ClientKind::Ftp => "ftp",
            ClientKind::Telnet => "telnet",
        }
    }

    /// The executable names to look for in PATH.
    pub fn candidates(&self) -> (r: Vec<String>)
        ensures
            r@.map_values(|s: String| s@) == client_candidates(*self),
    {
        let (a, b) = match self {
            ClientKind::Ssh => ("ssh", "ssh.exe"),
            ClientKind::Scp => ("scp", "scp.exe"),
            ClientKind::Sftp => ("sftp", "sftp.exe"),
            ClientKind::Ftp => ("ftp", "ftp.exe"),
            ClientKind::Telnet => ("telnet", "telnet.exe"),
        };
        let mut r: Vec<String> = Vec::new();
        r.push(owned(a));
        r.push(owned(b));
        assert(r@.map_values(|s: String| s@) =~= client_candidates(*self));
        r
    }
}

/// Executable paths that override PATH lookup, per client kind.
#[derive(Debug, Clone, Default)]
pub struct ClientOverrides {
    pub ssh: Option<String>,
    pub scp: Option<String>,
    pub sftp: Option<String>,
    pub ftp: Option<String>,
    pub telnet: Option<String>,
}

/// The override configured for a client kind.
pub open spec fn override_for(o: ClientOverrides, kind: ClientKind) -> Option<String> {
    match kind {
        ClientKind::Ssh => o.ssh,
        ClientKind::Scp => o.scp,
        ClientKind::Sftp => o.sftp,
        ClientKind::Ftp => o.ftp,
        ClientKind::Telnet => o.telnet,
    }
}

impl ClientOverrides {
    /// The override path for a client kind, if any.
    pub fn path_for(&self, kind: ClientKind) -> (r: Option<&String>)
        ensures
            r == match override_for(*self, kind) {
                Some(p) => Some(&p),
                None => None::<&String>,
            },
    {
        match kind {
            ClientKind::Ssh => self.ssh.as_ref(),
            ClientKind::Scp => self.scp.as_ref(),
            ClientKind::Sftp => self.sftp.as_ref(),
            ClientKind::Ftp => self.ftp.as_ref(),
            ClientKind::Telnet => self.telnet.as_ref(),
        }
    }
}

/// A resolved client path and where it came from.
#[derive(Debug, Clone)]
pub struct ResolvedClient {
    pub path: Option<String>,
    pub source: ClientSource,
}

/// What the doctor found: the clients, the agent, and the warnings and errors.
#[derive(Debug, Clone)]
pub struct DoctorReport {
    pub clients: Vec<ClientStatus>,
    pub agent: AgentStatus,
    pub warnings: Vec<DoctorMessage>,
    pub errors: Vec<DoctorMessage>,
}

/// The override of `kind` in an optional set of overrides.
pub open spec fn configured_override(o: Option<&ClientOverrides>, kind: ClientKind) -> Option<String> {
    match o {
        Some(ovr) => override_for(*ovr, kind),
        None => None,
    }
}

/// The override path of `kind` in an optional set of overrides, if one is configured.
pub fn override_path(o: Option<&ClientOverrides>, kind: ClientKind) -> (r: Option<String>)
    ensures
        opt_view(r) == opt_view(configured_override(o, kind)),
{
    match o {
        Some(ovr) => match ovr.path_for(kind) {
            Some(p) => Some(p.clone()),
            None => None,
        },
        None => None,
    }
}

/// Where a client is taken from: a profile override naming a file, else a global override
/// naming a file, else what PATH lookup found, else nowhere.
pub open spec fn resolved_client_spec(
    profile_override: Option<Seq<char>>,
    profile_override_is_file: bool,
    global_override: Option<Seq<char>>,
    global_override_is_file: bool,
    found_on_path: Option<Seq<char>>,
) -> (Option<Seq<char>>, ClientSource) {
    if profile_override is Some && profile_override_is_file {
        (profile_override, ClientSource::ProfileOverride)
    } else if global_override is Some && global_override_is_file {
        (global_override, ClientSource::GlobalOverride)
    } else if found_on_path is Some {
        (found_on_path, ClientSource::Path)
    } else {
        (None, ClientSource::Missing)
    }
}

/// Law: the order in which a client is chosen. A profile override that names a file is taken,
/// whatever the global override and PATH give; otherwise a global override that names a file;
/// otherwise what PATH lookup found; otherwise nothing. The path comes with the source it was
/// taken from, and an override that names no file is never taken.
pub proof fn lemma_client_precedence(
    profile_override: Option<Seq<char>>,
    profile_override_is_file: bool,
    global_override: Option<Seq<char>>,
    global_override_is_file: bool,
    found_on_path: Option<Seq<char>>,
)
    ensures
        ({
            let r = resolved_client_spec(
                profile_override,
                profile_override_is_file,
                global_override,
                global_override_is_file,
                found_on_path,
            );
            let profile_usable = profile_override is Some && profile_override_is_file;
            let global_usable = global_override is Some && global_override_is_file;
            &&& (r.1 == ClientSource::ProfileOverride) <==> profile_usable
            &&& (r.1 == ClientSource::GlobalOverride) <==> (!profile_usable && global_usable)
            &&& (r.1 == ClientSource::Path) <==> (!profile_usable && !global_usable && found_on_path is Some)
            &&& (r.1 == ClientSource::Missing) <==> (!profile_usable && !global_usable && found_on_path is None)
            &&& r.1 == ClientSource::ProfileOverride ==> r.0 == profile_override
            &&& r.1 == ClientSource::GlobalOverride ==> r.0 == global_override
            &&& r.1 == ClientSource::Path ==> r.0 == found_on_path
            &&& r.1 == ClientSource::Missing ==> r.0 is None
        }),
{
}

/// Resolves a client, honouring the profile's override, then the global one, then PATH. The
/// flags say whether each override of `kind` names an existing file; `found_on_path` is what
/// PATH lookup found.
pub fn resolve_client_with_source(
    kind: ClientKind,
    profile_overrides: Option<&ClientOverrides>,
    global_overrides: Option<&ClientOverrides>,
    profile_override_is_file: bool,
    global_override_is_file: bool,
    found_on_path: Option<String>,
) -> (r: ResolvedClient)
    ensures
        (opt_view(r.path), r.source) == resolved_client_spec(
            opt_view(configured_override(profile_overrides, kind)),
            profile_override_is_file,
            opt_view(configured_override(global_overrides, kind)),
            global_override_is_file,
            opt_view(found_on_path),
        ),
{
    let p = override_path(profile_overrides, kind);
    if p.is_some() && profile_override_is_file {
        return ResolvedClient { path: p, source: ClientSource::ProfileOverride };
    }
    let g = override_path(global_overrides, kind);
    if g.is_some() && global_override_is_file {
        return ResolvedClient { path: g, source: ClientSource::GlobalOverride };
    }
    match found_on_path {
        Some(f) => ResolvedClient { path: Some(f), source: ClientSource::Path },
        None => ResolvedClient { path: None, source: ClientSource::Missing },
    }
}

/// The path of a client resolved with overrides.
pub fn resolve_client_with_overrides(
    kind: ClientKind,
    profile_overrides: Option<&ClientOverrides>,
    global_overrides: Option<&ClientOverrides>,
    profile_override_is_file: bool,
    global_override_is_file: bool,
    found_on_path: Option<String>,
) -> (r: Option<String>)
    ensures
        opt_view(r) == resolved_client_spec(
            opt_view(configured_override(profile_overrides, kind)),
            profile_override_is_file,
            opt_view(configured_override(global_overrides, kind)),
            global_override_is_file,
            opt_view(found_on_path),
        ).0,
{
    resolve_client_with_source(
        kind,
        profile_overrides,
        global_overrides,
        profile_override_is_file,
        global_override_is_file,
        found_on_path,
    ).path
}

/// A message as plain values.
pub open spec fn message_view(m: DoctorMessage) -> (Seq<char>, Seq<char>) {
    (m.code@, m.message@)
}

/// The messages as plain values.
pub open spec fn messages_view(v: Seq<DoctorMessage>) -> Seq<(Seq<char>, Seq<char>)> {
    v.map_values(|m: DoctorMessage| message_view(m))
}

fn message(code: &str, text: String) -> (r: DoctorMessage)
    ensures
        message_view(r) == (code@, text@),
{
    DoctorMessage { code: owned(code), message: text }
}

/// The warnings about the ssh agent: no socket set, or a listing that failed.
pub open spec fn agent_warnings_spec(auth_sock: Option<Seq<char>>, error: Option<Seq<char>>) -> Seq<
    (Seq<char>, Seq<char>),
> {
    match auth_sock {
        None => seq![
            ("ssh_agent_missing"@, "SSH_AUTH_SOCK is not set; ssh-agent may be unavailable."@),
        ],
        Some(_) => match error {
            Some(e) => seq![
                ("ssh_agent_list_failed"@, "ssh-agent keys could not be listed: "@ + e),
            ],
            None => seq![],
        },
    }
}

/// The warnings about the ssh agent.
pub fn agent_warnings(agent: &AgentStatus) -> (r: Vec<DoctorMessage>)
    ensures
        messages_view(r@) == agent_warnings_spec(opt_view(agent.auth_sock), opt_view(agent.error)),
{
    let mut r: Vec<DoctorMessage> = Vec::new();
    if agent.auth_sock.is_none() {
        r.push(
            message(
                "ssh_agent_missing",
                owned("SSH_AUTH_SOCK is not set; ssh-agent may be unavailable."),
            ),
        );
    } else {
        match &agent.error {
            Some(e) => {
                r.push(
                    message(
                        "ssh_agent_list_failed",
                        concat2("ssh-agent keys could not be listed: ", e.as_str()),
                    ),
                );
            },
            None => {},
        }
    }
    assert(messages_view(r@) =~= agent_warnings_spec(
        opt_view(agent.auth_sock),
        opt_view(agent.error),
    ));
    r
}

/// The position of the first whitespace character of `s`, or its length.
pub open spec fn first_ws(s: Seq<char>) -> int
    decreases s.len(),
{
    if s.len() == 0 {
        0
    } else if is_ws(s[0]) {
        0
    } else {
        1 + first_ws(s.drop_first())
    }
}

proof fn lemma_first_ws_bounds(s: Seq<char>)
    ensures
        0 <= first_ws(s) <= s.len(),
    decreases s.len(),
{
    if s.len() > 0 && !is_ws(s[0]) {
        lemma_first_ws_bounds(s.drop_first());
    }
}

/// The first word of `s`, as `split_whitespace` gives it for text without leading whitespace.
pub open spec fn first_word(s: Seq<char>) -> Seq<char> {
    s.take(first_ws(s))
}

pub(crate) fn first_ws_exec(v: &Vec<char>) -> (r: usize)
    ensures
        r as int == first_ws(v@),
        r <= v.len(),
{
    let mut i: usize = 0;
    assert(v@.skip(0) =~= v@);
    while i < v.len() && !char_is_ws(v[i])
        invariant
            i <= v.len(),
            first_ws(v@) == i + first_ws(v@.skip(i as int)),
        decreases v.len() - i,
    {
        assert(v@.skip(i as int).drop_first() =~= v@.skip(i + 1));
        i = i + 1;
    }
    i
}

/// A line of an ssh configuration as the doctor reads it: comment removed, trimmed; the keyword
/// and its first value, if the line has both.
pub open spec fn config_line_words(raw: Seq<char>) -> Option<(Seq<char>, Seq<char>)> {
    let line = trim(split_once(raw, '#').0);
    let key = first_word(line);
    let rest = trim_start(line.skip(key.len() as int));
    if line.len() == 0 || rest.len() == 0 {
        None
    } else {
        Some((key, first_word(rest)))
    }
}

/// What one line of an ssh configuration reveals.
pub enum ConfigFinding {
    Nothing,
    Warning(Seq<char>, Seq<char>),
    Identity(Seq<char>),
}

/// What one line of the ssh configuration at `path` reveals: host-key checking turned off,
/// known hosts disabled, or an identity file to look for.
pub open spec fn config_line_finding(path: Seq<char>, raw: Seq<char>) -> ConfigFinding {
    match config_line_words(raw) {
        None => ConfigFinding::Nothing,
        Some((key, value)) => {
            let k = ascii_lower(key);
            let v = ascii_lower(value);
            if k == "stricthostkeychecking"@ {
                if v == "no"@ || v == "off"@ || v == "accept-new"@ {
                    ConfigFinding::Warning(
                        "ssh_strict_host_key_unsafe"@,
                        "SSH config "@ + path + " sets StrictHostKeyChecking="@ + value
                            + " (unsafe)."@,
                    )
                } else {
                    ConfigFinding::Nothing
                }
            } else if k == "userknownhostsfile"@ {
                if v == "/dev/null"@ || v == "none"@ || v == "nul"@ {
                    ConfigFinding::Warning(
                        "ssh_known_hosts_disabled"@,
                        "SSH config "@ + path + " disables known_hosts with UserKnownHostsFile="@
                            + value + "."@,
                    )
                } else {
                    ConfigFinding::Nothing
                }
            } else if k == "identityfile"@ {
                ConfigFinding::Identity(value)
            } else {
                ConfigFinding::Nothing
            }
        },
    }
}

/// The warnings of an ssh configuration, line by line.
pub open spec fn config_warnings(path: Seq<char>, lines: Seq<Seq<char>>) -> Seq<
    (Seq<char>, Seq<char>),
>
    decreases lines.len(),
{
    if lines.len() == 0 {
        seq![]
    } else {
        config_warnings(path, lines.drop_last()) + match config_line_finding(path, lines.last()) {
            ConfigFinding::Warning(c, m) => seq![(c, m)],
            _ => seq![],
        }
    }
}

/// The identity files an ssh configuration names, line by line.
pub open spec fn config_identities(path: Seq<char>, lines: Seq<Seq<char>>) -> Seq<Seq<char>>
    decreases lines.len(),
{
    if lines.len() == 0 {
        seq![]
    } else {
        config_identities(path, lines.drop_last()) + match config_line_finding(
            path,
            lines.last(),
        ) {
            ConfigFinding::Identity(v) => seq![v],
            _ => seq![],
        }
    }
}

/// What scanning an ssh configuration gives: its warnings, and the identity files to check.
#[derive(Debug, Clone)]
pub struct ConfigScan {
    pub warnings: Vec<DoctorMessage>,
    pub identity_files: Vec<String>,
}

fn words_of_line(raw: &Vec<char>) -> (r: Option<(Vec<char>, Vec<char>)>)
    ensures
        match (r, config_line_words(raw@)) {
            (Some((k, v)), Some((a, b))) => k@ == a && v@ == b,
            (None, None) => true,
            _ => false,
        },
{
    let (before, _) = split_once_chars(raw, '#');
    let line = trim_chars(&before);
    if line.len() == 0 {
        return None;
    }
    let kend = first_ws_exec(&line);
    let key = slice_chars(&line, 0, kend);
    assert(key@ =~= first_word(line@));
    let after = slice_chars(&line, kend, line.len());
    assert(after@ =~= line@.skip(key@.len() as int));
    let rest = crate::text::trim_start_chars(&after);
    if rest.len() == 0 {
        return None;
    }
    let vend = first_ws_exec(&rest);
    let value = slice_chars(&rest, 0, vend);
    assert(value@ =~= first_word(rest@));
    Some((key, value))
}

/// Scans the text of the ssh configuration at `path` (shown as given) for unsafe settings and
/// for the identity files it names.
pub fn scan_ssh_config_text(path: &str, contents: &str) -> (r: ConfigScan)
    ensures
        messages_view(r.warnings@) == config_warnings(path@, split(contents@, '\n')),
        strings_view(r.identity_files@) == config_identities(path@, split(contents@, '\n')),
{
    proof {
        reveal_strlit("stricthostkeychecking");
        reveal_strlit("userknownhostsfile");
        reveal_strlit("identityfile");
    }
    let chars = chars_of(contents);
    let lines = split_chars(&chars, '\n');
    let ghost all = pieces_view(lines@);
    let mut warnings: Vec<DoctorMessage> = Vec::new();
    let mut identity_files: Vec<String> = Vec::new();
    let mut i: usize = 0;
    while i < lines.len()
        invariant
            i <= lines.len(),
            all == pieces_view(lines@),
            all == split(contents@, '\n'),
            messages_view(warnings@) == config_warnings(path@, all.take(i as int)),
            strings_view(identity_files@) == config_identities(path@, all.take(i as int)),
        decreases lines.len() - i,
    {
        let ghost wb = messages_view(warnings@);
        let ghost ib = strings_view(identity_files@);
        assert(all.take(i + 1).drop_last() =~= all.take(i as int));
        assert(all.take(i + 1).last() == lines@[i as int]@);
        match words_of_line(&lines[i]) {
            None => {},
            Some((key, value)) => {
                let k = chars_ascii_lower(&key);
                let v = chars_ascii_lower(&value);
                let value_text = string_from_chars(&value);
                if chars_eq_str(&k, "stricthostkeychecking") {
                    if chars_eq_str(&v, "no") || chars_eq_str(&v, "off") || chars_eq_str(
                        &v,
                        "accept-new",
                    ) {
                        let mut m = concat3(
                            "SSH config ",
                            path,
                            " sets StrictHostKeyChecking=",
                        );
                        m.append(value_text.as_str());
                        m.append(" (unsafe).");
                        warnings.push(message("ssh_strict_host_key_unsafe", m));
                    }
                } else if chars_eq_str(&k, "userknownhostsfile") {
                    if chars_eq_str(&v, "/dev/null") || chars_eq_str(&v, "none") || chars_eq_str(
                        &v,
                        "nul",
                    ) {
                        let mut m = concat3(
                            "SSH config ",
                            path,
                            " disables known_hosts with UserKnownHostsFile=",
                        );
                        m.append(value_text.as_str());
                        m.append(".");
                        warnings.push(message("ssh_known_hosts_disabled", m));
                    }
                } else if chars_eq_str(&k, "identityfile") {
                    identity_files.push(value_text);
                }
            },
        }
        assert(messages_view(warnings@) =~= config_warnings(path@, all.take(i + 1)));
        assert(strings_view(identity_files@) =~= config_identities(path@, all.take(i + 1)));
        i = i + 1;
    }
    assert(all.take(lines.len() as int) =~= all);
    ConfigScan { warnings, identity_files }
}

/// The warning for an ssh configuration that could not be read.
pub fn unreadable_config_message(path: &str) -> (r: DoctorMessage)
    ensures
        message_view(r) == ("ssh_config_unreadable"@, "SSH config at "@ + path@
            + " could not be read; skipping checks."@),
{
    message("ssh_config_unreadable", concat3("SSH config at ", path, " could not be read; skipping checks."))
}

/// The error for an identity file the configuration names but that does not exist.
pub fn missing_identity_message(path: &str, identity_path: &str) -> (r: DoctorMessage)
    ensures
        message_view(r) == ("ssh_identity_missing"@, "SSH config "@ + path@
            + " references missing IdentityFile "@ + identity_path@ + "."@),
{
    let mut m = concat3("SSH config ", path, " references missing IdentityFile ");
    m.append(identity_path);
    m.append(".");
    message("ssh_identity_missing", m)
}

/// Whether `c` is a quote character.
pub open spec fn is_quote(c: char) -> bool {
    c == '"' || c == '\''
}

/// `s` with quote characters removed from both ends, as `trim_matches` does.
pub open spec fn strip_quotes(s: Seq<char>) -> Seq<char>
    decreases s.len(),
{
    if s.len() > 0 && is_quote(s[0]) {
        strip_quotes(s.drop_first())
    } else if s.len() > 0 && is_quote(s.last()) {
        strip_quotes(s.drop_last())
    } else {
        s
    }
}

/// How an identity file named by an ssh configuration is located.
#[derive(Debug, Clone, PartialEq, Eq)]
pub enum IdentityPath {
    /// Not checked: the name holds a `%` token.
    Skip,
    /// The given path below the home directory (the name started with `~/`).
    UnderHome(String),
    /// The name as it stands: used when absolute, otherwise taken below the home directory.
    Plain(String),
}

/// How an identity file name is located: quotes stripped; a name with `%` tokens is not
/// checked; `~/` names are taken below the home directory.
pub open spec fn identity_path_spec(raw: Seq<char>) -> (int, Seq<char>) {
    let t = strip_quotes(raw);
    if exists|i: int| 0 <= i < t.len() && t[i] == '%' {
        (0, seq![])
    } else if starts_with(t, "~/"@) {
        (1, strip_prefixes(t, "~/"@))
    } else {
        (2, t)
    }
}

/// Locates an identity file name.
pub fn identity_path(raw: &str) -> (r: IdentityPath)
    ensures
        match r {
            IdentityPath::Skip => identity_path_spec(raw@).0 == 0,
            IdentityPath::UnderHome(p) => identity_path_spec(raw@) == (1int, p@),
            IdentityPath::Plain(p) => identity_path_spec(raw@) == (2int, p@),
        },
{
    proof {
        reveal_strlit("~/");
    }
    let mut v = chars_of(raw);
    while v.len() > 0 && (v[0] == '"' || v[0] == '\'' || v[v.len() - 1] == '"' || v[v.len() - 1]
        == '\'')
        invariant
            strip_quotes(v@) == strip_quotes(raw@),
        decreases v.len(),
    {
        if v[0] == '"' || v[0] == '\'' {
            let w = slice_chars(&v, 1, v.len());
            assert(w@ =~= v@.drop_first());
            v = w;
        } else {
            let w = slice_chars(&v, 0, v.len() - 1);
            assert(w@ =~= v@.drop_last());
            v = w;
        }
    }
    assert(strip_quotes(v@) == v@);
    let mut i: usize = 0;
    while i < v.len()
        invariant
            i <= v.len(),
            v@ == strip_quotes(raw@),
            forall|k: int| 0 <= k < i ==> v@[k] != '%',
        decreases v.len() - i,
    {
        if v[i] == '%' {
            assert(v@[i as int] == '%');
            return IdentityPath::Skip;
        }
        i = i + 1;
    }
    if starts_with_chars(&v, "~/") {
        while starts_with_chars(&v, "~/")
            invariant
                strip_prefixes(v@, "~/"@) == strip_prefixes(strip_quotes(raw@), "~/"@),
                "~/"@.len() == 2,
            decreases v.len(),
        {
            v = slice_chars(&v, 2, v.len());
        }
        IdentityPath::UnderHome(string_from_chars(&v))
    } else {
        IdentityPath::Plain(string_from_chars(&v))
    }
}

/// The executable extensions tried on PATH: none off Windows; on Windows the non-empty items of
/// `PATHEXT`, trimmed and dotted, or `.exe .bat .cmd .com` when it gives none.
pub open spec fn pathext_items(pieces: Seq<Seq<char>>) -> Seq<Seq<char>>
    decreases pieces.len(),
{
    if pieces.len() == 0 {
        seq![]
    } else {
        pathext_items(pieces.drop_last()) + if pieces.last().len() == 0 {
            seq![]
        } else if trim(pieces.last()).len() > 0 && trim(pieces.last())[0] == '.' {
            seq![trim(pieces.last())]
        } else {
            seq!["."@ + trim(pieces.last())]
        }
    }
}

/// The executable extensions tried on PATH.
pub open spec fn pathext_spec(raw: Option<Seq<char>>, windows: bool) -> Seq<Seq<char>> {
    if !windows {
        seq![]
    } else {
        let defaults = seq![".exe"@, ".bat"@, ".cmd"@, ".com"@];
        match raw {
            Some(r) => if pathext_items(split(r, ';')).len() > 0 {
                pathext_items(split(r, ';'))
            } else {
                defaults
            },
            None => defaults,
        }
    }
}

/// The executable extensions tried on PATH, from `PATHEXT` (`raw`) on Windows.
pub fn pathext(raw: Option<&str>, windows: bool) -> (r: Vec<String>)
    ensures
        strings_view(r@) == pathext_spec(
            match raw {
                Some(s) => Some(s@),
                None => None,
            },
            windows,
        ),
{
    let mut r: Vec<String> = Vec::new();
    if !windows {
        assert(strings_view(r@) =~= Seq::<Seq<char>>::empty());
        return r;
    }
    match raw {
        Some(text) => {
            let chars = chars_of(text);
            let pieces = split_chars(&chars, ';');
            let ghost all = pieces_view(pieces@);
            let mut i: usize = 0;
            while i < pieces.len()
                invariant
                    i <= pieces.len(),
                    all == pieces_view(pieces@),
                    all == split(text@, ';'),
                    strings_view(r@) == pathext_items(all.take(i as int)),
                decreases pieces.len() - i,
            {
                let ghost before = strings_view(r@);
                assert(all.take(i + 1).drop_last() =~= all.take(i as int));
                assert(all.take(i + 1).last() == pieces@[i as int]@);
                if pieces[i].len() > 0 {
                    let t = trim_chars(&pieces[i]);
                    let ts = string_from_chars(&t);
                    if t.len() > 0 && t[0] == '.' {
                        r.push(ts);
                    } else {
                        r.push(concat2(".", ts.as_str()));
                    }
                    assert(strings_view(r@) =~= before.push(strings_view(r@).last()));
                }
                i = i + 1;
                assert(strings_view(r@) =~= pathext_items(all.take(i as int)));
            }
            assert(all.take(pieces.len() as int) =~= all);
            if r.len() > 0 {
                return r;
            }
        },
        None => {},
    }
    let mut d: Vec<String> = Vec::new();
    d.push(owned(".exe"));
    d.push(owned(".bat"));
    d.push(owned(".cmd"));
    d.push(owned(".com"));
    assert(strings_view(d@) =~= seq![".exe"@, ".bat"@, ".cmd"@, ".com"@]);
    d
}

/// The clients the doctor checks, in the order it reports them.
pub open spec fn doctor_kinds() -> Seq<ClientKind> {
    seq![ClientKind::Ssh, ClientKind::Scp, ClientKind::Sftp, ClientKind::Ftp, ClientKind::Telnet]
}

/// The clients the doctor checks, in the order it reports them.
pub fn doctor_client_kinds() -> (r: Vec<ClientKind>)
    ensures
        r@ == doctor_kinds(),
{
    let mut r: Vec<ClientKind> = Vec::new();
    r.push(ClientKind::Ssh);
    r.push(ClientKind::Scp);
    r.push(ClientKind::Sftp);
    r.push(ClientKind::Ftp);
    r.push(ClientKind::Telnet);
    assert(r@ =~= doctor_kinds());
    r
}

/// The report line of a resolved client.
pub fn client_status(kind: ClientKind, resolved: ResolvedClient) -> (r: ClientStatus)
    ensures
        r.name@ == client_kind_name(kind),
        r.path == resolved.path,
        r.source == resolved.source,
{
    ClientStatus { name: owned(kind.as_str()), path: resolved.path, source: resolved.source }
}

/// The doctor's report: the clients, the agent, the agent's warnings followed by those of
/// the ssh configurations, and the configurations' errors.
pub fn doctor_report(
    clients: Vec<ClientStatus>,
    agent: AgentStatus,
    config_warnings: Vec<DoctorMessage>,
    config_errors: Vec<DoctorMessage>,
) -> (r: DoctorReport)
    ensures
        r.clients@ == clients@,
        r.agent == agent,
        messages_view(r.warnings@) == agent_warnings_spec(opt_view(agent.auth_sock), opt_view(agent.error))
            + messages_view(config_warnings@),
        r.errors@ == config_errors@,
{
    let mut warnings = agent_warnings(&agent);
    let ghost first = warnings@;
    let mut extra = config_warnings;
    warnings.append(&mut extra);
    proof {
        assert(warnings@ =~= first + config_warnings@);
        assert(messages_view(warnings@) =~= messages_view(first) + messages_view(config_warnings@));
    }
    DoctorReport { clients, agent, warnings, errors: config_errors }
}

} // verus!
