use vstd::prelude::*;

use crate::conpty_log::{decode_utf8_lossy, lossy_text};
use crate::doctor::{first_word, first_ws_exec};
use crate::error::CoreError;
use crate::id::{starts_with, text_lowercase, lowercased};
use crate::oplog::OpLogEntry;
use crate::ssh::{MetaObject, MetaValue, MetaValueView};
use crate::transfer::{via_name, TransferVia};
use crate::profile::{normalized_id_ok, normalized_record_id};
use crate::session_log::opt_str_view;
use crate::settings::opt_view;
use crate::text::{
    chars_eq_str, chars_of, concat2, concat3, owned, pieces_view, replace_char, replace_char_spec,
    slice_chars, split, split_chars, split_once, split_once_chars, starts_with_chars, str_eq,
    string_from_chars, trim, trim_chars, trim_start, trim_start_chars, i64_to_string, signed_decimal,
};

verus! {

/// A named set of configuration files to place on a host.
#[derive(Debug, Clone)]
pub struct ConfigSet {
    pub config_id: String,
    pub name: String,
    pub hooks_cmdset_id: Option<String>,
}

/// When a configuration file is copied to the host.
#[derive(Debug, Clone, Copy, PartialEq, Eq, Structural)]
pub enum ConfigFileWhen {
    Always,
    Missing,
    Changed,
}

/// The stored name of a copy condition.
pub open spec fn when_name(w: ConfigFileWhen) -> Seq<char> {
    match w {
        ConfigFileWhen::Always => "always"@,
        ConfigFileWhen::Missing => "missing"@,
        ConfigFileWhen::Changed => "changed"@,
    }
}

/// The copy condition named `s`.
pub open spec fn when_from_name(s: Seq<char>) -> Option<ConfigFileWhen> {
    if s == "always"@ {
        Some(ConfigFileWhen::Always)
    } else if s == "missing"@ {
        Some(ConfigFileWhen::Missing)
    } else if s == "changed"@ {
        Some(ConfigFileWhen::Changed)
    } else {
        None
    }
}

impl ConfigFileWhen {
    /// Reads a copy condition, in any case.
    pub fn parse(value: &str) -> (r: Result<ConfigFileWhen, CoreError>)
        ensures
            match when_from_name(lowercased(value@)) {
                Some(w) => r == Ok::<ConfigFileWhen, CoreError>(w),
                None => r matches Err(CoreError::InvalidCommandSpec(m)) && m@
                    == "invalid config when: "@ + value@,
            },
    {
        let lower = text_lowercase(value);
        if str_eq(lower.as_str(), "always") {
            Ok(ConfigFileWhen::Always)
        } else if str_eq(lower.as_str(), "missing") {
            Ok(ConfigFileWhen::Missing)
        } else if str_eq(lower.as_str(), "changed") {
            Ok(ConfigFileWhen::Changed)
        } else {
            Err(CoreError::InvalidCommandSpec(concat2("invalid config when: ", value)))
        }
    }

    /// The stored name.
    pub fn as_str(&self) -> (r: &'static str)
        ensures
            r@ == when_name(*self),
    {
        match self {
            ConfigFileWhen::Always => "always",
            ConfigFileWhen::Missing => "missing",
            ConfigFileWhen::Changed => "changed",
        }
    }
}

/// Law: a copy condition is read back from its stored name.
pub proof fn lemma_when_round_trip(w: ConfigFileWhen)
    ensures
        lowercased(when_name(w)) == when_name(w),
        when_from_name(lowercased(when_name(w))) == Some(w),
{
    reveal_strlit("always");
    reveal_strlit("missing");
    reveal_strlit("changed");
    crate::id::lemma_lowercased_unchanged(when_name(w));
    match w {
        ConfigFileWhen::Always => {},
        ConfigFileWhen::Missing => {
            assert("missing"@ != "always"@) by {
                assert("missing"@[0] != "always"@[0]);
            }
        },
        ConfigFileWhen::Changed => {
            assert("changed"@ != "always"@) by {
                assert("changed"@[0] != "always"@[0]);
            }
            assert("changed"@ != "missing"@) by {
                assert("changed"@[0] != "missing"@[0]);
            }
        },
    }
}

/// A stored configuration file of a set.
#[derive(Debug, Clone)]
pub struct ConfigFile {
    pub id: i64,
    pub config_id: String,
    pub src: String,
    pub dest: String,
    pub mode: Option<String>,
    pub when: ConfigFileWhen,
}

/// A configuration set to be stored.
#[derive(Debug, Clone)]
pub struct NewConfigSet {
    pub config_id: Option<String>,
    pub name: String,
    pub hooks_cmdset_id: Option<String>,
    pub files: Vec<NewConfigFile>,
}

/// A configuration file to be stored.
#[derive(Debug, Clone)]
pub struct NewConfigFile {
    pub src: String,
    pub dest: String,
    pub mode: Option<String>,
    pub when: ConfigFileWhen,
}

/// A configuration set with its files.
#[derive(Debug, Clone)]
pub struct ConfigSetDetails {
    pub config: ConfigSet,
    pub files: Vec<ConfigFile>,
}

impl NewConfigSet {
    /// The id the set will be stored under: the explicit id lower-cased, or a generated one
    /// starting with `cfg_`; either must be a valid id.
    pub fn normalize_id(&self) -> (r: Result<String, CoreError>)
        ensures
            normalized_id_ok(self.config_id, "cfg_"@, r),
    {
        proof {
            reveal_strlit("cfg_");
        }
        normalized_record_id(&self.config_id, "cfg_")
    }
}

/// What a file spec has set so far.
pub struct FileSpecState {
    pub src: Option<Seq<char>>,
    pub dest: Option<Seq<char>>,
    pub mode: Option<Seq<char>>,
    pub when: ConfigFileWhen,
}

/// One `key=value` item of a file spec applied to what was set so far; `spec` is the whole spec,
/// named in the messages.
pub open spec fn file_spec_step(st: FileSpecState, item: Seq<char>, spec: Seq<char>) -> Result<
    FileSpecState,
    Seq<char>,
> {
    let (k, v) = split_once(item, '=');
    match v {
        None => Err("invalid file spec (missing '='): "@ + spec),
        Some(raw) => {
            let key = trim(k);
            let value = trim(raw);
            if key == "src"@ {
                Ok(FileSpecState { src: Some(value), ..st })
            } else if key == "dest"@ {
                Ok(FileSpecState { dest: Some(value), ..st })
            } else if key == "mode"@ {
                Ok(FileSpecState { mode: Some(value), ..st })
            } else if key == "when"@ {
                match when_from_name(lowercased(value)) {
                    Some(w) => Ok(FileSpecState { when: w, ..st }),
                    None => Err("invalid command spec: invalid config when: "@ + value),
                }
            } else {
                Err("unknown file spec key: "@ + key)
            }
        },
    }
}

/// The items of a file spec applied in order; the first refused item ends the reading.
pub open spec fn file_spec_items(items: Seq<Seq<char>>, st: FileSpecState, spec: Seq<char>) -> Result<
    FileSpecState,
    Seq<char>,
>
    decreases items.len(),
{
    if items.len() == 0 {
        Ok(st)
    } else {
        match file_spec_step(st, items[0], spec) {
            Err(e) => Err(e),
            Ok(next) => file_spec_items(items.drop_first(), next, spec),
        }
    }
}

/// What a file spec `src=..,dest=..[,mode=..][,when=..]` reads as: the file, or the message.
pub open spec fn file_spec_spec(spec: Seq<char>) -> Result<FileSpecState, Seq<char>> {
    let start = FileSpecState { src: None, dest: None, mode: None, when: ConfigFileWhen::Always };
    match file_spec_items(split(spec, ','), start, spec) {
        Err(e) => Err(e),
        Ok(st) => if st.src is None {
            Err("file spec missing src: "@ + spec)
        } else if st.dest is None {
            Err("file spec missing dest: "@ + spec)
        } else {
            Ok(st)
        },
    }
}

/// The key an item of a file spec sets: the trimmed text before its first `=`.
pub open spec fn file_spec_item_key(item: Seq<char>) -> Seq<char> {
    trim(split_once(item, '=').0)
}

proof fn lemma_items_keep_when(items: Seq<Seq<char>>, st: FileSpecState, spec: Seq<char>)
    requires
        forall|k: int| 0 <= k < items.len() ==> file_spec_item_key(#[trigger] items[k]) != "when"@,
    ensures
        file_spec_items(items, st, spec) matches Ok(last) ==> last.when == st.when,
    decreases items.len(),
{
    if items.len() > 0 {
        assert(file_spec_item_key(items[0]) != "when"@);
        match file_spec_step(st, items[0], spec) {
            Err(_) => {},
            Ok(next) => {
                assert(next.when == st.when);
                assert forall|k: int| 0 <= k < items.drop_first().len() implies file_spec_item_key(
                    #[trigger] items.drop_first()[k],
                ) != "when"@ by {
                    assert(items.drop_first()[k] == items[k + 1]);
                }
                lemma_items_keep_when(items.drop_first(), next, spec);
            },
        }
    }
}

/// Law: a file spec without a `when` item is copied always: whatever else it holds, if it is
/// read at all, it is read with `when` set to `always`.
pub proof fn lemma_file_spec_when_defaults_to_always(spec: Seq<char>)
    requires
        forall|k: int| 0 <= k < split(spec, ',').len() ==> file_spec_item_key(#[trigger] split(spec, ',')[k]) != "when"@,
    ensures
        file_spec_spec(spec) matches Ok(st) ==> st.when == ConfigFileWhen::Always,
{
    lemma_items_keep_when(
        split(spec, ','),
        FileSpecState { src: None, dest: None, mode: None, when: ConfigFileWhen::Always },
        spec,
    );
}

/// Reads a file spec `src=..,dest=..[,mode=..][,when=..]`; `when` defaults to `always`.
pub fn parse_config_file_spec(spec: &str) -> (r: Result<NewConfigFile, String>)
    ensures
        match file_spec_spec(spec@) {
            Ok(st) => r matches Ok(f) && Some(f.src@) == st.src && Some(f.dest@) == st.dest
                && opt_view(f.mode) == st.mode && f.when == st.when,
            Err(e) => r matches Err(m) && m@ == e,
        },
{
    let chars = chars_of(spec);
    let pieces = split_chars(&chars, ',');
    let ghost all = pieces_view(pieces@);
    let mut src: Option<String> = None;
    let mut dest: Option<String> = None;
    let mut mode: Option<String> = None;
    let mut when = ConfigFileWhen::Always;
    let mut i: usize = 0;
    assert(all.skip(0) =~= all);
    while i < pieces.len()
        invariant
            i <= pieces.len(),
            all == pieces_view(pieces@),
            all == split(spec@, ','),
            file_spec_items(
                all.skip(i as int),
                FileSpecState {
                    src: opt_view(src),
                    dest: opt_view(dest),
                    mode: opt_view(mode),
                    when,
                },
                spec@,
            ) == file_spec_items(
                all,
                FileSpecState { src: None, dest: None, mode: None, when: ConfigFileWhen::Always },
                spec@,
            ),
        decreases pieces.len() - i,
    {
        let ghost rest = all.skip(i as int);
        assert(rest[0] == pieces@[i as int]@);
        assert(rest.drop_first() =~= all.skip(i + 1));
        let (k, v) = split_once_chars(&pieces[i], '=');
        match v {
            None => {
                return Err(concat2("invalid file spec (missing '='): ", spec));
            },
            Some(raw) => {
                let key = trim_chars(&k);
                let value_chars = trim_chars(&raw);
                let value = string_from_chars(&value_chars);
                if chars_eq_str(&key, "src") {
                    src = Some(value);
                } else if chars_eq_str(&key, "dest") {
                    dest = Some(value);
                } else if chars_eq_str(&key, "mode") {
                    mode = Some(value);
                } else if chars_eq_str(&key, "when") {
                    match ConfigFileWhen::parse(value.as_str()) {
                        Ok(w) => {
                            when = w;
                        },
                        Err(_) => {
                            return Err(
                                concat2(
                                    "invalid command spec: invalid config when: ",
                                    value.as_str(),
                                ),
                            );
                        },
                    }
                } else {
                    let key_text = string_from_chars(&key);
                    return Err(concat2("unknown file spec key: ", key_text.as_str()));
                }
            },
        }
        i = i + 1;
    }
    match (src, dest) {
        (None, _) => Err(concat2("file spec missing src: ", spec)),
        (_, None) => Err(concat2("file spec missing dest: ", spec)),
        (Some(src), Some(dest)) => Ok(NewConfigFile { src, dest, mode, when }),
    }
}

/// `s.trim_start_matches(p)`: every leading copy of `p` removed.
pub open spec fn strip_prefixes(s: Seq<char>, p: Seq<char>) -> Seq<char>
    decreases s.len(),
{
    if p.len() > 0 && starts_with(s, p) {
        strip_prefixes(s.skip(p.len() as int), p)
    } else {
        s
    }
}

/// Where a destination lies on the host: `~/` is resolved against the remote home, which must
/// then be known.
pub open spec fn remote_dest_spec(dest: Seq<char>, remote_home: Option<Seq<char>>) -> Result<
    Seq<char>,
    Seq<char>,
> {
    if starts_with(dest, "~/"@) {
        match remote_home {
            None => Err("remote home not resolved"@),
            Some(home) => Ok(home + "/"@ + strip_prefixes(dest, "~/"@)),
        }
    } else {
        Ok(dest)
    }
}

/// Resolves a destination path on the host.
pub fn resolve_remote_dest(dest: &str, remote_home: Option<&str>) -> (r: Result<String, String>)
    ensures
        match remote_dest_spec(dest@, opt_str_view(remote_home)) {
            Ok(d) => r matches Ok(s) && s@ == d,
            Err(e) => r matches Err(m) && m@ == e,
        },
{
    proof {
        reveal_strlit("~/");
    }
    let mut v = chars_of(dest);
    if !starts_with_chars(&v, "~/") {
        return Ok(owned(dest));
    }
    let home = match remote_home {
        None => {
            return Err(owned("remote home not resolved"));
        },
        Some(h) => h,
    };
    while starts_with_chars(&v, "~/")
        invariant
            strip_prefixes(v@, "~/"@) == strip_prefixes(dest@, "~/"@),
            "~/"@.len() == 2,
        decreases v.len(),
    {
        v = slice_chars(&v, 2, v.len());
    }
    let suffix = string_from_chars(&v);
    let mut r = concat2(home, "/");
    r.append(suffix.as_str());
    Ok(r)
}

/// A word in single quotes for the remote shell, each single quote written as `'\''`.
pub open spec fn shell_quote_spec(value: Seq<char>) -> Seq<char> {
    "'"@ + replace_char_spec(value, '\'', "'\\''"@) + "'"@
}

/// Quotes a word for the remote shell.
pub fn shell_quote(value: &str) -> (r: String)
    ensures
        r@ == shell_quote_spec(value@),
{
    let escaped = replace_char(value, '\'', "'\\''");
    concat3("'", escaped.as_str(), "'")
}

/// Whether a configuration file is copied, and why: always; when missing; when changed, that is
/// missing, or with hashes that differ, or whose hashes are not both known.
pub open spec fn should_apply_spec(
    when: ConfigFileWhen,
    exists: bool,
    remote_hash: Option<Seq<char>>,
    local_hash: Option<Seq<char>>,
) -> (bool, Seq<char>) {
    match when {
        ConfigFileWhen::Always => (true, "always"@),
        ConfigFileWhen::Missing => if exists {
            (false, "exists"@)
        } else {
            (true, "missing"@)
        },
        ConfigFileWhen::Changed => if !exists {
            (true, "missing"@)
        } else {
            match (remote_hash, local_hash) {
                (Some(remote), Some(local)) => if remote != local {
                    (true, "changed"@)
                } else {
                    (false, "unchanged"@)
                },
                _ => (true, "unknown"@),
            }
        },
    }
}

/// Whether both hashes are known and equal.
pub open spec fn hashes_match(remote_hash: Option<Seq<char>>, local_hash: Option<Seq<char>>) -> bool {
    match (remote_hash, local_hash) {
        (Some(remote), Some(local)) => remote == local,
        _ => false,
    }
}

/// Law: what each policy copies. `always` copies every file; `missing` copies a file exactly
/// when it is not on the host; `changed` copies it exactly when it is not on the host or its two
/// hashes are not both known and equal. So whatever `missing` copies `changed` copies too, and
/// whatever `changed` copies `always` copies; a file skipped is one on the host; a file not on
/// the host is copied with the reason `missing` unless the policy is `always`.
pub proof fn lemma_apply_policies(on_host: bool, remote_hash: Option<Seq<char>>, local_hash: Option<Seq<char>>)
    ensures
        should_apply_spec(ConfigFileWhen::Always, on_host, remote_hash, local_hash).0,
        should_apply_spec(ConfigFileWhen::Missing, on_host, remote_hash, local_hash).0 == !on_host,
        should_apply_spec(ConfigFileWhen::Changed, on_host, remote_hash, local_hash).0 == (!on_host
            || !hashes_match(remote_hash, local_hash)),
        should_apply_spec(ConfigFileWhen::Missing, on_host, remote_hash, local_hash).0 ==> should_apply_spec(
            ConfigFileWhen::Changed,
            on_host,
            remote_hash,
            local_hash,
        ).0,
        forall|w: ConfigFileWhen| !(#[trigger] should_apply_spec(w, on_host, remote_hash, local_hash)).0 ==> on_host,
        forall|w: ConfigFileWhen|
            !on_host && w != ConfigFileWhen::Always ==> (#[trigger] should_apply_spec(w, on_host, remote_hash, local_hash)).1
                == "missing"@,
{
}

/// Decides whether a configuration file is copied, and why.
pub fn should_apply_config(
    when: ConfigFileWhen,
    exists: bool,
    remote_hash: Option<&str>,
    local_hash: Option<&str>,
) -> (r: (bool, &'static str))
    ensures
        (r.0, r.1@) == should_apply_spec(
            when,
            exists,
            opt_str_view(remote_hash),
            opt_str_view(local_hash),
        ),
{
    match when {
        ConfigFileWhen::Always => (true, "always"),
        ConfigFileWhen::Missing => {
            if exists {
                (false, "exists")
            } else {
                (true, "missing")
            }
        },
        ConfigFileWhen::Changed => {
            if !exists {
                return (true, "missing");
            }
            match (remote_hash, local_hash) {
                (Some(remote), Some(local)) => {
                    if !str_eq(remote, local) {
                        (true, "changed")
                    } else {
                        (false, "unchanged")
                    }
                },
                _ => (true, "unknown"),
            }
        },
    }
}

/// The remote command that reports whether `dest` is a file.
pub fn remote_exists_command(dest: &str) -> (r: String)
    ensures
        r@ == "if test -f "@ + shell_quote_spec(dest@) + "; then echo EXISTS; else echo MISSING; fi"@,
{
    let q = shell_quote(dest);
    concat3("if test -f ", q.as_str(), "; then echo EXISTS; else echo MISSING; fi")
}

/// The remote command that prints the SHA-256 of `dest`, or `MISSING`.
pub fn remote_hash_command(dest: &str) -> (r: String)
    ensures
        r@ == "if test -f "@ + shell_quote_spec(dest@) + "; then sha256sum "@ + shell_quote_spec(
            dest@,
        ) + " | awk '{print $1}'; else echo MISSING; fi"@,
{
    let q = shell_quote(dest);
    let mut r = concat3("if test -f ", q.as_str(), "; then sha256sum ");
    r.append(q.as_str());
    r.append(" | awk '{print $1}'; else echo MISSING; fi");
    r
}

/// Reads the answer of the existence check (its output, trimmed).
pub fn read_exists_answer(stdout: &str) -> (r: Result<bool, String>)
    ensures
        trim(stdout@) == "EXISTS"@ ==> r == Ok::<bool, String>(true),
        trim(stdout@) == "MISSING"@ ==> r == Ok::<bool, String>(false),
        trim(stdout@) != "EXISTS"@ && trim(stdout@) != "MISSING"@ ==> (r matches Err(m) && m@
            == "unexpected exists response: "@ + trim(stdout@)),
{
    proof {
        reveal_strlit("EXISTS");
        reveal_strlit("MISSING");
        assert("EXISTS"@.len() != "MISSING"@.len());
    }
    let v = chars_of(stdout);
    let t = trim_chars(&v);
    if chars_eq_str(&t, "EXISTS") {
        Ok(true)
    } else if chars_eq_str(&t, "MISSING") {
        Ok(false)
    } else {
        let text = string_from_chars(&t);
        Err(concat2("unexpected exists response: ", text.as_str()))
    }
}

/// What the host reports of a configuration file.
#[derive(Debug, Clone, PartialEq, Eq)]
pub struct RemoteFileStatus {
    pub exists: bool,
    pub sha256: Option<String>,
}

/// Reads the answer of the hash check (its output, trimmed): `MISSING` or nothing means the file
/// is missing, anything else is its hash.
pub fn read_hash_answer(stdout: &str) -> (r: RemoteFileStatus)
    ensures
        (trim(stdout@) == "MISSING"@ || trim(stdout@).len() == 0) ==> (!r.exists && r.sha256 is None),
        !(trim(stdout@) == "MISSING"@ || trim(stdout@).len() == 0) ==> (r.exists && opt_view(
            r.sha256,
        ) == Some(trim(stdout@))),
{
    let v = chars_of(stdout);
    let t = trim_chars(&v);
    if chars_eq_str(&t, "MISSING") || t.len() == 0 {
        RemoteFileStatus { exists: false, sha256: None }
    } else {
        RemoteFileStatus { exists: true, sha256: Some(string_from_chars(&t)) }
    }
}

/// Whether a destination lies under the remote home: it starts with `~/`.
pub open spec fn under_home(dest: Seq<char>) -> bool {
    starts_with(dest, "~/"@)
}

/// Whether applying the files needs the remote home directory.
pub fn needs_remote_home(files: &Vec<ConfigFile>) -> (r: bool)
    ensures
        r == exists|i: int| 0 <= i < files@.len() && under_home(#[trigger] files@[i].dest@),
{
    proof {
        reveal_strlit("~/");
    }
    let mut i: usize = 0;
    while i < files.len()
        invariant
            i <= files.len(),
            forall|k: int| 0 <= k < i ==> !under_home(#[trigger] files@[k].dest@),
        decreases files.len() - i,
    {
        if starts_with_chars(&chars_of(files[i].dest.as_str()), "~/") {
            return true;
        }
        i = i + 1;
    }
    false
}

/// Reads the remote home directory from the output of `printf %s "$HOME"`, trimmed.
pub fn read_home_answer(stdout: &str) -> (r: Result<String, String>)
    ensures
        trim(stdout@).len() > 0 ==> (r matches Ok(h) && h@ == trim(stdout@)),
        trim(stdout@).len() == 0 ==> (r matches Err(m) && m@ == "failed to resolve remote home"@),
{
    let t = trim_chars(&chars_of(stdout));
    if t.len() == 0 {
        let m = owned("failed to resolve remote home");
        proof {
            reveal_strlit("failed to resolve remote home");
        }
        return Err(m);
    }
    Ok(string_from_chars(&t))
}

/// Reads the hash from the output of `sha256sum`: its first whitespace-separated word.
pub fn read_sha256sum_output(stdout: &str) -> (r: Result<String, String>)
    ensures
        trim_start(stdout@).len() > 0 ==> (r matches Ok(h) && h@ == first_word(trim_start(stdout@))),
        trim_start(stdout@).len() == 0 ==> (r matches Err(m) && m@ == "sha256sum output missing hash"@),
{
    let t = trim_start_chars(&chars_of(stdout));
    if t.len() == 0 {
        let m = owned("sha256sum output missing hash");
        proof {
            reveal_strlit("sha256sum output missing hash");
        }
        return Err(m);
    }
    let end = first_ws_exec(&t);
    let word = slice_chars(&t, 0, end);
    proof {
        assert(word@ =~= first_word(t@));
    }
    Ok(string_from_chars(&word))
}

/// The error of a remote command that did not succeed.
pub fn remote_command_failure(stderr: &Vec<u8>) -> (r: String)
    ensures
        r@ == "remote command failed: "@ + lossy_text(stderr@),
{
    let text = string_from_chars(&decode_utf8_lossy(stderr));
    let r = concat2("remote command failed: ", text.as_str());
    proof {
        reveal_strlit("remote command failed: ");
    }
    r
}

/// What applying one configuration file does.
#[derive(Debug, Clone, PartialEq, Eq)]
pub enum ConfigFileAction {
    /// A planning run: the file would be applied or skipped; `line` reports it.
    Planned { apply: bool, line: String },
    /// The file is left alone; `line` says why.
    Skipped { line: String },
    /// The file is copied: an optional backup command, the push to `temp_path`, the move into
    /// place, an optional mode change, then `line` reports it.
    Apply {
        backup_command: Option<String>,
        temp_path: String,
        move_command: String,
        chmod_command: Option<String>,
        line: String,
    },
}

impl ConfigFileAction {
    /// Whether the file counts as applied (rather than skipped) in the totals.
    pub fn counts_as_applied(&self) -> (r: bool)
        ensures
            r == (match *self {
                ConfigFileAction::Planned { apply, .. } => apply,
                ConfigFileAction::Skipped { .. } => false,
                ConfigFileAction::Apply { .. } => true,
            }),
    {
        match self {
            ConfigFileAction::Planned { apply, .. } => *apply,
            ConfigFileAction::Skipped { .. } => false,
            ConfigFileAction::Apply { .. } => true,
        }
    }
}

/// `<src> -> <dest> (<reason>)`, the tail of every report line.
pub open spec fn route_text(src: Seq<char>, dest: Seq<char>, reason: Seq<char>) -> Seq<char> {
    src + " -> "@ + dest + " ("@ + reason + ")"@
}

/// A path with a marker and a time stamp appended: `<dest>.<marker>.<stamp>`.
pub open spec fn stamped_path(dest: Seq<char>, marker: Seq<char>, stamp: i64) -> Seq<char> {
    dest + "."@ + marker + "."@ + signed_decimal(stamp as int)
}

/// What applying one file does: under `--plan` only a report; a file the decision skips is
/// reported as skipped; otherwise an optional backup of an existing file, a push to a
/// temporary path, a move into place and an optional `chmod`.
pub open spec fn file_action_ok(
    a: ConfigFileAction,
    plan: bool,
    backup: bool,
    src: Seq<char>,
    dest: Seq<char>,
    mode: Option<Seq<char>>,
    exists: bool,
    apply: bool,
    reason: Seq<char>,
    backup_stamp: i64,
    temp_stamp: i64,
) -> bool {
    if plan {
        match a {
            ConfigFileAction::Planned { apply: x, line } => x == apply && line@ == (if apply {
                "PLAN apply: "@
            } else {
                "PLAN skip: "@
            }) + route_text(src, dest, reason),
            _ => false,
        }
    } else if !apply {
        match a {
            ConfigFileAction::Skipped { line } => line@ == "skip: "@ + route_text(src, dest, reason),
            _ => false,
        }
    } else {
        match a {
            ConfigFileAction::Apply { backup_command, temp_path, move_command, chmod_command, line } => {
                &&& if backup && exists {
                    backup_command matches Some(c) && c@ == "cp "@ + shell_quote_spec(dest) + " "@
                        + shell_quote_spec(stamped_path(dest, "bak"@, backup_stamp))
                } else {
                    backup_command is None
                }
                &&& temp_path@ == stamped_path(dest, "tmp"@, temp_stamp)
                &&& move_command@ == "mv "@ + shell_quote_spec(temp_path@) + " "@ + shell_quote_spec(dest)
                &&& match mode {
                    Some(m) => chmod_command matches Some(c) && c@ == "chmod "@ + m + " "@ + shell_quote_spec(
                        dest,
                    ),
                    None => chmod_command is None,
                }
                &&& line@ == "applied: "@ + src + " -> "@ + dest
            },
            _ => false,
        }
    }
}

fn stamped_path_exec(dest: &str, marker: &str, stamp: i64) -> (r: String)
    ensures
        r@ == stamped_path(dest@, marker@, stamp),
{
    let mut r = concat3(dest, ".", marker);
    r.append(".");
    let n = i64_to_string(stamp);
    r.append(n.as_str());
    proof {
        reveal_strlit(".");
    }
    r
}

fn route_text_exec(src: &str, dest: &str, reason: &str) -> (r: String)
    ensures
        r@ == route_text(src@, dest@, reason@),
{
    let mut r = concat3(src, " -> ", dest);
    r.append(" (");
    r.append(reason);
    r.append(")");
    proof {
        reveal_strlit(" -> ");
        reveal_strlit(" (");
        reveal_strlit(")");
    }
    r
}

/// Decides what applying one file does, from the options, the file, what the host reported
/// and the decision of `should_apply_config`. The stamps name the backup and temporary files.
pub fn config_file_action(
    plan: bool,
    backup: bool,
    src: &str,
    dest: &str,
    mode: Option<&str>,
    exists: bool,
    apply: bool,
    reason: &str,
    backup_stamp: i64,
    temp_stamp: i64,
) -> (r: ConfigFileAction)
    ensures
        file_action_ok(
            r,
            plan,
            backup,
            src@,
            dest@,
            opt_str_view(mode),
            exists,
            apply,
            reason@,
            backup_stamp,
            temp_stamp,
        ),
{
    proof {
        reveal_strlit("PLAN apply: ");
        reveal_strlit("PLAN skip: ");
        reveal_strlit("skip: ");
        reveal_strlit("applied: ");
        reveal_strlit(" -> ");
        reveal_strlit("cp ");
        reveal_strlit("mv ");
        reveal_strlit("chmod ");
        reveal_strlit(" ");
        reveal_strlit("bak");
        reveal_strlit("tmp");
    }
    if plan {
        let route = route_text_exec(src, dest, reason);
        let line = if apply {
            concat2("PLAN apply: ", route.as_str())
        } else {
            concat2("PLAN skip: ", route.as_str())
        };
        return ConfigFileAction::Planned { apply, line };
    }
    if !apply {
        let route = route_text_exec(src, dest, reason);
        return ConfigFileAction::Skipped { line: concat2("skip: ", route.as_str()) };
    }
    let quoted_dest = shell_quote(dest);
    let backup_command = if backup && exists {
        let backup_path = stamped_path_exec(dest, "bak", backup_stamp);
        let qb = shell_quote(backup_path.as_str());
        let mut c = concat3("cp ", quoted_dest.as_str(), " ");
        c.append(qb.as_str());
        Some(c)
    } else {
        None
    };
    let temp_path = stamped_path_exec(dest, "tmp", temp_stamp);
    let qt = shell_quote(temp_path.as_str());
    let mut move_command = concat3("mv ", qt.as_str(), " ");
    move_command.append(quoted_dest.as_str());
    let chmod_command = match mode {
        Some(m) => {
            let mut c = concat3("chmod ", m, " ");
            c.append(quoted_dest.as_str());
            Some(c)
        },
        None => None,
    };
    let line = concat3("applied: ", src, " -> ");
    let mut line = line;
    line.append(dest);
    ConfigFileAction::Apply { backup_command, temp_path, move_command, chmod_command, line }
}

/// The error of a configuration push whose transfer failed.
pub fn apply_transfer_failure(exit_code: i32) -> (r: String)
    ensures
        r@ == "config apply transfer failed with exit code "@ + signed_decimal(exit_code as int),
{
    let n = i64_to_string(exit_code as i64);
    let r = concat2("config apply transfer failed with exit code ", n.as_str());
    proof {
        reveal_strlit("config apply transfer failed with exit code ");
    }
    r
}

/// The operation-log row of a configuration apply.
pub fn config_apply_log_entry(
    config_id: &str,
    plan: bool,
    backup: bool,
    client: TransferVia,
    applied: usize,
    skipped: usize,
    total: usize,
    profile_id: &str,
    client_used: &str,
    duration_ms: i64,
) -> (r: OpLogEntry)
    ensures
        r.op@ == "config_apply"@,
        r.profile_id matches Some(p) && p@ == profile_id@,
        r.client_used matches Some(c) && c@ == client_used@,
        r.ok,
        r.exit_code == Some(0i32),
        r.duration_ms == Some(duration_ms),
        r.meta_json matches Some(m) && m@ == Map::<Seq<char>, MetaValueView>::empty().insert(
            "config_id"@,
            MetaValueView::Text(config_id@),
        ).insert("plan"@, MetaValueView::Flag(plan)).insert("backup"@, MetaValueView::Flag(backup)).insert(
            "via"@,
            MetaValueView::Text(via_name(client)),
        ).insert("insecure"@, MetaValueView::Flag(client == TransferVia::Ftp)).insert(
            "applied"@,
            MetaValueView::Count(applied as u64),
        ).insert("skipped"@, MetaValueView::Count(skipped as u64)).insert(
            "total"@,
            MetaValueView::Count(total as u64),
        ),
{
    let mut meta = MetaObject::new();
    meta.insert("config_id", MetaValue::Text(owned(config_id)));
    meta.insert("plan", MetaValue::Flag(plan));
    meta.insert("backup", MetaValue::Flag(backup));
    meta.insert("via", MetaValue::Text(owned(client.as_str())));
    meta.insert("insecure", MetaValue::Flag(client.is_insecure()));
    meta.insert("applied", MetaValue::Count(applied as u64));
    meta.insert("skipped", MetaValue::Count(skipped as u64));
    meta.insert("total", MetaValue::Count(total as u64));
    let op = owned("config_apply");
    proof {
        reveal_strlit("config_apply");
    }
    OpLogEntry {
        op,
        profile_id: Some(owned(profile_id)),
        client_used: Some(owned(client_used)),
        ok: true,
        exit_code: Some(0),
        duration_ms: Some(duration_ms),
        meta_json: Some(meta),
    }
}

} // verus!
