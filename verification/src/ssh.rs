use vstd::prelude::*;

use crate::doctor::{client_kind_name, ClientKind};
use crate::profile::{profile_type_name, DangerLevel, Profile, ProfileType};
use crate::text::{
    chars_eq_str, chars_of, concat2, concat3, decimal, join, join_strings, owned, pieces_view, split,
    split_chars, str_eq, string_from_chars, strings_view, trim, trim_chars, u64_to_string,
};

verus! {

/// A way of authenticating to an SSH server.
#[derive(Debug, Clone, Copy, PartialEq, Eq, Structural)]
pub enum SshAuthMethod {
    Agent,
    Keys,
    Password,
}

/// The setting name of an auth method.
pub open spec fn auth_method_name(m: SshAuthMethod) -> Seq<char> {
    match m {
        SshAuthMethod::Agent => "agent"@,
        SshAuthMethod::Keys => "keys"@,
        SshAuthMethod::Password => "password"@,
    }
}

/// The auth method named `t`.
pub open spec fn auth_method_from(t: Seq<char>) -> Option<SshAuthMethod> {
    if t == "agent"@ {
        Some(SshAuthMethod::Agent)
    } else if t == "keys"@ {
        Some(SshAuthMethod::Keys)
    } else if t == "password"@ {
        Some(SshAuthMethod::Password)
    } else {
        None
    }
}

impl SshAuthMethod {
    pub fn as_str(&self) -> (r: &'static str)
        ensures
            r@ == auth_method_name(*self),
    {
        match self {
            SshAuthMethod::Agent => "agent",
            SshAuthMethod::Keys => "keys",
            SshAuthMethod::Password => "password",
        }
    }
}

/// Why SSH is being started.
#[derive(Debug, Clone, Copy, PartialEq, Eq, Structural)]
pub enum SshInvocationMode {
    Interactive,
    Exec,
    CommandSet,
}

/// The metadata name of an invocation mode.
pub open spec fn invocation_mode_name(m: SshInvocationMode) -> Seq<char> {
    match m {
        SshInvocationMode::Interactive => "interactive"@,
        SshInvocationMode::Exec => "exec"@,
        SshInvocationMode::CommandSet => "commandset"@,
    }
}

impl SshInvocationMode {
    pub fn as_str(&self) -> (r: &'static str)
        ensures
            r@ == invocation_mode_name(*self),
    {
        match self {
            SshInvocationMode::Interactive => "interactive",
            SshInvocationMode::Exec => "exec",
            SshInvocationMode::CommandSet => "commandset",
        }
    }
}

/// Where an SSH session goes.
#[derive(Debug, Clone, PartialEq, Eq)]
pub struct SshTarget {
    pub profile_id: String,
    pub name: String,
    pub user: String,
    pub host: String,
    pub port: u16,
    pub danger_level: DangerLevel,
}

/// A request to build an SSH invocation.
#[derive(Debug, Clone, Copy)]
pub struct SshInvocationRequest<'a> {
    pub profile_id: &'a str,
    pub source: &'a str,
    pub mode: SshInvocationMode,
}

/// Which non-password auth methods the local machine can offer.
#[derive(Debug, Clone, Copy, PartialEq, Eq, Structural)]
pub struct SshAuthAvailability {
    pub agent: bool,
    pub keys: bool,
}

/// The auth order with the arguments and messages derived from it.
#[derive(Debug, Clone)]
pub struct SshAuthContext {
    pub order: Vec<SshAuthMethod>,
    pub args: Vec<String>,
    pub hint: Option<String>,
    pub warn_password_fallback: bool,
}

/// Errors while building an SSH invocation.
#[derive(Debug, Clone)]
pub enum SshBuildError {
    ProfileNotFound(String),
    UnsupportedProfileType { profile_id: String, profile_type: ProfileType },
    ClientNotFound { kind: ClientKind },
    InvalidAuthOrder(String),
    SettingsError(String),
}

/// The message an SSH build error is shown with.
pub open spec fn ssh_build_error_message(e: SshBuildError) -> Seq<char> {
    match e {
        SshBuildError::ProfileNotFound(id) => "profile not found: "@ + id@,
        SshBuildError::UnsupportedProfileType { profile_id, profile_type } => "profile '"@ + profile_id@
            + "' is "@ + profile_type_name(profile_type) + "; SSH requires an SSH profile"@,
        SshBuildError::ClientNotFound { kind } => client_kind_name(kind) + " client not found via overrides or PATH"@,
        SshBuildError::InvalidAuthOrder(m) => "invalid ssh auth order: "@ + m@,
        SshBuildError::SettingsError(m) => "settings error: "@ + m@,
    }
}

impl SshBuildError {
    /// The message the error is shown with (`Display`).
    pub fn to_text(&self) -> (r: String)
        ensures
            r@ == ssh_build_error_message(*self),
    {
        match self {
            SshBuildError::ProfileNotFound(id) => concat2("profile not found: ", id.as_str()),
            SshBuildError::UnsupportedProfileType { profile_id, profile_type } => {
                let mut r = concat3("profile '", profile_id.as_str(), "' is ");
                r.append(profile_type.as_str());
                r.append("; SSH requires an SSH profile");
                r
            },
            SshBuildError::ClientNotFound { kind } => concat2(kind.as_str(), " client not found via overrides or PATH"),
            SshBuildError::InvalidAuthOrder(m) => concat2("invalid ssh auth order: ", m.as_str()),
            SshBuildError::SettingsError(m) => concat2("settings error: ", m.as_str()),
        }
    }
}

/// A complete SSH command line: executable, arguments, target and what is safe to log.
#[derive(Debug, Clone)]
pub struct SshInvocation {
    pub client_path: String,
    pub args: Vec<String>,
    pub target: SshTarget,
    pub auth_context: SshAuthContext,
    pub safe_metadata: SafeSshMetadata,
}

/// The target of an SSH profile; other profile types are refused.
pub fn ssh_target_from_profile(profile: &Profile) -> (r: Result<SshTarget, SshBuildError>)
    ensures
        profile.profile_type == ProfileType::Ssh ==> (r matches Ok(t) && t.profile_id@
            == profile.profile_id@ && t.name@ == profile.name@ && t.user@ == profile.user@
            && t.host@ == profile.host@ && t.port == profile.port && t.danger_level
            == profile.danger_level),
        profile.profile_type != ProfileType::Ssh ==> (r matches Err(
            SshBuildError::UnsupportedProfileType { profile_id, profile_type },
        ) && profile_id@ == profile.profile_id@ && profile_type == profile.profile_type),
{
    if profile.profile_type != ProfileType::Ssh {
        return Err(
            SshBuildError::UnsupportedProfileType {
                profile_id: profile.profile_id.clone(),
                profile_type: profile.profile_type,
            },
        );
    }
    Ok(
        SshTarget {
            profile_id: profile.profile_id.clone(),
            name: profile.name.clone(),
            user: profile.user.clone(),
            host: profile.host.clone(),
            port: profile.port,
            danger_level: profile.danger_level,
        },
    )
}

/// The arguments before the auth arguments and the `user@host` destination.
pub open spec fn ssh_args_spec(port: u16, auth: Seq<Seq<char>>, user: Seq<char>, host: Seq<char>) -> Seq<Seq<char>> {
    seq!["-p"@, decimal(port as nat)] + auth + seq![user + "@"@ + host]
}

/// `-p PORT`, the auth arguments, then `user@host`.
pub fn build_ssh_args(target: &SshTarget, auth_args: &Vec<String>) -> (r: Vec<String>)
    ensures
        strings_view(r@) == ssh_args_spec(target.port, strings_view(auth_args@), target.user@, target.host@),
{
    let mut args: Vec<String> = Vec::new();
    args.push(owned("-p"));
    args.push(u64_to_string(target.port as u64));
    let mut i: usize = 0;
    while i < auth_args.len()
        invariant
            i <= auth_args.len(),
            strings_view(args@) == seq!["-p"@, decimal(target.port as nat)] + strings_view(auth_args@).take(i as int),
        decreases auth_args.len() - i,
    {
        let ghost before = strings_view(args@);
        let item = auth_args[i].clone();
        assert(item@ == strings_view(auth_args@)[i as int]);
        args.push(item);
        assert(strings_view(args@) =~= before.push(item@));
        assert(strings_view(auth_args@).take(i + 1) =~= strings_view(auth_args@).take(i as int).push(item@));
        i = i + 1;
        assert(strings_view(args@) =~= seq!["-p"@, decimal(target.port as nat)] + strings_view(auth_args@).take(i as int));
    }
    assert(strings_view(auth_args@).take(auth_args.len() as int) =~= strings_view(auth_args@));
    let dest = concat3(target.user.as_str(), "@", target.host.as_str());
    let ghost before = strings_view(args@);
    args.push(dest);
    assert(strings_view(args@) =~= before.push(target.user@ + "@"@ + target.host@));
    assert(strings_view(args@) =~= ssh_args_spec(target.port, strings_view(auth_args@), target.user@, target.host@));
    args
}

/// The fields recorded about an SSH launch; nothing secret is among them.
#[derive(Debug, Clone)]
pub struct SafeSshMetadata {
    pub mode: SshInvocationMode,
    pub source: String,
    pub host: String,
    pub port: u16,
    pub user: String,
    pub launch_error: Option<String>,
}

/// A metadata value: text, a number, a count, a flag, or any other JSON value kept as its
/// JSON text.
#[derive(Debug, Clone, PartialEq, Eq)]
pub enum MetaValue {
    Text(String),
    Number(i64),
    Count(u64),
    Flag(bool),
    Json(String),
}

/// A metadata value as plain values.
pub enum MetaValueView {
    Text(Seq<char>),
    Number(i64),
    Count(u64),
    Flag(bool),
    Json(Seq<char>),
}

/// The view of a metadata value.
pub open spec fn meta_value_view(v: MetaValue) -> MetaValueView {
    match v {
        MetaValue::Text(s) => MetaValueView::Text(s@),
        MetaValue::Number(n) => MetaValueView::Number(n),
        MetaValue::Count(n) => MetaValueView::Count(n),
        MetaValue::Flag(b) => MetaValueView::Flag(b),
        MetaValue::Json(s) => MetaValueView::Json(s@),
    }
}

/// A copy of a metadata value.
pub fn copy_meta_value(v: &MetaValue) -> (r: MetaValue)
    ensures
        meta_value_view(r) == meta_value_view(*v),
{
    match v {
        MetaValue::Text(s) => MetaValue::Text(s.clone()),
        MetaValue::Number(n) => MetaValue::Number(*n),
        MetaValue::Count(n) => MetaValue::Count(*n),
        MetaValue::Flag(b) => MetaValue::Flag(*b),
        MetaValue::Json(s) => MetaValue::Json(s.clone()),
    }
}

/// A metadata object as key-value entries; a later entry for a key replaces an earlier one.
#[derive(Debug, Clone, PartialEq, Eq)]
pub struct MetaObject {
    pub entries: Vec<(String, MetaValue)>,
}

/// The map that a list of entries stands for.
pub open spec fn meta_map(s: Seq<(String, MetaValue)>) -> Map<Seq<char>, MetaValueView>
    decreases s.len(),
{
    if s.len() == 0 {
        Map::empty()
    } else {
        meta_map(s.drop_last()).insert(s.last().0@, meta_value_view(s.last().1))
    }
}

impl View for MetaObject {
    type V = Map<Seq<char>, MetaValueView>;

    open spec fn view(&self) -> Map<Seq<char>, MetaValueView> {
        meta_map(self.entries@)
    }
}

impl MetaObject {
    /// An empty object.
    pub fn new() -> (r: MetaObject)
        ensures
            r@ == Map::<Seq<char>, MetaValueView>::empty(),
    {
        MetaObject { entries: Vec::new() }
    }

    /// Sets `key` to `value`, replacing what the key held.
    pub fn insert(&mut self, key: &str, value: MetaValue)
        ensures
            final(self)@ == old(self)@.insert(key@, meta_value_view(value)),
    {
        let mut kept: Vec<(String, MetaValue)> = Vec::new();
        let mut i: usize = 0;
        while i < self.entries.len()
            invariant
                i <= self.entries.len(),
                meta_map(kept@) == meta_map(self.entries@.take(i as int)).remove(key@),
            decreases self.entries.len() - i,
        {
            let ghost before = kept@;
            assert(self.entries@.take(i + 1).drop_last() =~= self.entries@.take(i as int));
            if !str_eq(self.entries[i].0.as_str(), key) {
                kept.push((self.entries[i].0.clone(), copy_meta_value(&self.entries[i].1)));
                assert(kept@.drop_last() =~= before);
                assert(meta_map(kept@) =~= meta_map(self.entries@.take(i + 1)).remove(key@));
            } else {
                assert(meta_map(kept@) =~= meta_map(self.entries@.take(i + 1)).remove(key@));
            }
            i = i + 1;
        }
        assert(self.entries@.take(self.entries.len() as int) =~= self.entries@);
        let ghost before = kept@;
        kept.push((owned(key), value));
        assert(kept@.drop_last() =~= before);
        assert(meta_map(kept@) =~= old(self)@.insert(key@, meta_value_view(value)));
        self.entries = kept;
    }
}

/// The keys that safe SSH metadata may carry.
pub open spec fn safe_metadata_key(k: Seq<char>) -> bool {
    ||| k == "mode"@
    ||| k == "source"@
    ||| k == "host"@
    ||| k == "port"@
    ||| k == "user"@
    ||| k == "profile_type"@
    ||| k == "launch_error"@
}

/// The metadata logged with an SSH launch.
pub fn safe_ssh_metadata(
    target: &SshTarget,
    source: &str,
    mode: SshInvocationMode,
    launch_error: Option<&str>,
) -> (r: SafeSshMetadata)
    ensures
        r.mode == mode,
        r.source@ == source@,
        r.host@ == target.host@,
        r.port == target.port,
        r.user@ == target.user@,
        match launch_error {
            Some(e) => r.launch_error matches Some(x) && x@ == e@,
            None => r.launch_error is None,
        },
{
    SafeSshMetadata {
        mode,
        source: owned(source),
        host: target.host.clone(),
        port: target.port,
        user: target.user.clone(),
        launch_error: match launch_error {
            Some(e) => Some(owned(e)),
            None => None,
        },
    }
}

/// The metadata as a map from keys to values.
pub open spec fn safe_metadata_map(m: SafeSshMetadata) -> Map<Seq<char>, MetaValueView> {
    let base = Map::<Seq<char>, MetaValueView>::empty().insert(
        "mode"@,
        MetaValueView::Text(invocation_mode_name(m.mode)),
    ).insert("source"@, MetaValueView::Text(m.source@)).insert("host"@, MetaValueView::Text(m.host@)).insert(
        "port"@,
        MetaValueView::Number(m.port as i64),
    ).insert("user"@, MetaValueView::Text(m.user@)).insert("profile_type"@, MetaValueView::Text("ssh"@));
    match m.launch_error {
        Some(e) => base.insert("launch_error"@, MetaValueView::Text(e@)),
        None => base,
    }
}

impl SafeSshMetadata {
    /// The metadata as key/value pairs, in the order they are written.
    pub fn entries(&self) -> (r: Vec<(String, MetaValue)>)
        ensures
            meta_map(r@) == safe_metadata_map(*self),
            forall|k: int| 0 <= k < r@.len() ==> safe_metadata_key(#[trigger] r@[k].0@),
            r@.len() == if self.launch_error is Some { 7int } else { 6int },
            r@[0].0@ == "mode"@,
            r@[0].1 matches MetaValue::Text(s) && s@ == invocation_mode_name(self.mode),
            r@[1].0@ == "source"@,
            r@[1].1 matches MetaValue::Text(s) && s@ == self.source@,
            r@[2].0@ == "host"@,
            r@[2].1 matches MetaValue::Text(s) && s@ == self.host@,
            r@[3].0@ == "port"@,
            r@[3].1 == MetaValue::Number(self.port as i64),
            r@[4].0@ == "user"@,
            r@[4].1 matches MetaValue::Text(s) && s@ == self.user@,
            r@[5].0@ == "profile_type"@,
            r@[5].1 matches MetaValue::Text(s) && s@ == "ssh"@,
            self.launch_error matches Some(e) ==> (r@[6].0@ == "launch_error"@ && (r@[6].1 matches MetaValue::Text(s)
                && s@ == e@)),
    {
        let mut r: Vec<(String, MetaValue)> = Vec::new();
        r.push((owned("mode"), MetaValue::Text(owned(self.mode.as_str()))));
        r.push((owned("source"), MetaValue::Text(self.source.clone())));
        r.push((owned("host"), MetaValue::Text(self.host.clone())));
        r.push((owned("port"), MetaValue::Number(self.port as i64)));
        r.push((owned("user"), MetaValue::Text(self.user.clone())));
        r.push((owned("profile_type"), MetaValue::Text(owned(ProfileType::Ssh.as_str()))));
        proof {
            let e = r@;
            assert(e.take(0) =~= Seq::<(String, MetaValue)>::empty());
            assert(e.take(1).drop_last() =~= e.take(0));
            assert(e.take(2).drop_last() =~= e.take(1));
            assert(e.take(3).drop_last() =~= e.take(2));
            assert(e.take(4).drop_last() =~= e.take(3));
            assert(e.take(5).drop_last() =~= e.take(4));
            assert(e.drop_last() =~= e.take(5));
            assert(meta_map(e.take(1)) == meta_map(e.take(0)).insert(e[0].0@, meta_value_view(e[0].1)));
            assert(meta_map(e.take(2)) == meta_map(e.take(1)).insert(e[1].0@, meta_value_view(e[1].1)));
            assert(meta_map(e.take(3)) == meta_map(e.take(2)).insert(e[2].0@, meta_value_view(e[2].1)));
            assert(meta_map(e.take(4)) == meta_map(e.take(3)).insert(e[3].0@, meta_value_view(e[3].1)));
            assert(meta_map(e.take(5)) == meta_map(e.take(4)).insert(e[4].0@, meta_value_view(e[4].1)));
            assert(meta_map(e) == meta_map(e.take(5)).insert(e[5].0@, meta_value_view(e[5].1)));
        }
        let ghost before = r@;
        match &self.launch_error {
            Some(e) => {
                r.push((owned("launch_error"), MetaValue::Text(e.clone())));
                assert(r@.drop_last() =~= before);
            },
            None => {},
        }
        r
    }
}


/// The message for an unknown method name.
pub open spec fn msg_unknown_method(t: Seq<char>) -> Seq<char> {
    "unknown auth method '"@ + t + "'"@
}

/// The message for a repeated method.
pub open spec fn msg_duplicate_method(t: Seq<char>) -> Seq<char> {
    "auth order contains duplicate '"@ + t + "'"@
}

/// Reads the comma-separated items after `acc` has been read: blank items are skipped,
/// the first unknown or repeated item is an error.
pub open spec fn parse_auth_items(pieces: Seq<Seq<char>>, acc: Seq<SshAuthMethod>) -> Result<Seq<SshAuthMethod>, Seq<char>>
    decreases pieces.len(),
{
    if pieces.len() == 0 {
        Ok(acc)
    } else {
        let t = trim(pieces[0]);
        if t.len() == 0 {
            parse_auth_items(pieces.drop_first(), acc)
        } else {
            match auth_method_from(t) {
                None => Err(msg_unknown_method(t)),
                Some(m) => if acc.contains(m) {
                    Err(msg_duplicate_method(t))
                } else {
                    parse_auth_items(pieces.drop_first(), acc.push(m))
                },
            }
        }
    }
}

/// What `parse_auth_order_setting` returns for `raw`: the order, or the error message.
pub open spec fn parse_auth_order_spec(raw: Seq<char>) -> Result<Seq<SshAuthMethod>, Seq<char>> {
    if trim(raw).len() == 0 {
        Err("auth order setting is empty"@)
    } else {
        match parse_auth_items(split(raw, ','), Seq::empty()) {
            Err(e) => Err(e),
            Ok(o) => if o.len() == 0 {
                Err("auth order cannot be empty"@)
            } else {
                Ok(o)
            },
        }
    }
}

/// The first method that repeats one already in `seen` or earlier in `rest`.
pub open spec fn first_repeat(rest: Seq<SshAuthMethod>, seen: Seq<SshAuthMethod>) -> Option<SshAuthMethod>
    decreases rest.len(),
{
    if rest.len() == 0 {
        None
    } else if seen.contains(rest[0]) {
        Some(rest[0])
    } else {
        first_repeat(rest.drop_first(), seen.push(rest[0]))
    }
}

/// What `normalize_auth_order` returns: the order itself when it is non-empty and has no repeats.
pub open spec fn normalize_auth_order_spec(order: Seq<SshAuthMethod>) -> Result<Seq<SshAuthMethod>, Seq<char>> {
    if order.len() == 0 {
        Err("auth order cannot be empty"@)
    } else {
        match first_repeat(order, Seq::empty()) {
            Some(m) => Err(msg_duplicate_method(auth_method_name(m))),
            None => Ok(order),
        }
    }
}

/// The error of an auth-order function as a message view.
pub open spec fn auth_order_result(r: Result<Vec<SshAuthMethod>, SshBuildError>) -> Result<Seq<SshAuthMethod>, Seq<char>> {
    match r {
        Ok(v) => Ok(v@),
        Err(SshBuildError::InvalidAuthOrder(m)) => Err(m@),
        Err(_) => Err(Seq::empty()),
    }
}

fn contains_method(v: &Vec<SshAuthMethod>, m: SshAuthMethod) -> (r: bool)
    ensures
        r == v@.contains(m),
{
    let mut i: usize = 0;
    while i < v.len()
        invariant
            i <= v.len(),
            forall|k: int| 0 <= k < i ==> v@[k] != m,
        decreases v.len() - i,
    {
        if v[i] == m {
            assert(v@[i as int] == m);
            return true;
        }
        i = i + 1;
    }
    false
}

/// Checks that an auth order is non-empty and free of repeats.
pub fn normalize_auth_order(order: Vec<SshAuthMethod>) -> (r: Result<Vec<SshAuthMethod>, SshBuildError>)
    ensures
        auth_order_result(r) == normalize_auth_order_spec(order@),
        r is Err ==> r matches Err(SshBuildError::InvalidAuthOrder(_)),
{
    if order.len() == 0 {
        return Err(SshBuildError::InvalidAuthOrder(owned("auth order cannot be empty")));
    }
    let mut seen: Vec<SshAuthMethod> = Vec::new();
    let mut i: usize = 0;
    assert(order@.skip(0) =~= order@);
    while i < order.len()
        invariant
            i <= order.len(),
            seen@ == order@.take(i as int),
            first_repeat(order@.skip(i as int), seen@) == first_repeat(order@, Seq::empty()),
        decreases order.len() - i,
    {
        let m = order[i];
        assert(order@.skip(i as int)[0] == m);
        assert(order@.skip(i as int).drop_first() =~= order@.skip(i + 1));
        if contains_method(&seen, m) {
            let msg = concat3("auth order contains duplicate '", m.as_str(), "'");
            return Err(SshBuildError::InvalidAuthOrder(msg));
        }
        seen.push(m);
        i = i + 1;
        assert(seen@ =~= order@.take(i as int));
    }
    assert(order@.skip(i as int) =~= Seq::<SshAuthMethod>::empty());
    Ok(order)
}

fn method_from_chars(t: &Vec<char>) -> (r: Option<SshAuthMethod>)
    ensures
        r == auth_method_from(t@),
{
    if chars_eq_str(t, "agent") {
        Some(SshAuthMethod::Agent)
    } else if chars_eq_str(t, "keys") {
        Some(SshAuthMethod::Keys)
    } else if chars_eq_str(t, "password") {
        Some(SshAuthMethod::Password)
    } else {
        None
    }
}

/// The items of a comma-separated auth order, read as `parse_auth_items` describes.
pub fn read_auth_items(raw: &str) -> (r: Result<Vec<SshAuthMethod>, String>)
    ensures
        match r {
            Ok(v) => parse_auth_items(split(raw@, ','), Seq::empty()) == Ok::<Seq<SshAuthMethod>, Seq<char>>(v@),
            Err(m) => parse_auth_items(split(raw@, ','), Seq::empty()) == Err::<Seq<SshAuthMethod>, Seq<char>>(m@),
        },
{
    let chars = chars_of(raw);
    let pieces = split_chars(&chars, ',');
    let ghost all = pieces_view(pieces@);
    let mut order: Vec<SshAuthMethod> = Vec::new();
    let mut i: usize = 0;
    assert(all.skip(0) =~= all);
    while i < pieces.len()
        invariant
            i <= pieces.len(),
            all == pieces_view(pieces@),
            all == split(raw@, ','),
            parse_auth_items(all.skip(i as int), order@) == parse_auth_items(all, Seq::empty()),
        decreases pieces.len() - i,
    {
        let ghost rest = all.skip(i as int);
        assert(rest[0] == pieces@[i as int]@);
        assert(rest.drop_first() =~= all.skip(i + 1));
        let t = trim_chars(&pieces[i]);
        if t.len() > 0 {
            match method_from_chars(&t) {
                None => {
                    let ts = string_from_chars(&t);
                    return Err(concat3("unknown auth method '", ts.as_str(), "'"));
                },
                Some(m) => {
                    if contains_method(&order, m) {
                        let ts = string_from_chars(&t);
                        return Err(concat3("auth order contains duplicate '", ts.as_str(), "'"));
                    }
                    order.push(m);
                },
            }
        }
        i = i + 1;
    }
    assert(all.skip(i as int) =~= Seq::<Seq<char>>::empty());
    Ok(order)
}

/// Reads a stored `ssh_auth_order` setting such as `agent,keys,password`.
pub fn parse_auth_order_setting(raw: &str) -> (r: Result<Vec<SshAuthMethod>, SshBuildError>)
    ensures
        auth_order_result(r) == parse_auth_order_spec(raw@),
        r is Err ==> r matches Err(SshBuildError::InvalidAuthOrder(_)),
{
    let chars = chars_of(raw);
    let trimmed = trim_chars(&chars);
    if trimmed.len() == 0 {
        return Err(SshBuildError::InvalidAuthOrder(owned("auth order setting is empty")));
    }
    match read_auth_items(raw) {
        Err(m) => Err(SshBuildError::InvalidAuthOrder(m)),
        Ok(order) => {
            if order.len() == 0 {
                return Err(SshBuildError::InvalidAuthOrder(owned("auth order cannot be empty")));
            }
            Ok(order)
        },
    }
}

/// The names of an auth order.
pub open spec fn auth_names(order: Seq<SshAuthMethod>) -> Seq<Seq<char>> {
    order.map_values(|m: SshAuthMethod| auth_method_name(m))
}

/// The stored form of an auth order: the names joined by commas.
pub open spec fn format_auth_order_spec(order: Seq<SshAuthMethod>) -> Seq<char> {
    join(auth_names(order), ","@)
}

/// Writes an auth order as `agent,keys,password`.
pub fn format_auth_order(order: &Vec<SshAuthMethod>) -> (r: String)
    ensures
        r@ == format_auth_order_spec(order@),
{
    let mut names: Vec<String> = Vec::new();
    let mut i: usize = 0;
    while i < order.len()
        invariant
            i <= order.len(),
            strings_view(names@) == auth_names(order@.take(i as int)),
        decreases order.len() - i,
    {
        let ghost before = strings_view(names@);
        let name = owned(order[i].as_str());
        names.push(name);
        i = i + 1;
        assert(strings_view(names@) =~= auth_names(order@.take(i as int))) by {
            assert(strings_view(names@) =~= before.push(name@));
            assert(order@.take(i as int) =~= order@.take(i - 1).push(order@[i - 1]));
        }
    }
    assert(order@.take(order.len() as int) =~= order@);
    crate::text::join_strings(&names, ",")
}

/// The auth order used when none is configured.
pub open spec fn default_auth_order_spec() -> Seq<SshAuthMethod> {
    seq![SshAuthMethod::Agent, SshAuthMethod::Keys, SshAuthMethod::Password]
}

/// Agent first, then keys, then password.
pub fn default_auth_order() -> (r: Vec<SshAuthMethod>)
    ensures
        r@ == default_auth_order_spec(),
{
    let mut r: Vec<SshAuthMethod> = Vec::new();
    r.push(SshAuthMethod::Agent);
    r.push(SshAuthMethod::Keys);
    r.push(SshAuthMethod::Password);
    assert(r@ =~= default_auth_order_spec());
    r
}

/// The auth order for a stored setting: parsed when present, the default when absent.
pub fn auth_order_from_setting(raw: Option<&str>) -> (r: Result<Vec<SshAuthMethod>, SshBuildError>)
    ensures
        match raw {
            Some(s) => auth_order_result(r) == parse_auth_order_spec(s@),
            None => r matches Ok(v) && v@ == default_auth_order_spec(),
        },
        r is Err ==> r matches Err(SshBuildError::InvalidAuthOrder(_)),
{
    match raw {
        Some(s) => parse_auth_order_setting(s),
        None => Ok(default_auth_order()),
    }
}


/// The `PreferredAuthentications` entries for the rest of an order; `added` tells whether
/// `publickey` was already listed (agent and keys share it).
pub open spec fn preferred_acc(order: Seq<SshAuthMethod>, added: bool) -> Seq<Seq<char>>
    decreases order.len(),
{
    if order.len() == 0 {
        Seq::empty()
    } else {
        match order[0] {
            SshAuthMethod::Password => seq!["keyboard-interactive"@, "password"@] + preferred_acc(
                order.drop_first(),
                added,
            ),
            _ => if added {
                preferred_acc(order.drop_first(), true)
            } else {
                seq!["publickey"@] + preferred_acc(order.drop_first(), true)
            },
        }
    }
}

/// The SSH options for an auth order: the preferred methods, then `IdentityAgent=none`
/// unless the agent is both available and part of the order.
pub open spec fn ssh_auth_args_spec(order: Seq<SshAuthMethod>, availability: SshAuthAvailability) -> Seq<Seq<char>> {
    let preferred = preferred_acc(order, false);
    let first: Seq<Seq<char>> = if preferred.len() > 0 {
        seq!["-o"@, "PreferredAuthentications="@ + join(preferred, ","@)]
    } else {
        Seq::empty()
    };
    if !availability.agent || !order.contains(SshAuthMethod::Agent) {
        first + seq!["-o"@, "IdentityAgent=none"@]
    } else {
        first
    }
}

/// Whether SSH options end by turning the agent off (`-o IdentityAgent=none`).
pub open spec fn ends_with_agent_off(args: Seq<Seq<char>>) -> bool {
    args.len() >= 2 && args[args.len() - 2] == "-o"@ && args[args.len() - 1] == "IdentityAgent=none"@
}

/// An order holding the agent or keys lists `publickey`, so its preferred methods are not empty.
proof fn lemma_preferred_nonempty(order: Seq<SshAuthMethod>, added: bool)
    requires
        order.contains(SshAuthMethod::Agent) || order.contains(SshAuthMethod::Keys),
    ensures
        !added ==> preferred_acc(order, added).len() > 0,
    decreases order.len(),
{
    let m = choose|k: int| 0 <= k < order.len() && (order[k] == SshAuthMethod::Agent || order[k] == SshAuthMethod::Keys);
    if order[0] == SshAuthMethod::Password {
        assert(order.drop_first()[m - 1] == order[m]);
        lemma_preferred_nonempty(order.drop_first(), added);
    }
}

/// Law: the agent is turned off unless the user's order lets SSH use it. Whatever the order
/// and whatever is available, the options end with `-o IdentityAgent=none` exactly when the
/// agent is not available or not in the order; when the agent is both, no option names
/// `IdentityAgent=none`.
pub proof fn lemma_agent_off_unless_ordered(order: Seq<SshAuthMethod>, availability: SshAuthAvailability)
    ensures
        ends_with_agent_off(ssh_auth_args_spec(order, availability)) <==> (!availability.agent
            || !order.contains(SshAuthMethod::Agent)),
        availability.agent && order.contains(SshAuthMethod::Agent) ==> forall|k: int|
            0 <= k < ssh_auth_args_spec(order, availability).len() ==> #[trigger] ssh_auth_args_spec(
                order,
                availability,
            )[k] != "IdentityAgent=none"@,
{
    reveal_strlit("-o");
    reveal_strlit("IdentityAgent=none");
    reveal_strlit("PreferredAuthentications=");
    let args = ssh_auth_args_spec(order, availability);
    let preferred = preferred_acc(order, false);
    if availability.agent && order.contains(SshAuthMethod::Agent) {
        lemma_preferred_nonempty(order, false);
        let last = "PreferredAuthentications="@ + join(preferred, ","@);
        assert(args =~= seq!["-o"@, last]);
        assert(last[0] == 'P');
        assert(last != "IdentityAgent=none"@) by {
            assert("IdentityAgent=none"@[0] == 'I');
        }
        assert("-o"@ != "IdentityAgent=none"@) by {
            assert("-o"@.len() != "IdentityAgent=none"@.len());
        }
    }
}

proof fn lemma_preferred_entries(order: Seq<SshAuthMethod>, added: bool)
    ensures
        preferred_acc(order, added).contains("publickey"@) <==> (!added && (order.contains(
            SshAuthMethod::Agent,
        ) || order.contains(SshAuthMethod::Keys))),
        preferred_acc(order, added).contains("password"@) <==> order.contains(SshAuthMethod::Password),
    decreases order.len(),
{
    reveal_strlit("publickey");
    reveal_strlit("password");
    reveal_strlit("keyboard-interactive");
    assert("publickey"@ != "password"@) by {
        assert("publickey"@.len() != "password"@.len());
    }
    assert("publickey"@ != "keyboard-interactive"@) by {
        assert("publickey"@.len() != "keyboard-interactive"@.len());
    }
    assert("password"@ != "keyboard-interactive"@) by {
        assert("password"@.len() != "keyboard-interactive"@.len());
    }
    if order.len() > 0 {
        let rest = order.drop_first();
        lemma_preferred_entries(rest, added);
        lemma_preferred_entries(rest, true);
        assert forall|m: SshAuthMethod| order.contains(m) <==> (order[0] == m || rest.contains(m)) by {
            if order.contains(m) {
                let k = choose|k: int| 0 <= k < order.len() && order[k] == m;
                if k > 0 {
                    assert(rest[k - 1] == m);
                }
            }
            if rest.contains(m) {
                let k = choose|k: int| 0 <= k < rest.len() && rest[k] == m;
                assert(order[k + 1] == m);
            }
            if order[0] == m {
                assert(order[0] == m);
            }
        }
        let head: Seq<Seq<char>> = match order[0] {
            SshAuthMethod::Password => seq!["keyboard-interactive"@, "password"@],
            _ => if added {
                Seq::empty()
            } else {
                seq!["publickey"@]
            },
        };
        let tail = match order[0] {
            SshAuthMethod::Password => preferred_acc(rest, added),
            _ => preferred_acc(rest, true),
        };
        assert(preferred_acc(order, added) =~= head + tail);
        assert forall|x: Seq<char>| (head + tail).contains(x) <==> (head.contains(x) || tail.contains(x)) by {
            if (head + tail).contains(x) {
                let k = choose|k: int| 0 <= k < (head + tail).len() && (head + tail)[k] == x;
                if k >= head.len() {
                    assert(tail[k - head.len()] == x);
                }
            }
            if head.contains(x) {
                let k = choose|k: int| 0 <= k < head.len() && head[k] == x;
                assert((head + tail)[k] == x);
            }
            if tail.contains(x) {
                let k = choose|k: int| 0 <= k < tail.len() && tail[k] == x;
                assert((head + tail)[k + head.len()] == x);
            }
        }
        if order[0] == SshAuthMethod::Password {
            assert(head[1] == "password"@);
        } else if !added {
            assert(head[0] == "publickey"@);
        }
    }
}

/// Law: which methods SSH is told to prefer. `publickey` is listed exactly when the order holds
/// the agent or keys, and `password` exactly when it holds a password.
pub proof fn lemma_preferred_methods(order: Seq<SshAuthMethod>)
    ensures
        preferred_acc(order, false).contains("publickey"@) <==> (order.contains(SshAuthMethod::Agent)
            || order.contains(SshAuthMethod::Keys)),
        preferred_acc(order, false).contains("password"@) <==> order.contains(SshAuthMethod::Password),
{
    lemma_preferred_entries(order, false);
}

/// Law: the shape of the options. An empty order only turns the agent off; any other order
/// starts with `-o PreferredAuthentications=` and the preferred methods joined by commas, and
/// nothing else comes before the agent option.
pub proof fn lemma_auth_args_shape(order: Seq<SshAuthMethod>, availability: SshAuthAvailability)
    ensures
        order.len() == 0 ==> ssh_auth_args_spec(order, availability) == seq!["-o"@, "IdentityAgent=none"@],
        order.len() > 0 ==> {
            let args = ssh_auth_args_spec(order, availability);
            &&& args.len() >= 2
            &&& args[0] == "-o"@
            &&& args[1] == "PreferredAuthentications="@ + join(preferred_acc(order, false), ","@)
            &&& args.len() == 2 || ends_with_agent_off(args) && args.len() == 4
        },
{
    let args = ssh_auth_args_spec(order, availability);
    if order.len() == 0 {
        assert(preferred_acc(order, false).len() == 0);
        assert(args =~= seq!["-o"@, "IdentityAgent=none"@]);
    } else {
        lemma_preferred_entries(order, false);
        if order.contains(SshAuthMethod::Password) {
            let k = choose|k: int|
                0 <= k < preferred_acc(order, false).len() && preferred_acc(order, false)[k] == "password"@;
        } else {
            let m = order[0];
            assert(order.contains(m));
            lemma_preferred_nonempty(order, false);
        }
        assert(preferred_acc(order, false).len() > 0);
    }
}

/// Builds the `-o` options that steer SSH through the auth order.
pub fn build_ssh_auth_args(order: &Vec<SshAuthMethod>, availability: &SshAuthAvailability) -> (r: Vec<String>)
    ensures
        strings_view(r@) == ssh_auth_args_spec(order@, *availability),
{
    let mut preferred: Vec<String> = Vec::new();
    let mut added = false;
    let mut i: usize = 0;
    assert(order@.skip(0) =~= order@);
    while i < order.len()
        invariant
            i <= order.len(),
            strings_view(preferred@) + preferred_acc(order@.skip(i as int), added) == preferred_acc(order@, false),
        decreases order.len() - i,
    {
        let ghost rest = order@.skip(i as int);
        let ghost before = strings_view(preferred@);
        assert(rest[0] == order@[i as int]);
        assert(rest.drop_first() =~= order@.skip(i + 1));
        match order[i] {
            SshAuthMethod::Password => {
                preferred.push(owned("keyboard-interactive"));
                preferred.push(owned("password"));
                assert(strings_view(preferred@) =~= before + seq!["keyboard-interactive"@, "password"@]);
            },
            _ => {
                if !added {
                    preferred.push(owned("publickey"));
                    added = true;
                    assert(strings_view(preferred@) =~= before + seq!["publickey"@]);
                }
            },
        }
        i = i + 1;
    }
    assert(order@.skip(i as int) =~= Seq::<SshAuthMethod>::empty());
    assert(strings_view(preferred@) =~= preferred_acc(order@, false));
    let mut args: Vec<String> = Vec::new();
    if preferred.len() > 0 {
        args.push(owned("-o"));
        let joined = crate::text::join_strings(&preferred, ",");
        args.push(concat2("PreferredAuthentications=", joined.as_str()));
    }
    let ghost first = strings_view(args@);
    if !availability.agent || !contains_method(order, SshAuthMethod::Agent) {
        args.push(owned("-o"));
        args.push(owned("IdentityAgent=none"));
        assert(strings_view(args@) =~= first + seq!["-o"@, "IdentityAgent=none"@]);
    }
    assert(strings_view(args@) =~= ssh_auth_args_spec(order@, *availability));
    args
}

/// Whether a method can be used on this machine; a password can always be typed.
pub open spec fn auth_available(m: SshAuthMethod, a: SshAuthAvailability) -> bool {
    match m {
        SshAuthMethod::Agent => a.agent,
        SshAuthMethod::Keys => a.keys,
        SshAuthMethod::Password => true,
    }
}

fn is_auth_method_available(method: SshAuthMethod, availability: &SshAuthAvailability) -> (r: bool)
    ensures
        r == auth_available(method, *availability),
{
    match method {
        SshAuthMethod::Agent => availability.agent,
        SshAuthMethod::Keys => availability.keys,
        SshAuthMethod::Password => true,
    }
}

/// The first method of the order that can be used here.
pub open spec fn first_available(order: Seq<SshAuthMethod>, a: SshAuthAvailability) -> Option<SshAuthMethod>
    decreases order.len(),
{
    if order.len() == 0 {
        None
    } else if auth_available(order[0], a) {
        Some(order[0])
    } else {
        first_available(order.drop_first(), a)
    }
}

/// The hint printed when the preferred method is not available.
pub open spec fn auth_hint_spec(order: Seq<SshAuthMethod>, a: SshAuthAvailability) -> Option<Seq<char>> {
    if order.len() > 0 && order[0] == SshAuthMethod::Agent && !a.agent {
        Some(
            "Hint: SSH auth order prefers agent; start ssh-agent or set SSH_AUTH_SOCK to avoid password prompts."@,
        )
    } else if order.len() > 0 && order[0] == SshAuthMethod::Keys && !a.keys {
        Some("Hint: SSH auth order prefers keys; add a key under ~/.ssh or update the auth order."@)
    } else {
        None
    }
}

/// Whether SSH will fall back to a password although the order prefers something else.
pub open spec fn warn_password_fallback_spec(order: Seq<SshAuthMethod>, a: SshAuthAvailability) -> bool {
    first_available(order, a) == Some(SshAuthMethod::Password) && !(order.len() > 0 && order[0]
        == SshAuthMethod::Password)
}

/// The auth context for an order on a machine with the given availability.
pub fn ssh_auth_context_for(order: Vec<SshAuthMethod>, availability: SshAuthAvailability) -> (r: SshAuthContext)
    ensures
        r.order@ == order@,
        strings_view(r.args@) == ssh_auth_args_spec(order@, availability),
        match auth_hint_spec(order@, availability) {
            Some(h) => r.hint matches Some(x) && x@ == h,
            None => r.hint is None,
        },
        r.warn_password_fallback == warn_password_fallback_spec(order@, availability),
{
    let args = build_ssh_auth_args(&order, &availability);
    let hint = if order.len() > 0 && order[0] == SshAuthMethod::Agent && !availability.agent {
        Some(owned("Hint: SSH auth order prefers agent; start ssh-agent or set SSH_AUTH_SOCK to avoid password prompts."))
    } else if order.len() > 0 && order[0] == SshAuthMethod::Keys && !availability.keys {
        Some(owned("Hint: SSH auth order prefers keys; add a key under ~/.ssh or update the auth order."))
    } else {
        None
    };
    let mut first: Option<SshAuthMethod> = None;
    let mut i: usize = 0;
    assert(order@.skip(0) =~= order@);
    while i < order.len() && first.is_none()
        invariant
            i <= order.len(),
            first is None ==> first_available(order@.skip(i as int), availability)
                == first_available(order@, availability),
            first is Some ==> first == first_available(order@, availability),
        decreases order.len() - i,
    {
        assert(order@.skip(i as int)[0] == order@[i as int]);
        assert(order@.skip(i as int).drop_first() =~= order@.skip(i + 1));
        if is_auth_method_available(order[i], &availability) {
            first = Some(order[i]);
        }
        i = i + 1;
    }
    proof {
        if first is None {
            assert(order@.skip(i as int) =~= Seq::<SshAuthMethod>::empty());
        }
    }
    let first_is_password = order.len() > 0 && order[0] == SshAuthMethod::Password;
    let warn = match first {
        Some(SshAuthMethod::Password) => !first_is_password,
        _ => false,
    };
    SshAuthContext { order, args, hint, warn_password_fallback: warn }
}


proof fn lemma_method_name_facts(m: SshAuthMethod)
    ensures
        auth_method_from(auth_method_name(m)) == Some(m),
        trim(auth_method_name(m)) == auth_method_name(m),
        !crate::text::has_char(auth_method_name(m), ','),
        auth_method_name(m).len() > 0,
        !crate::text::is_ws(auth_method_name(m)[0]),
{
    reveal_strlit("agent");
    reveal_strlit("keys");
    reveal_strlit("password");
    let n = auth_method_name(m);
    crate::text::lemma_trim_unchanged(n);
    assert(!crate::text::has_char(n, ',')) by {
        if crate::text::has_char(n, ',') {
            let k = choose|k: int| 0 <= k < n.len() && n[k] == ',';
        }
    }
}

proof fn lemma_parse_names(order: Seq<SshAuthMethod>, acc: Seq<SshAuthMethod>)
    requires
        forall|i: int, j: int| 0 <= i < j < order.len() ==> order[i] != order[j],
        forall|i: int| 0 <= i < order.len() ==> !acc.contains(#[trigger] order[i]),
    ensures
        parse_auth_items(auth_names(order), acc) == Ok::<Seq<SshAuthMethod>, Seq<char>>(acc + order),
    decreases order.len(),
{
    if order.len() == 0 {
        assert(acc + order =~= acc);
    } else {
        let m = order[0];
        lemma_method_name_facts(m);
        assert(auth_names(order)[0] == auth_method_name(m));
        assert(auth_names(order).drop_first() =~= auth_names(order.drop_first()));
        assert forall|i: int| 0 <= i < order.drop_first().len() implies !acc.push(m).contains(
            #[trigger] order.drop_first()[i],
        ) by {
            assert(order.drop_first()[i] == order[i + 1]);
            if acc.push(m).contains(order[i + 1]) {
                let k = choose|k: int| 0 <= k < acc.push(m).len() && acc.push(m)[k] == order[i + 1];
                if k < acc.len() {
                    assert(acc.contains(order[i + 1]));
                }
            }
        }
        lemma_parse_names(order.drop_first(), acc.push(m));
        assert(acc.push(m) + order.drop_first() =~= acc + order);
    }
}

/// The non-blank items of a comma-separated auth order, trimmed, in order.
pub open spec fn nonblank_items(pieces: Seq<Seq<char>>) -> Seq<Seq<char>>
    decreases pieces.len(),
{
    if pieces.len() == 0 {
        Seq::empty()
    } else {
        (if trim(pieces[0]).len() == 0 {
            Seq::<Seq<char>>::empty()
        } else {
            seq![trim(pieces[0])]
        }) + nonblank_items(pieces.drop_first())
    }
}

/// The trimmed, non-blank items of an auth-order setting.
pub open spec fn auth_items(raw: Seq<char>) -> Seq<Seq<char>> {
    nonblank_items(split(raw, ','))
}

/// Every item names an auth method.
pub open spec fn all_known(items: Seq<Seq<char>>) -> bool {
    forall|i: int| 0 <= i < items.len() ==> #[trigger] auth_method_from(items[i]) is Some
}

/// The methods the items name.
pub open spec fn item_methods(items: Seq<Seq<char>>) -> Seq<SshAuthMethod> {
    items.map_values(|t: Seq<char>| auth_method_from(t)->0)
}

/// No element occurs twice.
pub open spec fn no_repeats<A>(s: Seq<A>) -> bool {
    forall|i: int, j: int| 0 <= i < j < s.len() ==> s[i] != s[j]
}

proof fn lemma_parse_items_characterized(pieces: Seq<Seq<char>>, acc: Seq<SshAuthMethod>)
    requires
        no_repeats(acc),
    ensures
        parse_auth_items(pieces, acc) is Ok <==> (all_known(nonblank_items(pieces)) && no_repeats(
            acc + item_methods(nonblank_items(pieces)),
        )),
        parse_auth_items(pieces, acc) is Ok ==> parse_auth_items(pieces, acc)->Ok_0 == acc + item_methods(
            nonblank_items(pieces),
        ),
    decreases pieces.len(),
{
    let items = nonblank_items(pieces);
    if pieces.len() == 0 {
        assert(items =~= Seq::<Seq<char>>::empty());
        assert(acc + item_methods(items) =~= acc);
    } else {
        let t = trim(pieces[0]);
        let rest = nonblank_items(pieces.drop_first());
        if t.len() == 0 {
            assert(items =~= rest);
            lemma_parse_items_characterized(pieces.drop_first(), acc);
        } else {
            assert(items =~= seq![t] + rest);
            assert(items[0] == t);
            match auth_method_from(t) {
                None => {
                    assert(!all_known(items));
                },
                Some(m) => {
                    assert(item_methods(items) =~= seq![m] + item_methods(rest));
                    assert(acc + item_methods(items) =~= acc.push(m) + item_methods(rest));
                    assert(all_known(items) <==> all_known(rest)) by {
                        if all_known(rest) {
                            assert forall|i: int| 0 <= i < items.len() implies #[trigger] auth_method_from(
                                items[i],
                            ) is Some by {
                                if i > 0 {
                                    assert(items[i] == rest[i - 1]);
                                }
                            }
                        }
                        if all_known(items) {
                            assert forall|i: int| 0 <= i < rest.len() implies #[trigger] auth_method_from(
                                rest[i],
                            ) is Some by {
                                assert(items[i + 1] == rest[i]);
                            }
                        }
                    }
                    if acc.contains(m) {
                        let k = choose|k: int| 0 <= k < acc.len() && acc[k] == m;
                        let all = acc + item_methods(items);
                        assert(all[k] == m && all[acc.len() as int] == m);
                    } else {
                        assert(no_repeats(acc.push(m))) by {
                            assert forall|i: int, j: int| 0 <= i < j < acc.push(m).len() implies acc.push(m)[i]
                                != acc.push(m)[j] by {
                                if j == acc.len() {
                                    assert(acc.contains(acc[i]));
                                }
                            }
                        }
                        lemma_parse_items_characterized(pieces.drop_first(), acc.push(m));
                    }
                },
            }
        }
    }
}

proof fn lemma_known_items_repeat_iff(items: Seq<Seq<char>>)
    requires
        all_known(items),
    ensures
        no_repeats(items) <==> no_repeats(item_methods(items)),
{
    let ms = item_methods(items);
    reveal_strlit("agent");
    reveal_strlit("keys");
    reveal_strlit("password");
    assert forall|i: int, j: int| 0 <= i < items.len() && 0 <= j < items.len() implies (items[i] == items[j]
        <==> ms[i] == ms[j]) by {
        assert(auth_method_from(items[i]) is Some);
        assert(auth_method_from(items[j]) is Some);
    }
}

/// Law: which auth-order texts are accepted. A setting is read as an auth order exactly when
/// it is not blank, it has at least one non-blank comma-separated item, every item (trimmed)
/// is `agent`, `keys` or `password`, and no item repeats; the order then lists the items'
/// methods in turn.
pub proof fn lemma_auth_order_accepted(raw: Seq<char>)
    ensures
        parse_auth_order_spec(raw) is Ok <==> (trim(raw).len() > 0 && auth_items(raw).len() > 0 && all_known(
            auth_items(raw),
        ) && no_repeats(auth_items(raw))),
        parse_auth_order_spec(raw) matches Ok(v) ==> v == item_methods(auth_items(raw)),
{
    let items = auth_items(raw);
    lemma_parse_items_characterized(split(raw, ','), Seq::empty());
    assert(Seq::<SshAuthMethod>::empty() + item_methods(items) =~= item_methods(items));
    if all_known(items) {
        lemma_known_items_repeat_iff(items);
    }
}

/// Whatever is read as an auth order is non-empty and has no repeats.
pub proof fn lemma_parsed_order_has_no_repeats(raw: Seq<char>)
    ensures
        parse_auth_order_spec(raw) matches Ok(v) ==> v.len() > 0 && no_repeats(v),
{
    lemma_parse_items_characterized(split(raw, ','), Seq::empty());
    assert(Seq::<SshAuthMethod>::empty() + item_methods(auth_items(raw)) =~= item_methods(auth_items(raw)));
}

/// Law: a non-empty auth order without repeats is read back unchanged from its stored form.
pub proof fn lemma_auth_order_round_trip(order: Seq<SshAuthMethod>)
    requires
        order.len() > 0,
        forall|i: int, j: int| 0 <= i < j < order.len() ==> order[i] != order[j],
    ensures
        parse_auth_order_spec(format_auth_order_spec(order)) == Ok::<Seq<SshAuthMethod>, Seq<char>>(order),
{
    let names = auth_names(order);
    reveal_strlit(",");
    assert(","@ =~= seq![',']);
    assert forall|k: int| 0 <= k < names.len() implies !crate::text::has_char(#[trigger] names[k], ',') by {
        lemma_method_name_facts(order[k]);
    }
    crate::text::lemma_split_join(names, ',');
    lemma_parse_names(order, Seq::empty());
    assert(Seq::<SshAuthMethod>::empty() + order =~= order);
    let f = format_auth_order_spec(order);
    assert(trim(f).len() != 0) by {
        if trim(f).len() == 0 {
            lemma_trim_empty_has_no_letters(f);
            lemma_method_name_facts(order[0]);
            lemma_join_contains_first(names, ","@);
            assert(names[0] == auth_method_name(order[0]));
            assert(!crate::text::is_ws(f[0]));
        }
    }
}

proof fn lemma_trim_empty_has_no_letters(s: Seq<char>)
    requires
        trim(s).len() == 0,
    ensures
        s.len() > 0 ==> crate::text::is_ws(s[0]),
{
    if s.len() > 0 && !crate::text::is_ws(s[0]) {
        assert(crate::text::trim_start(s) == s);
        lemma_trim_end_nonempty(s);
    }
}

proof fn lemma_trim_end_nonempty(s: Seq<char>)
    requires
        s.len() > 0,
        !crate::text::is_ws(s[0]),
    ensures
        crate::text::trim_end(s).len() > 0,
    decreases s.len(),
{
    if crate::text::is_ws(s.last()) {
        assert(s.len() > 1);
        assert(s.drop_last()[0] == s[0]);
        lemma_trim_end_nonempty(s.drop_last());
    }
}

proof fn lemma_join_contains_first(pieces: Seq<Seq<char>>, sep: Seq<char>)
    requires
        pieces.len() > 0,
        pieces[0].len() > 0,
    ensures
        join(pieces, sep).len() > 0,
        join(pieces, sep)[0] == pieces[0][0],
{
    if pieces.len() >= 2 {
        crate::text::lemma_join_front(pieces, sep);
    }
}

/// The invocation shown to the user: the client, `-p PORT`, then the auth arguments,
/// separated by spaces.
pub open spec fn invocation_text(client_path: Seq<char>, port: u16, auth: Seq<Seq<char>>) -> Seq<char> {
    join(seq![client_path, "-p"@, decimal(port as nat)] + auth, " "@)
}

/// The invocation shown to the user.
pub fn format_ssh_invocation(client_path: &str, port: u16, auth_args: &Vec<String>) -> (r: String)
    ensures
        r@ == invocation_text(client_path@, port, strings_view(auth_args@)),
{
    let mut parts: Vec<String> = Vec::new();
    parts.push(owned(client_path));
    parts.push(owned("-p"));
    parts.push(u64_to_string(port as u64));
    let ghost head = strings_view(parts@);
    proof {
        reveal_strlit("-p");
        assert(head =~= seq![client_path@, "-p"@, decimal(port as nat)]);
    }
    let mut i: usize = 0;
    while i < auth_args.len()
        invariant
            i <= auth_args.len(),
            strings_view(parts@) == head + strings_view(auth_args@).take(i as int),
        decreases auth_args.len() - i,
    {
        let ghost before = strings_view(parts@);
        parts.push(auth_args[i].clone());
        assert(strings_view(parts@) =~= before.push(auth_args@[i as int]@));
        assert(strings_view(auth_args@).take(i + 1) =~= strings_view(auth_args@).take(i as int).push(
            auth_args@[i as int]@,
        ));
        i = i + 1;
    }
    assert(strings_view(auth_args@).take(auth_args@.len() as int) =~= strings_view(auth_args@));
    join_strings(&parts, " ")
}

/// The SSH invocation of a profile, from the client path and auth context found for it:
/// non-SSH profiles are refused; the arguments and safe metadata follow the target.
pub fn assemble_ssh_invocation(
    profile: &Profile,
    client_path: String,
    auth: SshAuthContext,
    source: &str,
    mode: SshInvocationMode,
) -> (r: Result<SshInvocation, SshBuildError>)
    ensures
        profile.profile_type != ProfileType::Ssh ==> (r matches Err(SshBuildError::UnsupportedProfileType {
            profile_id,
            profile_type,
        }) && profile_id@ == profile.profile_id@ && profile_type == profile.profile_type),
        profile.profile_type == ProfileType::Ssh ==> (r matches Ok(inv) && inv.client_path@ == client_path@
            && strings_view(inv.args@) == ssh_args_spec(profile.port, strings_view(auth.args@), profile.user@, profile.host@)
            && inv.target.profile_id@ == profile.profile_id@ && inv.target.port == profile.port
            && inv.safe_metadata.source@ == source@ && inv.safe_metadata.mode == mode
            && inv.safe_metadata.launch_error is None && inv.auth_context == auth),
{
    let target = match ssh_target_from_profile(profile) {
        Ok(t) => t,
        Err(e) => return Err(e),
    };
    let args = build_ssh_args(&target, &auth.args);
    let safe_metadata = safe_ssh_metadata(&target, source, mode, None);
    Ok(SshInvocation { client_path, args, target, auth_context: auth, safe_metadata })
}

} // verus!
