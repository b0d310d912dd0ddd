use vstd::prelude::*;

use crate::error::CoreError;
use crate::text::{
    ascii_lower, chars_ascii_lower, chars_eq_str, chars_of, concat2, concat3, owned,
    slice_chars, starts_with_chars, string_from_chars, trim, trim_chars,
};

verus! {

/// The kinds of scope a setting can be stored in.
#[derive(Debug, Clone, Copy, PartialEq, Eq, Structural)]
pub enum SettingScopeKind {
    Global,
    Env,
    Profile,
}

/// Where a setting is stored: globally, for a named environment, or for a profile.
#[derive(Debug, Clone, PartialEq, Eq)]
pub enum SettingScope {
    Global,
    Env(String),
    Profile(String),
}

/// A scope with its name as a plain value.
pub enum ScopeView {
    Global,
    Env(Seq<char>),
    Profile(Seq<char>),
}

/// The view of a scope.
pub open spec fn scope_view(s: SettingScope) -> ScopeView {
    match s {
        SettingScope::Global => ScopeView::Global,
        SettingScope::Env(n) => ScopeView::Env(n@),
        SettingScope::Profile(p) => ScopeView::Profile(p@),
    }
}

/// The key under which a scope is stored.
pub open spec fn scope_db_text(s: ScopeView) -> Seq<char> {
    match s {
        ScopeView::Global => "global"@,
        ScopeView::Env(n) => "env:"@ + n,
        ScopeView::Profile(p) => "profile:"@ + p,
    }
}

/// Whether `s` starts with `p`.
pub open spec fn has_prefix(s: Seq<char>, p: Seq<char>) -> bool {
    p.len() <= s.len() && s.take(p.len() as int) == p
}

/// What `SettingScope::parse` gives for `raw`: the scope, or the error message.
pub open spec fn parse_scope_spec(raw: Seq<char>) -> Result<ScopeView, Seq<char>> {
    if ascii_lower(raw) == "global"@ {
        Ok(ScopeView::Global)
    } else if has_prefix(raw, "env:"@) {
        let name = trim(raw.skip(4));
        if name.len() == 0 {
            Err("env scope requires a name (env:NAME)"@)
        } else {
            Ok(ScopeView::Env(name))
        }
    } else if has_prefix(raw, "profile:"@) {
        let id = trim(raw.skip(8));
        if id.len() == 0 {
            Err("profile scope requires an id (profile:ID)"@)
        } else {
            Ok(ScopeView::Profile(id))
        }
    } else {
        Err("unknown scope '"@ + raw + "' (expected global, env:NAME, or profile:ID)"@)
    }
}

/// A parse result as plain values.
pub open spec fn scope_result_view(r: Result<SettingScope, CoreError>) -> Result<ScopeView, Seq<char>> {
    match r {
        Ok(s) => Ok(scope_view(s)),
        Err(CoreError::InvalidSetting(m)) => Err(m@),
        Err(_) => Err(Seq::empty()),
    }
}

impl SettingScope {
    pub fn global() -> (r: Self)
        ensures
            r == SettingScope::Global,
    {
        SettingScope::Global
    }

    pub fn profile(profile_id: String) -> (r: Self)
        ensures
            r == SettingScope::Profile(profile_id),
    {
        SettingScope::Profile(profile_id)
    }

    pub fn kind(&self) -> (r: SettingScopeKind)
        ensures
            r == match self {
                SettingScope::Global => SettingScopeKind::Global,
                SettingScope::Env(_) => SettingScopeKind::Env,
                SettingScope::Profile(_) => SettingScopeKind::Profile,
            },
    {
        match self {
            SettingScope::Global => SettingScopeKind::Global,
            SettingScope::Env(_) => SettingScopeKind::Env,
            SettingScope::Profile(_) => SettingScopeKind::Profile,
        }
    }

    /// The key under which the scope is stored: `global`, `env:NAME` or `profile:ID`.
    pub fn as_db(&self) -> (r: String)
        ensures
            r@ == scope_db_text(scope_view(*self)),
    {
        match self {
            SettingScope::Global => owned("global"),
            SettingScope::Env(name) => concat2("env:", name.as_str()),
            SettingScope::Profile(profile_id) => concat2("profile:", profile_id.as_str()),
        }
    }

    /// Reads `global` (any case), `env:NAME` or `profile:ID`; names are trimmed and must not be blank.
    pub fn parse(raw: &str) -> (r: Result<SettingScope, CoreError>)
        ensures
            scope_result_view(r) == parse_scope_spec(raw@),
            r is Err ==> r matches Err(CoreError::InvalidSetting(_)),
    {
        let chars = chars_of(raw);
        let lower = chars_ascii_lower(&chars);
        if chars_eq_str(&lower, "global") {
            return Ok(SettingScope::Global);
        }
        if starts_with_chars(&chars, "env:") {
            proof {
                reveal_strlit("env:");
            }
            let rest = slice_chars(&chars, 4, chars.len());
            assert(rest@ =~= raw@.skip(4));
            let name = trim_chars(&rest);
            if name.len() == 0 {
                return Err(CoreError::InvalidSetting(owned("env scope requires a name (env:NAME)")));
            }
            return Ok(SettingScope::Env(string_from_chars(&name)));
        }
        if starts_with_chars(&chars, "profile:") {
            proof {
                reveal_strlit("profile:");
            }
            let rest = slice_chars(&chars, 8, chars.len());
            assert(rest@ =~= raw@.skip(8));
            let id = trim_chars(&rest);
            if id.len() == 0 {
                return Err(
                    CoreError::InvalidSetting(owned("profile scope requires an id (profile:ID)")),
                );
            }
            return Ok(SettingScope::Profile(string_from_chars(&id)));
        }
        Err(
            CoreError::InvalidSetting(
                concat3("unknown scope '", raw, "' (expected global, env:NAME, or profile:ID)"),
            ),
        )
    }
}

/// The value a lookup resolves to: a command-line override wins, then the value stored in
/// the scope itself, then (for a profile) the value of the current environment, then the
/// global value.
pub open spec fn resolved_value_spec(
    scope: ScopeView,
    command_override: Option<Seq<char>>,
    scoped: Option<Seq<char>>,
    current_env: Option<Seq<char>>,
    global: Option<Seq<char>>,
) -> Option<Seq<char>> {
    match command_override {
        Some(v) => Some(v),
        None => match scope {
            ScopeView::Global => scoped,
            ScopeView::Env(_) => if scoped is Some {
                scoped
            } else {
                global
            },
            ScopeView::Profile(_) => if scoped is Some {
                scoped
            } else if current_env is Some {
                current_env
            } else {
                global
            },
        },
    }
}

/// The view of an optional string.
pub open spec fn opt_view(o: Option<String>) -> Option<Seq<char>> {
    match o {
        Some(s) => Some(s@),
        None => None,
    }
}

/// Law: the order in which a setting is looked up, for every scope and every stored value.
/// A command-line override always wins. Otherwise a value stored in the scope itself wins.
/// Otherwise the global scope has no value; an environment falls back to the global value; a
/// profile falls back to the value of the current environment, then to the global value, so
/// a profile without a value of its own reads what its environment reads. The result is always
/// one of the values given.
pub proof fn lemma_setting_lookup_order(
    scope: ScopeView,
    command_override: Option<Seq<char>>,
    scoped: Option<Seq<char>>,
    current_env: Option<Seq<char>>,
    global: Option<Seq<char>>,
)
    ensures
        ({
            let r = resolved_value_spec(scope, command_override, scoped, current_env, global);
            &&& command_override is Some ==> r == command_override
            &&& command_override is None && scoped is Some ==> r == scoped
            &&& command_override is None && scoped is None && scope is Global ==> r is None
            &&& command_override is None && scoped is None && scope is Env ==> r == global
            &&& command_override is None && scoped is None && scope is Profile ==> r == resolved_value_spec(
                ScopeView::Env(seq![]),
                None,
                current_env,
                None,
                global,
            )
            &&& r is None || r == command_override || r == scoped || r == current_env || r == global
        }),
{
}

/// Resolves a setting from the values stored at each level. `scoped` is the value stored in
/// `scope` itself, `current_env` the value stored for the current environment (if one is set),
/// `global` the global value.
pub fn resolve_setting_value(
    scope: &SettingScope,
    command_override: Option<String>,
    scoped: Option<String>,
    current_env: Option<String>,
    global: Option<String>,
) -> (r: Option<String>)
    ensures
        opt_view(r) == resolved_value_spec(
            scope_view(*scope),
            opt_view(command_override),
            opt_view(scoped),
            opt_view(current_env),
            opt_view(global),
        ),
{
    if command_override.is_some() {
        return command_override;
    }
    match scope {
        SettingScope::Global => scoped,
        SettingScope::Env(_) => if scoped.is_some() {
            scoped
        } else {
            global
        },
        SettingScope::Profile(_) => if scoped.is_some() {
            scoped
        } else if current_env.is_some() {
            current_env
        } else {
            global
        },
    }
}

/// Whether a stored flag reads as true: `true` in any case, ignoring surrounding whitespace.
pub open spec fn flag_is_true(raw: Option<Seq<char>>) -> bool {
    match raw {
        Some(v) => ascii_lower(trim(v)) == "true"@,
        None => false,
    }
}

/// Reads a stored boolean flag; a missing value is false.
pub fn setting_flag(raw: Option<&str>) -> (r: bool)
    ensures
        r == flag_is_true(match raw {
            Some(s) => Some(s@),
            None => None,
        }),
{
    match raw {
        Some(v) => {
            let chars = chars_of(v);
            let t = trim_chars(&chars);
            let l = chars_ascii_lower(&t);
            chars_eq_str(&l, "true")
        },
        None => false,
    }
}

/// The stored text of a boolean flag.
pub fn flag_text(value: bool) -> (r: &'static str)
    ensures
        r@ == if value { "true"@ } else { "false"@ },
{
    if value {
        "true"
    } else {
        "false"
    }
}

/// Law: a scope whose name is already trimmed and not blank is read back from its stored key.
pub proof fn lemma_scope_round_trip(s: ScopeView)
    requires
        match s {
            ScopeView::Global => true,
            ScopeView::Env(n) => n.len() > 0 && trim(n) == n,
            ScopeView::Profile(p) => p.len() > 0 && trim(p) == p,
        },
    ensures
        parse_scope_spec(scope_db_text(s)) == Ok::<ScopeView, Seq<char>>(s),
{
    reveal_strlit("global");
    reveal_strlit("env:");
    reveal_strlit("profile:");
    let t = scope_db_text(s);
    match s {
        ScopeView::Global => {
            assert(ascii_lower(t) =~= "global"@);
        },
        ScopeView::Env(n) => {
            assert(ascii_lower(t)[0] == 'e');
            assert(t.take(4) =~= "env:"@);
            assert(t.skip(4) =~= n);
        },
        ScopeView::Profile(p) => {
            assert(ascii_lower(t)[0] == 'p');
            assert(t.take(4) != "env:"@) by {
                assert(t.take(4)[1] == 'r');
                assert("env:"@[1] == 'n');
            }
            assert(t.take(8) =~= "profile:"@);
            assert(t.skip(8) =~= p);
        },
    }
}

} // verus!
