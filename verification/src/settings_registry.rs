use vstd::prelude::*;

use crate::error::CoreError;
use crate::id::{text_lowercase, lowercased};
use crate::settings::SettingScopeKind;
use crate::ssh::{
    format_auth_order, format_auth_order_spec, lemma_auth_order_round_trip, lemma_parsed_order_has_no_repeats,
    parse_auth_items, parse_auth_order_spec, read_auth_items,
};
use crate::text::{concat2, concat3, owned, split, str_eq, strings_view, trim, trim_str};

verus! {

/// The kind of value a setting holds.
#[derive(Debug, Clone, Copy, PartialEq, Eq, Structural)]
pub enum SettingValueType {
    Boolean,
    String,
    Json,
    CsvList,
}

/// The published description of a setting.
#[derive(Debug, Clone)]
pub struct SettingSchema {
    pub key: String,
    pub description: String,
    pub value_type: SettingValueType,
    pub allowed_values: Vec<String>,
    pub examples: Vec<String>,
    pub dangerous: bool,
    pub scopes: Vec<SettingScopeKind>,
}

/// The known setting keys, in registry order.
pub open spec fn setting_keys() -> Seq<Seq<char>> {
    seq!["allow_insecure_transfers"@, "ssh_auth_order"@, "client_overrides"@]
}

/// The schema of the setting at position `i` of the registry.
pub open spec fn schema_at(s: SettingSchema, i: int) -> bool {
    &&& s.key@ == setting_keys()[i]
    &&& i == 0 ==> {
        &&& s.description@ == "Allow insecure transfers when using FTP clients."@
        &&& s.value_type == SettingValueType::Boolean
        &&& strings_view(s.allowed_values@) == seq!["true"@, "false"@]
        &&& strings_view(s.examples@) == seq!["true"@, "false"@]
        &&& s.dangerous
        &&& s.scopes@ == seq![SettingScopeKind::Global, SettingScopeKind::Env, SettingScopeKind::Profile]
    }
    &&& i == 1 ==> {
        &&& s.description@ == "Preferred SSH auth order (comma-delimited: agent,keys,password)."@
        &&& s.value_type == SettingValueType::CsvList
        &&& strings_view(s.allowed_values@) == seq!["agent"@, "keys"@, "password"@]
        &&& strings_view(s.examples@) == seq!["agent,keys,password"@, "keys,password"@]
        &&& !s.dangerous
        &&& s.scopes@ == seq![SettingScopeKind::Global, SettingScopeKind::Env, SettingScopeKind::Profile]
    }
    &&& i == 2 ==> {
        &&& s.description@ == "JSON overrides for client paths (ssh/scp/sftp/ftp/telnet)."@
        &&& s.value_type == SettingValueType::Json
        &&& s.allowed_values@.len() == 0
        &&& strings_view(s.examples@) == seq!["{\"ssh\":\"/usr/bin/ssh\",\"scp\":\"/usr/bin/scp\"}"@]
        &&& !s.dangerous
        &&& s.scopes@ == seq![SettingScopeKind::Global]
    }
}

fn strings2(a: &str, b: &str) -> (r: Vec<String>)
    ensures
        strings_view(r@) == seq![a@, b@],
{
    let mut r: Vec<String> = Vec::new();
    r.push(owned(a));
    r.push(owned(b));
    assert(strings_view(r@) =~= seq![a@, b@]);
    r
}

fn all_scopes() -> (r: Vec<SettingScopeKind>)
    ensures
        r@ == seq![SettingScopeKind::Global, SettingScopeKind::Env, SettingScopeKind::Profile],
{
    let mut r: Vec<SettingScopeKind> = Vec::new();
    r.push(SettingScopeKind::Global);
    r.push(SettingScopeKind::Env);
    r.push(SettingScopeKind::Profile);
    assert(r@ =~= seq![SettingScopeKind::Global, SettingScopeKind::Env, SettingScopeKind::Profile]);
    r
}

fn schema_by_index(i: usize) -> (r: SettingSchema)
    requires
        i < 3,
    ensures
        schema_at(r, i as int),
{
    if i == 0 {
        let s = SettingSchema {
            key: owned("allow_insecure_transfers"),
            description: owned("Allow insecure transfers when using FTP clients."),
            value_type: SettingValueType::Boolean,
            allowed_values: strings2("true", "false"),
            examples: strings2("true", "false"),
            dangerous: true,
            scopes: all_scopes(),
        };
        s
    } else if i == 1 {
        let mut allowed = strings2("agent", "keys");
        let ghost before = strings_view(allowed@);
        allowed.push(owned("password"));
        assert(strings_view(allowed@) =~= before.push("password"@));
        assert(strings_view(allowed@) =~= seq!["agent"@, "keys"@, "password"@]);
        let s = SettingSchema {
            key: owned("ssh_auth_order"),
            description: owned("Preferred SSH auth order (comma-delimited: agent,keys,password)."),
            value_type: SettingValueType::CsvList,
            allowed_values: allowed,
            examples: strings2("agent,keys,password", "keys,password"),
            dangerous: false,
            scopes: all_scopes(),
        };
        s
    } else {
        let mut examples: Vec<String> = Vec::new();
        examples.push(owned("{\"ssh\":\"/usr/bin/ssh\",\"scp\":\"/usr/bin/scp\"}"));
        assert(strings_view(examples@) =~= seq!["{\"ssh\":\"/usr/bin/ssh\",\"scp\":\"/usr/bin/scp\"}"@]);
        let mut scopes: Vec<SettingScopeKind> = Vec::new();
        scopes.push(SettingScopeKind::Global);
        assert(scopes@ =~= seq![SettingScopeKind::Global]);
        let s = SettingSchema {
            key: owned("client_overrides"),
            description: owned("JSON overrides for client paths (ssh/scp/sftp/ftp/telnet)."),
            value_type: SettingValueType::Json,
            allowed_values: Vec::new(),
            examples,
            dangerous: false,
            scopes,
        };
        s
    }
}

/// The known setting keys.
pub fn list_keys() -> (r: Vec<String>)
    ensures
        strings_view(r@) == setting_keys(),
{
    let mut r: Vec<String> = Vec::new();
    r.push(owned("allow_insecure_transfers"));
    r.push(owned("ssh_auth_order"));
    r.push(owned("client_overrides"));
    assert(strings_view(r@) =~= setting_keys());
    r
}

/// The schemas of all settings, in registry order.
pub fn list_schemas() -> (r: Vec<SettingSchema>)
    ensures
        r@.len() == 3,
        forall|i: int| 0 <= i < 3 ==> schema_at(#[trigger] r@[i], i),
{
    let mut r: Vec<SettingSchema> = Vec::new();
    r.push(schema_by_index(0));
    r.push(schema_by_index(1));
    r.push(schema_by_index(2));
    r
}

/// The registry position of a key.
pub open spec fn key_index(key: Seq<char>) -> Option<int> {
    if key == setting_keys()[0] {
        Some(0)
    } else if key == setting_keys()[1] {
        Some(1)
    } else if key == setting_keys()[2] {
        Some(2)
    } else {
        None
    }
}

fn key_index_exec(key: &str) -> (r: Option<usize>)
    ensures
        match r {
            Some(i) => key_index(key@) == Some(i as int),
            None => key_index(key@) is None,
        },
{
    if str_eq(key, "allow_insecure_transfers") {
        Some(0)
    } else if str_eq(key, "ssh_auth_order") {
        Some(1)
    } else if str_eq(key, "client_overrides") {
        Some(2)
    } else {
        None
    }
}

/// The schema of a key, if the key is known.
pub fn schema_for_key(key: &str) -> (r: Option<SettingSchema>)
    ensures
        match key_index(key@) {
            Some(i) => r matches Some(s) && schema_at(s, i),
            None => r is None,
        },
{
    match key_index_exec(key) {
        Some(i) => Some(schema_by_index(i)),
        None => None,
    }
}

/// What `serde_json::from_str::<serde_json::Value>` followed by `serde_json::to_string` gives:
/// the compact text of the value, or the text of the parse error.
pub uninterp spec fn json_compact_text(raw: Seq<char>) -> Result<Seq<char>, Seq<char>>;

/// Parses `raw` with `serde_json::from_str` into a `serde_json::Value` and writes it back with
/// `serde_json::to_string`; an error becomes its display text. Writing a parsed value back
/// does not fail in serde_json, whose maps have string keys.
#[verifier::external_body]
pub(crate) fn json_compact(raw: &str) -> (r: Result<String, String>)
    ensures
        match r {
            Ok(s) => json_compact_text(raw@) == Ok::<Seq<char>, Seq<char>>(s@),
            Err(e) => json_compact_text(raw@) == Err::<Seq<char>, Seq<char>>(e@),
        },
{
    match serde_json::from_str::<serde_json::Value>(raw) {
        Ok(value) => match serde_json::to_string(&value) {
            Ok(text) => Ok(text),
            Err(err) => Err(err.to_string()),
        },
        Err(err) => Err(err.to_string()),
    }
}

/// The boolean spellings and what they normalise to.
pub open spec fn bool_word(l: Seq<char>) -> Option<Seq<char>> {
    if l == "true"@ || l == "1"@ || l == "yes"@ || l == "y"@ {
        Some("true"@)
    } else if l == "false"@ || l == "0"@ || l == "no"@ || l == "n"@ {
        Some("false"@)
    } else {
        None
    }
}

/// What validating `raw` for the setting at registry position `i` gives: the stored form, or the message.
pub open spec fn validate_spec(i: int, raw: Seq<char>) -> Result<Seq<char>, Seq<char>> {
    if i == 0 {
        match bool_word(lowercased(trim(raw))) {
            Some(w) => Ok(w),
            None => Err("invalid boolean value '"@ + raw + "'"@),
        }
    } else if i == 1 {
        if trim(raw).len() == 0 {
            Err("auth order cannot be empty"@)
        } else {
            match parse_auth_items(split(raw, ','), Seq::empty()) {
                Err(e) => Err(e),
                Ok(o) => if o.len() == 0 {
                    Err("auth order cannot be empty"@)
                } else {
                    Ok(format_auth_order_spec(o))
                },
            }
        }
    } else {
        match json_compact_text(raw) {
            Ok(t) => Ok(t),
            Err(e) => Err("invalid json: "@ + e),
        }
    }
}

/// A validation result as plain values.
pub open spec fn validation_view(r: Result<String, CoreError>) -> Result<Seq<char>, Seq<char>> {
    match r {
        Ok(s) => Ok(s@),
        Err(CoreError::InvalidSetting(m)) => Err(m@),
        Err(_) => Err(Seq::empty()),
    }
}

fn validate_bool(raw: &str) -> (r: Result<String, CoreError>)
    ensures
        validation_view(r) == validate_spec(0, raw@),
        r is Err ==> r matches Err(CoreError::InvalidSetting(_)),
{
    let t = trim_str(raw);
    let l = text_lowercase(t.as_str());
    let ls = l.as_str();
    if str_eq(ls, "true") || str_eq(ls, "1") || str_eq(ls, "yes") || str_eq(ls, "y") {
        Ok(owned("true"))
    } else if str_eq(ls, "false") || str_eq(ls, "0") || str_eq(ls, "no") || str_eq(ls, "n") {
        Ok(owned("false"))
    } else {
        Err(CoreError::InvalidSetting(concat3("invalid boolean value '", raw, "'")))
    }
}

fn validate_ssh_auth_order(raw: &str) -> (r: Result<String, CoreError>)
    ensures
        validation_view(r) == validate_spec(1, raw@),
        r is Err ==> r matches Err(CoreError::InvalidSetting(_)),
{
    let t = trim_str(raw);
    if t.as_str().is_empty() {
        return Err(CoreError::InvalidSetting(owned("auth order cannot be empty")));
    }
    match read_auth_items(raw) {
        Err(m) => Err(CoreError::InvalidSetting(m)),
        Ok(order) => {
            if order.len() == 0 {
                return Err(CoreError::InvalidSetting(owned("auth order cannot be empty")));
            }
            Ok(format_auth_order(&order))
        },
    }
}

fn validate_json(raw: &str) -> (r: Result<String, CoreError>)
    ensures
        validation_view(r) == validate_spec(2, raw@),
        r is Err ==> r matches Err(CoreError::InvalidSetting(_)),
{
    match json_compact(raw) {
        Ok(text) => Ok(text),
        Err(e) => Err(CoreError::InvalidSetting(concat2("invalid json: ", e.as_str()))),
    }
}

/// Law: a validated auth order validates to itself: the stored form is the canonical comma
/// list, which reads back as the same order.
pub proof fn lemma_auth_order_validation_stable(raw: Seq<char>)
    ensures
        validate_spec(1, raw) matches Ok(v) ==> validate_spec(1, v) == Ok::<Seq<char>, Seq<char>>(v),
{
    if validate_spec(1, raw) is Ok {
        let o = parse_auth_order_spec(raw)->Ok_0;
        assert(parse_auth_order_spec(raw) is Ok);
        lemma_parsed_order_has_no_repeats(raw);
        lemma_auth_order_round_trip(o);
        assert(validate_spec(1, raw) == Ok::<Seq<char>, Seq<char>>(format_auth_order_spec(o)));
    }
}

/// Law: a validated boolean is `true` or `false`, and it validates to itself.
pub proof fn lemma_bool_validation_stable(raw: Seq<char>)
    ensures
        validate_spec(0, raw) matches Ok(v) ==> (v == "true"@ || v == "false"@) && validate_spec(0, v)
            == Ok::<Seq<char>, Seq<char>>(v),
{
    reveal_strlit("true");
    reveal_strlit("false");
    reveal_strlit("1");
    reveal_strlit("yes");
    reveal_strlit("y");
    reveal_strlit("0");
    reveal_strlit("no");
    reveal_strlit("n");
    crate::text::lemma_trim_unchanged("true"@);
    crate::text::lemma_trim_unchanged("false"@);
    crate::id::lemma_lowercased_unchanged("true"@);
    crate::id::lemma_lowercased_unchanged("false"@);
    assert(bool_word("true"@) == Some("true"@));
    assert(bool_word("false"@) == Some("false"@)) by {
        assert("false"@ != "true"@);
        assert("false"@ != "1"@);
        assert("false"@ != "yes"@);
        assert("false"@ != "y"@);
    }
}

/// Validates and normalises a setting value; unknown keys are refused.
pub fn validate_setting_value(key: &str, raw: &str) -> (r: Result<String, CoreError>)
    ensures
        match key_index(key@) {
            Some(i) => validation_view(r) == validate_spec(i, raw@),
            None => validation_view(r) == Err::<Seq<char>, Seq<char>>(
                "unknown setting '"@ + key@ + "'"@,
            ),
        },
        r is Err ==> r matches Err(CoreError::InvalidSetting(_)),
{
    match key_index_exec(key) {
        None => Err(CoreError::InvalidSetting(concat3("unknown setting '", key, "'"))),
        Some(0) => validate_bool(raw),
        Some(1) => validate_ssh_auth_order(raw),
        Some(_) => validate_json(raw),
    }
}

/// The scopes a setting may be stored in.
pub open spec fn scopes_at(i: int) -> Seq<SettingScopeKind> {
    if i == 2 {
        seq![SettingScopeKind::Global]
    } else {
        seq![SettingScopeKind::Global, SettingScopeKind::Env, SettingScopeKind::Profile]
    }
}

/// Whether a setting may be stored in a scope of the given kind; unknown keys are refused.
pub fn scope_supported(key: &str, scope: SettingScopeKind) -> (r: Result<bool, CoreError>)
    ensures
        match key_index(key@) {
            Some(i) => r == Ok::<bool, CoreError>(scopes_at(i).contains(scope)),
            None => r matches Err(CoreError::InvalidSetting(m)) && m@ == "unknown setting '"@ + key@
                + "'"@,
        },
{
    match key_index_exec(key) {
        None => Err(CoreError::InvalidSetting(concat3("unknown setting '", key, "'"))),
        Some(i) => {
            let schema = schema_by_index(i);
            let mut k: usize = 0;
            let mut found = false;
            while k < schema.scopes.len()
                invariant
                    k <= schema.scopes.len(),
                    schema.scopes@ == scopes_at(i as int),
                    found == (exists|j: int| 0 <= j < k && schema.scopes@[j] == scope),
                decreases schema.scopes.len() - k,
            {
                if schema.scopes[k] == scope {
                    found = true;
                }
                k = k + 1;
            }
            Ok(found)
        },
    }
}

} // verus!
