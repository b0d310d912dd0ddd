use vstd::prelude::*;

use crate::doctor::ClientOverrides;
use crate::error::CoreError;
use crate::id::{generate_id, normalize_id, starts_with, lowercased, validate_id, validate_id_spec, IdError};
use crate::text::{concat2, owned, str_eq};

verus! {

/// How a profile is reached.
#[derive(Debug, Clone, Copy, PartialEq, Eq, Structural)]
pub enum ProfileType {
    Ssh,
    Telnet,
    Serial,
}

/// The stored name of a profile type.
pub open spec fn profile_type_name(t: ProfileType) -> Seq<char> {
    match t {
        ProfileType::Ssh => "ssh"@,
        ProfileType::Telnet => "telnet"@,
        ProfileType::Serial => "serial"@,
    }
}

/// The profile type whose stored name is `s`.
pub open spec fn profile_type_from(s: Seq<char>) -> Option<ProfileType> {
    if s == "ssh"@ {
        Some(ProfileType::Ssh)
    } else if s == "telnet"@ {
        Some(ProfileType::Telnet)
    } else if s == "serial"@ {
        Some(ProfileType::Serial)
    } else {
        None
    }
}

impl ProfileType {
    /// Reads a stored profile type; an unknown name is reported as not found.
    pub fn from_str(value: &str) -> (r: Result<ProfileType, CoreError>)
        ensures
            match profile_type_from(value@) {
                Some(t) => r == Ok::<ProfileType, CoreError>(t),
                None => r matches Err(CoreError::NotFound(m)) && m@ == value@,
            },
    {
        if str_eq(value, "ssh") {
            Ok(ProfileType::Ssh)
        } else if str_eq(value, "telnet") {
            Ok(ProfileType::Telnet)
        } else if str_eq(value, "serial") {
            Ok(ProfileType::Serial)
        } else {
            Err(CoreError::NotFound(owned(value)))
        }
    }

    /// The stored name (`Display`).
    pub fn as_str(&self) -> (r: &'static str)
        ensures
            r@ == profile_type_name(*self),
    {
        match self {
            ProfileType::Ssh => "ssh",
            ProfileType::Telnet => "telnet",
            ProfileType::Serial => "serial",
        }
    }
}

/// How careful the user must be with a profile.
#[derive(Debug, Clone, Copy, PartialEq, Eq, Structural)]
pub enum DangerLevel {
    Normal,
    High,
    Critical,
}

/// The stored name of a danger level.
pub open spec fn danger_name(d: DangerLevel) -> Seq<char> {
    match d {
        DangerLevel::Normal => "normal"@,
        DangerLevel::High => "high"@,
        DangerLevel::Critical => "critical"@,
    }
}

/// The danger level whose stored name is `s`.
pub open spec fn danger_from(s: Seq<char>) -> Option<DangerLevel> {
    if s == "normal"@ {
        Some(DangerLevel::Normal)
    } else if s == "high"@ {
        Some(DangerLevel::High)
    } else if s == "critical"@ {
        Some(DangerLevel::Critical)
    } else {
        None
    }
}

impl Default for DangerLevel {
    fn default() -> (r: Self)
        ensures
            r == DangerLevel::Normal,
    {
        DangerLevel::Normal
    }
}

impl DangerLevel {
    /// Reads a stored danger level; an unknown name is reported as not found.
    pub fn from_str(value: &str) -> (r: Result<DangerLevel, CoreError>)
        ensures
            match danger_from(value@) {
                Some(d) => r == Ok::<DangerLevel, CoreError>(d),
                None => r matches Err(CoreError::NotFound(m)) && m@ == value@,
            },
    {
        if str_eq(value, "normal") {
            Ok(DangerLevel::Normal)
        } else if str_eq(value, "high") {
            Ok(DangerLevel::High)
        } else if str_eq(value, "critical") {
            Ok(DangerLevel::Critical)
        } else {
            Err(CoreError::NotFound(owned(value)))
        }
    }

    /// The stored name (`Display`).
    pub fn as_str(&self) -> (r: &'static str)
        ensures
            r@ == danger_name(*self),
    {
        match self {
            DangerLevel::Normal => "normal",
            DangerLevel::High => "high",
            DangerLevel::Critical => "critical",
        }
    }
}

/// Reads a profile type given on the command line, ignoring case.
pub fn parse_profile_type(value: &str) -> (r: Result<ProfileType, CoreError>)
    ensures
        match profile_type_from(lowercased(value@)) {
            Some(t) => r == Ok::<ProfileType, CoreError>(t),
            None => r matches Err(CoreError::InvalidCommandSpec(m)) && m@ == "invalid profile type: "@
                + value@,
        },
{
    let lower = normalize_id(value);
    match ProfileType::from_str(lower.as_str()) {
        Ok(t) => Ok(t),
        Err(_) => Err(CoreError::InvalidCommandSpec(concat2("invalid profile type: ", value))),
    }
}

/// Reads a danger level given on the command line, ignoring case.
pub fn parse_danger(value: &str) -> (r: Result<DangerLevel, CoreError>)
    ensures
        match danger_from(lowercased(value@)) {
            Some(d) => r == Ok::<DangerLevel, CoreError>(d),
            None => r matches Err(CoreError::InvalidCommandSpec(m)) && m@ == "invalid danger level: "@
                + value@,
        },
{
    let lower = normalize_id(value);
    match DangerLevel::from_str(lower.as_str()) {
        Ok(d) => Ok(d),
        Err(_) => Err(CoreError::InvalidCommandSpec(concat2("invalid danger level: ", value))),
    }
}

/// A stored connection profile.
#[derive(Debug, Clone)]
pub struct Profile {
    pub profile_id: String,
    pub name: String,
    pub profile_type: ProfileType,
    pub host: String,
    pub port: u16,
    pub user: String,
    pub danger_level: DangerLevel,
    pub group: Option<String>,
    pub tags: Vec<String>,
    pub note: Option<String>,
    pub initial_send: Option<String>,
    pub client_overrides: Option<ClientOverrides>,
    pub created_at: i64,
    pub updated_at: i64,
    pub last_used_at: Option<i64>,
}

/// A profile to be created.
#[derive(Debug, Clone)]
pub struct NewProfile {
    pub profile_id: Option<String>,
    pub name: String,
    pub profile_type: ProfileType,
    pub host: String,
    pub port: u16,
    pub user: String,
    pub danger_level: DangerLevel,
    pub group: Option<String>,
    pub tags: Vec<String>,
    pub note: Option<String>,
    pub initial_send: Option<String>,
    pub client_overrides: Option<ClientOverrides>,
}

/// The identifier chosen for an explicit id: the lower-cased text if it validates.
pub open spec fn explicit_id_result(raw: Seq<char>) -> Result<Seq<char>, IdError> {
    let id = lowercased(raw);
    match validate_id_spec(id) {
        Ok(_) => Ok(id),
        Err(e) => Err(e),
    }
}

/// The common contract of the `normalize_id` methods of new records.
pub open spec fn normalized_id_ok(explicit: Option<String>, prefix: Seq<char>, r: Result<String, CoreError>) -> bool {
    match explicit {
        Some(raw) => match explicit_id_result(raw@) {
            Ok(id) => r matches Ok(s) && s@ == id,
            Err(e) => r == Err::<String, CoreError>(CoreError::InvalidId(e)),
        },
        None => r matches Ok(s) && starts_with(s@, prefix) && validate_id_spec(s@) == Ok::<
            (),
            IdError,
        >(()),
    }
}

/// Lower-cases an explicit id and validates it, or generates one with `prefix`.
pub fn normalized_record_id(explicit: &Option<String>, prefix: &str) -> (r: Result<String, CoreError>)
    requires
        crate::id::id_prefix_ok(prefix@),
    ensures
        normalized_id_ok(*explicit, prefix@, r),
{
    let id = match explicit {
        Some(raw) => normalize_id(raw.as_str()),
        None => generate_id(prefix),
    };
    match validate_id(id.as_str()) {
        Ok(()) => Ok(id),
        Err(e) => Err(CoreError::InvalidId(e)),
    }
}

impl NewProfile {
    /// The id the profile will be stored under.
    pub fn normalize_id(&self) -> (r: Result<String, CoreError>)
        ensures
            normalized_id_ok(self.profile_id, "p_"@, r),
    {
        proof {
            reveal_strlit("p_");
        }
        normalized_record_id(&self.profile_id, "p_")
    }
}

} // verus!
