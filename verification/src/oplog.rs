use vstd::prelude::*;

use crate::ssh::MetaObject;

verus! {

/// The operation name under which SSH sessions are logged.
pub const SSH_SESSION_OP: &'static str = "ssh_session";

/// One row of the operation log, before it is stored.
#[derive(Debug, Clone)]
pub struct OpLogEntry {
    pub op: String,
    pub profile_id: Option<String>,
    pub client_used: Option<String>,
    pub ok: bool,
    pub exit_code: Option<i32>,
    pub duration_ms: Option<i64>,
    pub meta_json: Option<MetaObject>,
}

/// The latest SSH session of a profile, as listed by the recent-sessions view.
#[derive(Debug, Clone, PartialEq, Eq)]
pub struct RecentSshSession {
    pub profile_id: String,
    pub name: String,
    pub user: String,
    pub host: String,
    pub port: u16,
    pub profile_type: String,
    pub danger_level: String,
    pub last_connected_at: i64,
    pub last_ok: bool,
    pub last_exit_code: Option<i32>,
    pub client_used: Option<String>,
    pub duration_ms: Option<i64>,
}

} // verus!
