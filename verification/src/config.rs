use vstd::prelude::*;

use crate::text::{chars_of, owned, trim, trim_chars};

verus! {

/// The colour theme of the user interface.
#[derive(Debug, Clone, Copy, PartialEq, Eq, Structural)]
pub enum ThemePreference {
    System,
    Light,
    Dark,
}

impl ThemePreference {
    /// The theme used when none is configured: follow the system.
    pub fn default_mode() -> (r: Self)
        ensures
            r == ThemePreference::System,
    {
        ThemePreference::System
    }
}

/// Where secrets are kept.
#[derive(Debug, Clone, Copy, PartialEq, Eq, Structural)]
pub enum SecretBackend {
    FileKey,
    WindowsCredentialManager,
    WindowsDpapi,
}

/// How secrets are stored, and under which credential name.
#[derive(Debug, Clone, PartialEq, Eq)]
pub struct SecretsConfig {
    pub backend: SecretBackend,
    pub credential_target: String,
}

/// The credential name used when none is configured.
pub open spec fn default_credential_target() -> Seq<char> {
    "TeraDock/ttlaunch"@
}

impl SecretsConfig {
    /// The credential name used when none is configured.
    pub fn default_target() -> (r: String)
        ensures
            r@ == default_credential_target(),
    {
        let r = owned("TeraDock/ttlaunch");
        proof {
            reveal_strlit("TeraDock/ttlaunch");
        }
        r
    }

    /// The backend used when none is configured: a key file.
    pub fn default_backend() -> (r: SecretBackend)
        ensures
            r == SecretBackend::FileKey,
    {
        SecretBackend::FileKey
    }

    /// The configuration with a blank credential name replaced by the default one.
    pub fn normalized(self) -> (r: Self)
        ensures
            r.backend == self.backend,
            trim(self.credential_target@).len() == 0 ==> r.credential_target@ == default_credential_target(),
            trim(self.credential_target@).len() > 0 ==> r.credential_target@ == self.credential_target@,
    {
        if trim_chars(&chars_of(self.credential_target.as_str())).len() == 0 {
            SecretsConfig { backend: self.backend, credential_target: SecretsConfig::default_target() }
        } else {
            self
        }
    }
}

impl Default for SecretsConfig {
    fn default() -> (r: Self)
        ensures
            r.backend == SecretBackend::FileKey,
            r.credential_target@ == default_credential_target(),
    {
        SecretsConfig { backend: SecretsConfig::default_backend(), credential_target: SecretsConfig::default_target() }
    }
}

/// The font family used when none is configured.
pub open spec fn default_font_family() -> Seq<char> {
    "proportional"@
}

/// A configured font family, a blank one replaced by the default.
pub fn normalized_font_family(family: &str) -> (r: String)
    ensures
        trim(family@).len() == 0 ==> r@ == default_font_family(),
        trim(family@).len() > 0 ==> r@ == family@,
{
    if trim_chars(&chars_of(family)).len() == 0 {
        let r = owned("proportional");
        proof {
            reveal_strlit("proportional");
        }
        r
    } else {
        owned(family)
    }
}


/// The directory the application keeps its files in: the override where one is set, else
/// the `config` directory under the working directory where it exists, else the platform's
/// configuration directory where one is known, else the working directory itself.
pub fn choose_base_dir(
    home_override: Option<String>,
    existing_repo_config: Option<String>,
    platform_config_dir: Option<String>,
    working_dir: String,
) -> (r: String)
    ensures
        r@ == match (home_override, existing_repo_config, platform_config_dir) {
            (Some(home), _, _) => home@,
            (None, Some(repo), _) => repo@,
            (None, None, Some(platform)) => platform@,
            (None, None, None) => working_dir@,
        },
{
    match home_override {
        Some(home) => home,
        None => match existing_repo_config {
            Some(repo) => repo,
            None => match platform_config_dir {
                Some(platform) => platform,
                None => working_dir,
            },
        },
    }
}


/// Which way an SSH port forward carries connections.
#[derive(Debug, Clone, Copy, PartialEq, Eq, Structural)]
pub enum ForwardDirection {
    Local,
    Remote,
    Dynamic,
}

/// A port-forwarding rule: the direction, the local address (host optional, port 0 when
/// unset) and the remote host and port (port 0 when unset).
#[derive(Debug, Clone, PartialEq, Eq)]
pub struct SshForwarding {
    pub direction: ForwardDirection,
    pub local_host: Option<String>,
    pub local_port: u16,
    pub remote_host: String,
    pub remote_port: u16,
}

impl Default for SshForwarding {
    /// A local forward with nothing filled in.
    fn default() -> (r: Self)
        ensures
            r.direction == ForwardDirection::Local,
            r.local_host is None,
            r.local_port == 0,
            r.remote_host@.len() == 0,
            r.remote_port == 0,
    {
        SshForwarding {
            direction: ForwardDirection::Local,
            local_host: None,
            local_port: 0,
            remote_host: String::new(),
            remote_port: 0,
        }
    }
}

/// A named forwarding rule kept in the settings for reuse.
#[derive(Debug, Clone, PartialEq, Eq)]
pub struct ForwardingPreset {
    pub name: String,
    pub description: Option<String>,
    pub rule: SshForwarding,
}

impl Default for ForwardingPreset {
    /// The preset named `default`, without description, with an empty local forward.
    fn default() -> (r: Self)
        ensures
            r.name@ == "default"@,
            r.description is None,
            r.rule.direction == ForwardDirection::Local,
            r.rule.local_host is None,
            r.rule.local_port == 0,
            r.rule.remote_host@.len() == 0,
            r.rule.remote_port == 0,
    {
        ForwardingPreset { name: owned("default"), description: None, rule: SshForwarding::default() }
    }
}

} // verus!
