use tdcore::config::{choose_base_dir, ForwardDirection, ForwardingPreset, SshForwarding};
use tdcore::agent::AgentStatus;
use tdcore::config::{normalized_font_family, SecretBackend, SecretsConfig, ThemePreference};
use tdcore::doctor::{
    client_status, doctor_client_kinds, doctor_report, ClientKind, ClientSource, DoctorMessage,
    ResolvedClient,
};
use tdcore::secret::added_secret_metadata;

#[test]
fn config_defaults_and_normalisation() {
    assert_eq!(ThemePreference::default_mode(), ThemePreference::System);
    let d = SecretsConfig::default();
    assert_eq!(d.backend, SecretBackend::FileKey);
    assert_eq!(d.credential_target, "TeraDock/ttlaunch");
    let blank = SecretsConfig { backend: SecretBackend::WindowsDpapi, credential_target: "  ".into() };
    let n = blank.normalized();
    assert_eq!(n.backend, SecretBackend::WindowsDpapi);
    assert_eq!(n.credential_target, "TeraDock/ttlaunch");
    let kept = SecretsConfig { backend: SecretBackend::FileKey, credential_target: "x".into() };
    assert_eq!(kept.clone().normalized(), kept);
    assert_eq!(normalized_font_family(" "), "proportional");
    assert_eq!(normalized_font_family("monospace"), "monospace");
}

#[test]
fn doctor_reports_put_agent_warnings_first() {
    let kinds = doctor_client_kinds();
    assert_eq!(
        kinds,
        vec![ClientKind::Ssh, ClientKind::Scp, ClientKind::Sftp, ClientKind::Ftp, ClientKind::Telnet]
    );
    let status = client_status(
        ClientKind::Sftp,
        ResolvedClient { path: Some("/usr/bin/sftp".into()), source: ClientSource::Path },
    );
    assert_eq!(status.name, "sftp");
    let agent = AgentStatus { auth_sock: None, key_count: None, keys: vec![], error: None };
    let config_warning =
        DoctorMessage { code: "ssh_config_strict_host_key_checking_disabled".into(), message: "m".into() };
    let report = doctor_report(vec![status], agent, vec![config_warning.clone()], vec![]);
    assert_eq!(report.warnings.len(), 2);
    assert_eq!(report.warnings[0].code, "ssh_agent_missing");
    assert_eq!(report.warnings[1].code, config_warning.code);
    assert!(report.errors.is_empty());
}

#[test]
fn added_secrets_are_listed_with_their_time() {
    let m = added_secret_metadata("s_db".into(), "password".into(), "db".into(), 42);
    assert_eq!(m.created_at, 42);
    assert_eq!(m.updated_at, 42);
    assert_eq!(m.label, "db");
}

#[test]
fn base_dir_prefers_override_then_repo_config_then_platform() {
    let s = |x: &str| Some(x.to_string());
    assert_eq!(choose_base_dir(s("/home/o"), s("/w/config"), s("/p"), "/w".into()), "/home/o");
    assert_eq!(choose_base_dir(None, s("/w/config"), s("/p"), "/w".into()), "/w/config");
    assert_eq!(choose_base_dir(None, None, s("/p"), "/w".into()), "/p");
    assert_eq!(choose_base_dir(None, None, None, "/w".into()), "/w");
}

#[test]
fn forwarding_preset_defaults_to_an_empty_local_forward() {
    let p = ForwardingPreset::default();
    assert_eq!(p.name, "default");
    assert_eq!(p.description, None);
    assert_eq!(p.rule.direction, ForwardDirection::Local);
    assert_eq!(p.rule.local_host, None);
    assert_eq!((p.rule.local_port, p.rule.remote_port), (0, 0));
    assert_eq!(p.rule.remote_host, "");
    assert_eq!(p.rule, SshForwarding::default());
}
