use tdcore::profile::DangerLevel;
use tdcore::ssh::{
    assemble_ssh_invocation, build_ssh_auth_args, default_auth_order, format_auth_order, format_ssh_invocation, normalize_auth_order,
    parse_auth_order_setting, safe_ssh_metadata, MetaValue, SshAuthAvailability, SshAuthMethod,
    SshAuthContext, SshBuildError, SshInvocationMode, SshTarget,
};

fn sample_target() -> SshTarget {
    SshTarget {
        profile_id: "p_test".to_string(),
        name: "Test Profile".to_string(),
        user: "alice".to_string(),
        host: "example.com".to_string(),
        port: 22,
        danger_level: DangerLevel::Normal,
    }
}

fn lookup<'a>(entries: &'a [(String, MetaValue)], key: &str) -> Option<&'a MetaValue> {
    entries.iter().find(|(k, _)| k == key).map(|(_, v)| v)
}

#[test]
fn invalid_auth_order_is_rejected() {
    let err = parse_auth_order_setting("agent,agent").unwrap_err();
    assert!(matches!(err, SshBuildError::InvalidAuthOrder(_)));
}

#[test]
fn safe_metadata_excludes_secret_material() {
    let target = sample_target();
    let cli = safe_ssh_metadata(&target, "cli", SshInvocationMode::Interactive, None).entries();
    let tui = safe_ssh_metadata(
        &target,
        "tui",
        SshInvocationMode::Interactive,
        Some("launch failed"),
    )
    .entries();

    assert_eq!(lookup(&cli, "source"), Some(&MetaValue::Text("cli".to_string())));
    assert_eq!(lookup(&tui, "source"), Some(&MetaValue::Text("tui".to_string())));
    assert_eq!(
        lookup(&tui, "launch_error"),
        Some(&MetaValue::Text("launch failed".to_string()))
    );
    for meta in [cli, tui] {
        for key in ["password", "secret", "token", "auth_args", "command", "private_key_path"] {
            assert!(lookup(&meta, key).is_none());
        }
    }
}

#[test]
fn auth_args_are_built_from_order_without_exposing_paths() {
    let args = build_ssh_auth_args(
        &vec![SshAuthMethod::Agent, SshAuthMethod::Password],
        &SshAuthAvailability {
            agent: false,
            keys: false,
        },
    );

    assert_eq!(args[0], "-o");
    assert_eq!(
        args[1],
        "PreferredAuthentications=publickey,keyboard-interactive,password"
    );
    assert_eq!(args[2], "-o");
    assert_eq!(args[3], "IdentityAgent=none");
}

#[test]
fn auth_order_setting_round_trips_through_its_text() {
    let order = vec![SshAuthMethod::Password, SshAuthMethod::Keys];
    let text = format_auth_order(&order);
    assert_eq!(text, "password,keys");
    let parsed = parse_auth_order_setting(&text).unwrap();
    assert_eq!(parsed, order);
}

#[test]
fn auth_order_setting_trims_and_skips_blank_items() {
    let parsed = parse_auth_order_setting(" keys , ,agent ").unwrap();
    assert_eq!(parsed, vec![SshAuthMethod::Keys, SshAuthMethod::Agent]);
}

#[test]
fn auth_order_setting_errors_name_the_problem() {
    match parse_auth_order_setting("   ") {
        Err(SshBuildError::InvalidAuthOrder(m)) => assert_eq!(m, "auth order setting is empty"),
        other => panic!("unexpected {other:?}"),
    }
    match parse_auth_order_setting("agent,bogus") {
        Err(SshBuildError::InvalidAuthOrder(m)) => assert_eq!(m, "unknown auth method 'bogus'"),
        other => panic!("unexpected {other:?}"),
    }
}

#[test]
fn duplicate_methods_are_refused_by_normalisation() {
    assert!(normalize_auth_order(vec![SshAuthMethod::Keys, SshAuthMethod::Keys]).is_err());
    assert!(normalize_auth_order(vec![]).is_err());
    assert_eq!(
        normalize_auth_order(vec![SshAuthMethod::Keys]).unwrap(),
        vec![SshAuthMethod::Keys]
    );
}

#[test]
fn default_order_is_agent_keys_password() {
    assert_eq!(
        default_auth_order(),
        vec![SshAuthMethod::Agent, SshAuthMethod::Keys, SshAuthMethod::Password]
    );
}

fn ssh_profile(profile_id: &str, profile_type: tdcore::profile::ProfileType) -> tdcore::profile::Profile {
    tdcore::profile::Profile {
        profile_id: profile_id.into(),
        name: "Test".into(),
        profile_type,
        host: "example.com".into(),
        port: 2222,
        user: "alice".into(),
        danger_level: DangerLevel::Normal,
        group: None,
        tags: Vec::new(),
        note: None,
        initial_send: None,
        client_overrides: None,
        created_at: 0,
        updated_at: 0,
        last_used_at: None,
    }
}

fn no_auth() -> SshAuthContext {
    SshAuthContext { order: vec![], args: vec![], hint: None, warn_password_fallback: false }
}

#[test]
fn builds_ssh_invocation_from_profile() {
    let profile = ssh_profile("p_test", tdcore::profile::ProfileType::Ssh);
    let invocation = assemble_ssh_invocation(
        &profile,
        "/tmp/fake-ssh".into(),
        no_auth(),
        "tui",
        SshInvocationMode::Interactive,
    )
    .unwrap();
    assert_eq!(invocation.client_path, "/tmp/fake-ssh");
    assert_eq!(invocation.target.profile_id, "p_test");
    assert_eq!(invocation.args[0], "-p");
    assert_eq!(invocation.args[1], "2222");
    assert_eq!(invocation.args.last().unwrap(), "alice@example.com");
    let entries = invocation.safe_metadata.entries();
    assert_eq!(lookup(&entries, "source"), Some(&MetaValue::Text("tui".into())));
    assert_eq!(lookup(&entries, "mode"), Some(&MetaValue::Text("interactive".into())));
}

#[test]
fn rejects_non_ssh_profile() {
    let profile = ssh_profile("p_telnet", tdcore::profile::ProfileType::Telnet);
    let err = assemble_ssh_invocation(&profile, "/tmp/fake-ssh".into(), no_auth(), "cli", SshInvocationMode::Interactive)
        .unwrap_err();
    assert!(matches!(err, SshBuildError::UnsupportedProfileType { .. }));
}

#[test]
fn invocation_text_lists_client_port_and_auth() {
    assert_eq!(
        format_ssh_invocation("/usr/bin/ssh", 22, &vec!["-o".into(), "BatchMode=yes".into()]),
        "/usr/bin/ssh -p 22 -o BatchMode=yes"
    );
    assert_eq!(format_ssh_invocation("ssh", 2200, &vec![]), "ssh -p 2200");
}

#[test]
fn conpty_test_invocation_rejects_non_ssh_profile() {
    let profile = ssh_profile("p_telnet", tdcore::profile::ProfileType::Telnet);
    let err = assemble_ssh_invocation(&profile, "/tmp/fake-ssh".into(), no_auth(), "cli-conpty-test", SshInvocationMode::Interactive)
        .unwrap_err();
    assert!(err.to_text().contains("SSH requires an SSH profile"));
    assert_eq!(err.to_text(), "profile 'p_telnet' is telnet; SSH requires an SSH profile");
}

#[test]
fn build_errors_have_their_messages() {
    assert_eq!(SshBuildError::ProfileNotFound("x".into()).to_text(), "profile not found: x");
    assert_eq!(
        SshBuildError::ClientNotFound { kind: tdcore::doctor::ClientKind::Scp }.to_text(),
        "scp client not found via overrides or PATH"
    );
    assert_eq!(SshBuildError::InvalidAuthOrder("bad".into()).to_text(), "invalid ssh auth order: bad");
}
