use tdcore::agent::{
    agent_socket, contains_no_identities, extract_keys, list_without_socket, parse_list_output,
    status_from,
};
use tdcore::doctor::{
    agent_warnings, identity_path, pathext, resolve_client_with_overrides,
    resolve_client_with_source, scan_ssh_config_text, ClientKind, ClientOverrides, ClientSource,
    IdentityPath,
};
use tdcore::error::CoreError;
use tdcore::import_export::{
    ensure_no_id_conflicts, plan_import, resolve_name, secret_aad, ConflictStrategy,
    ExportConfigSet, ExportDocument, ExportSecret,
};

fn strings(items: &[&str]) -> Vec<String> {
    items.iter().map(|s| s.to_string()).collect()
}

#[test]
fn id_conflicts_name_the_first_problem() {
    assert!(ensure_no_id_conflicts(&strings(&["a"]), &strings(&["b", "c"])).is_ok());
    assert_eq!(
        ensure_no_id_conflicts(&strings(&[]), &strings(&["b", "b"])).unwrap_err(),
        CoreError::Conflict("import id appears multiple times: b".to_string())
    );
    assert_eq!(
        ensure_no_id_conflicts(&strings(&["c"]), &strings(&["b", "c"])).unwrap_err(),
        CoreError::Conflict("import id already exists: c".to_string())
    );
}

#[test]
fn names_are_renamed_or_rejected() {
    let mut names = strings(&["web", "web-imported"]);
    let renamed = resolve_name(&mut names, "web".to_string(), ConflictStrategy::Rename, "profile")
        .unwrap();
    assert_eq!(renamed, "web-imported-2");
    assert!(names.contains(&"web-imported-2".to_string()));
    let fresh = resolve_name(&mut names, "db".to_string(), ConflictStrategy::Reject, "profile").unwrap();
    assert_eq!(fresh, "db");
    assert_eq!(
        resolve_name(&mut names, "db".to_string(), ConflictStrategy::Reject, "profile").unwrap_err(),
        CoreError::Conflict("profile name already exists: db".to_string())
    );
}

fn empty_doc() -> ExportDocument {
    ExportDocument {
        version: 1,
        profiles: vec![],
        cmdsets: vec![],
        parsers: vec![],
        configs: vec![],
        secrets: vec![],
    }
}

#[test]
fn import_plans_check_version_master_and_hooks() {
    let none: Vec<String> = vec![];
    let mut doc = empty_doc();
    doc.version = 2;
    let err = plan_import(&doc, ConflictStrategy::Reject, false, &none, &none, &none, &none, &none, vec![], vec![], vec![]).unwrap_err();
    assert_eq!(err, CoreError::Import("unsupported export version 2".to_string()));

    let mut doc = empty_doc();
    doc.secrets.push(ExportSecret {
        secret_id: "s_1".to_string(),
        kind: "password".to_string(),
        label: "l".to_string(),
        created_at: 0,
        updated_at: 0,
        value: Some("pw".to_string()),
    });
    let err = plan_import(&doc, ConflictStrategy::Reject, false, &none, &none, &none, &none, &none, vec![], vec![], vec![]).unwrap_err();
    assert_eq!(err, CoreError::Import("master key required to import secrets".to_string()));
    let plan = plan_import(&doc, ConflictStrategy::Reject, true, &none, &none, &none, &none, &none, vec![], vec![], vec![]).unwrap();
    assert_eq!(plan.report.secrets, 1);
    assert_eq!(plan.report.secrets_skipped, 0);

    let mut doc = empty_doc();
    doc.configs.push(ExportConfigSet {
        config_id: "cfg_x".to_string(),
        name: "x".to_string(),
        hooks_cmdset_id: Some("c_missing".to_string()),
        files: vec![],
    });
    let err = plan_import(&doc, ConflictStrategy::Rename, false, &none, &none, &none, &none, &none, vec![], vec![], strings(&["x"])).unwrap_err();
    assert_eq!(
        err,
        CoreError::Import("configset cfg_x references missing cmdset c_missing".to_string())
    );
    let plan = plan_import(&doc, ConflictStrategy::Rename, false, &none, &strings(&["c_missing"]), &none, &none, &none, vec![], vec![], strings(&["x"])).unwrap();
    assert_eq!(plan.config_names, strings(&["x-imported"]));
    assert_eq!(plan.report.configs, 1);
}

#[test]
fn secret_aad_binds_id_and_kind() {
    assert_eq!(secret_aad("s_1", "password"), "s_1:password");
}

#[test]
fn agent_listing_is_read_from_output() {
    assert_eq!(extract_keys(" key one \n\n key two\r\n"), strings(&["key one", "key two"]));
    assert!(contains_no_identities("The agent has NO identities."));
    let empty = parse_list_output("The agent has no identities.\n", "", false, "exit status: 1");
    assert!(empty.keys.is_empty());
    assert_eq!(empty.error, None);
    assert_eq!(empty.raw, "The agent has no identities.");
    let failed = parse_list_output("", "", false, "exit status: 2");
    assert_eq!(failed.error.as_deref(), Some("ssh-add -l failed with status exit status: 2"));
    let ok = parse_list_output("256 SHA256:abc me (ED25519)\n", "", true, "exit status: 0");
    assert_eq!(ok.keys.len(), 1);
    let status = status_from(Some("/tmp/agent".to_string()), ok);
    assert_eq!(status.key_count, Some(1));
    assert_eq!(agent_socket(Some(String::new())), None);
    assert_eq!(
        list_without_socket().error.as_deref(),
        Some("SSH_AUTH_SOCK is not set; ssh-agent may be unavailable.")
    );
    let warnings = agent_warnings(&status_from(None, list_without_socket()));
    assert_eq!(warnings[0].code, "ssh_agent_missing");
}

#[test]
fn override_precedence() {
    let profile_overrides = ClientOverrides {
        ssh: Some("/opt/ssh-custom".to_string()),
        ..Default::default()
    };
    let resolved = resolve_client_with_source(
        ClientKind::Ssh,
        Some(&profile_overrides),
        None,
        true,
        false,
        Some("/usr/bin/ssh".to_string()),
    );
    assert_eq!(resolved.path, Some("/opt/ssh-custom".to_string()));
    assert_eq!(resolved.source, ClientSource::ProfileOverride);
}

#[test]
fn global_override_is_used_and_reported() {
    let global = ClientOverrides {
        ssh: Some("/opt/ssh-global".to_string()),
        ..Default::default()
    };
    let resolved = resolve_client_with_source(ClientKind::Ssh, None, Some(&global), false, true, None);
    assert_eq!(resolved.path, Some("/opt/ssh-global".to_string()));
    assert_eq!(resolved.source, ClientSource::GlobalOverride);
}

#[test]
fn empty_path_reports_missing() {
    for kind in [ClientKind::Ssh, ClientKind::Scp, ClientKind::Sftp, ClientKind::Ftp, ClientKind::Telnet] {
        let resolved = resolve_client_with_source(kind, None, None, false, false, None);
        assert_eq!(resolved.source, ClientSource::Missing);
        assert_eq!(resolve_client_with_overrides(kind, None, None, false, false, None), None);
    }
}

#[test]
fn pathext_has_defaults_on_windows() {
    let extensions = pathext(None, true);
    assert!(!extensions.is_empty());
    assert!(extensions.iter().any(|e| e.eq_ignore_ascii_case(".exe")));
    assert!(pathext(Some(".EXE;.BAT"), false).is_empty());
    assert_eq!(pathext(Some(".EXE;;bat; "), true), strings(&[".EXE", ".bat", "."]));
}

#[test]
fn ssh_config_scan_reports_unsafe_settings() {
    let text = "Host *\n  StrictHostKeyChecking no # risky\n  UserKnownHostsFile /dev/null\n  IdentityFile ~/.ssh/id_test\n# IdentityFile ~/.ssh/commented\n";
    let scan = scan_ssh_config_text("/home/a/.ssh/config", text);
    assert_eq!(scan.warnings.len(), 2);
    assert_eq!(scan.warnings[0].code, "ssh_strict_host_key_unsafe");
    assert_eq!(
        scan.warnings[0].message,
        "SSH config /home/a/.ssh/config sets StrictHostKeyChecking=no (unsafe)."
    );
    assert_eq!(scan.warnings[1].code, "ssh_known_hosts_disabled");
    assert_eq!(scan.identity_files, strings(&["~/.ssh/id_test"]));
    assert_eq!(identity_path("\"~/.ssh/id\""), IdentityPath::UnderHome(".ssh/id".to_string()));
    assert_eq!(identity_path("~/.ssh/%h"), IdentityPath::Skip);
    assert_eq!(identity_path("/etc/key"), IdentityPath::Plain("/etc/key".to_string()));
}
