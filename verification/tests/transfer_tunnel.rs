use tdcore::doctor::ClientKind;
use tdcore::error::CoreError;
use tdcore::profile::{DangerLevel, Profile, ProfileType};
use tdcore::transfer::{
    build_ftp_args, build_ftp_batch, build_scp_args, build_sftp_args, build_sftp_batch,
    ensure_insecure_allowed, quote_sftp_arg, transfer_command, transfer_result, xfer_log_entry, xfer_meta,
    xfer_outcome, TransferDirection, TransferOutcome, TransferVia,
};
use tdcore::ssh::MetaValue;
use tdcore::tunnel::{
    normalize_dest, normalize_listen, parse_port, prepare_forward, require_forwards, split_host_port,
    tunnel_ssh_args, Forward, ForwardKind, NewForward,
};

fn profile() -> Profile {
    Profile {
        profile_id: "p_web".to_string(),
        name: "web".to_string(),
        profile_type: ProfileType::Ssh,
        host: "example.com".to_string(),
        port: 2222,
        user: "alice".to_string(),
        danger_level: DangerLevel::Normal,
        group: None,
        tags: vec![],
        note: None,
        initial_send: None,
        client_overrides: None,
        created_at: 0,
        updated_at: 0,
        last_used_at: None,
    }
}

fn forward(kind: ForwardKind, listen: &str, dest: Option<&str>) -> NewForward {
    NewForward {
        profile_id: "p_forward".to_string(),
        name: "web".to_string(),
        kind,
        listen: listen.to_string(),
        dest: dest.map(|d| d.to_string()),
    }
}

#[test]
fn normalizes_listen_port_only() {
    let (listen, dest) =
        prepare_forward(&forward(ForwardKind::Local, "8080", Some("example.com:80")), false)
            .unwrap();
    assert_eq!(listen, "127.0.0.1:8080");
    assert_eq!(dest, Some("example.com:80".to_string()));
}

#[test]
fn rejects_dest_without_host() {
    let err = prepare_forward(&forward(ForwardKind::Local, "127.0.0.1:8080", Some(":80")), false)
        .unwrap_err();
    assert!(matches!(err, CoreError::InvalidSetting(_)));
}

#[test]
fn dynamic_forward_omits_dest() {
    let (_, dest) =
        prepare_forward(&forward(ForwardKind::Dynamic, "127.0.0.1:1080", None), false).unwrap();
    assert!(dest.is_none());
}

#[test]
fn forward_names_are_required_and_unique() {
    let mut f = forward(ForwardKind::Local, "8080", Some("h:1"));
    assert_eq!(
        prepare_forward(&f, true).unwrap_err(),
        CoreError::Conflict("forward name already exists: web".to_string())
    );
    f.name = "  ".to_string();
    assert_eq!(
        prepare_forward(&f, false).unwrap_err(),
        CoreError::InvalidSetting("forward name is required".to_string())
    );
}

#[test]
fn ports_and_host_ports_are_parsed() {
    assert_eq!(parse_port(" 80 ").unwrap(), 80);
    assert_eq!(parse_port("+443").unwrap(), 443);
    assert_eq!(
        parse_port("65536").unwrap_err(),
        CoreError::InvalidSetting("invalid port: 65536".to_string())
    );
    assert_eq!(split_host_port("[::1]:22").unwrap(), ("[::1]".to_string(), 22));
    assert_eq!(
        split_host_port("nohost").unwrap_err(),
        CoreError::InvalidSetting("invalid host:port: nohost".to_string())
    );
    assert_eq!(normalize_listen("0.0.0.0: 9000").unwrap(), "0.0.0.0:9000");
    assert_eq!(
        normalize_listen("").unwrap_err(),
        CoreError::InvalidSetting("invalid port: ".to_string())
    );
    assert_eq!(
        normalize_dest(ForwardKind::Dynamic, Some("h:1".to_string())).unwrap_err(),
        CoreError::InvalidSetting("dynamic forward cannot have a destination".to_string())
    );
    assert_eq!(
        normalize_dest(ForwardKind::Remote, Some("  ".to_string())).unwrap_err(),
        CoreError::InvalidSetting("forward dest is required".to_string())
    );
}

#[test]
fn forward_kinds_round_trip_and_give_flags() {
    for kind in [ForwardKind::Local, ForwardKind::Remote, ForwardKind::Dynamic] {
        assert_eq!(ForwardKind::from_str(kind.as_str()).unwrap(), kind);
    }
    assert_eq!(ForwardKind::Dynamic.as_flag(), "-D");
}

#[test]
fn scp_args_put_the_remote_operand_by_direction() {
    let p = profile();
    assert_eq!(
        build_scp_args(&p, TransferDirection::Push, "./a.txt", "/tmp/a.txt"),
        vec!["-P", "2222", "./a.txt", "alice@example.com:/tmp/a.txt"]
    );
    assert_eq!(
        build_scp_args(&p, TransferDirection::Pull, "./a.txt", "/tmp/a.txt"),
        vec!["-P", "2222", "alice@example.com:/tmp/a.txt", "./a.txt"]
    );
}

#[test]
fn sftp_batch_quotes_operands() {
    assert_eq!(quote_sftp_arg(r#"a "b"\c"#), r#""a \"b\"\\c""#);
    assert_eq!(
        build_sftp_batch(TransferDirection::Push, "local file", "/r"),
        "put \"local file\" \"/r\"\nquit\n"
    );
    assert_eq!(
        build_sftp_args(&profile(), "/tmp/batch.txt"),
        vec!["-P", "2222", "-b", "/tmp/batch.txt", "alice@example.com"]
    );
}

#[test]
fn ftp_batch_logs_in_then_transfers() {
    let p = profile();
    assert_eq!(
        build_ftp_batch(&p, "pw", TransferDirection::Pull, "l", "r"),
        "user \"alice\" \"pw\"\nbinary\nget \"r\" \"l\"\nquit\n"
    );
    assert_eq!(build_ftp_args(&p), vec!["-i", "-n", "-v", "example.com", "2222"]);
}

#[test]
fn insecure_transfers_need_both_approvals() {
    assert!(ensure_insecure_allowed(TransferVia::Ftp, true, false).is_err());
    assert!(ensure_insecure_allowed(TransferVia::Ftp, false, true).is_err());
    assert!(ensure_insecure_allowed(TransferVia::Ftp, true, true).is_ok());
    assert!(ensure_insecure_allowed(TransferVia::Scp, false, false).is_ok());
}

#[test]
fn transfer_clients_parse_in_any_case() {
    assert_eq!(TransferVia::from_str("SFTP").unwrap(), TransferVia::Sftp);
    assert_eq!(
        TransferVia::from_str("rsync").unwrap_err(),
        CoreError::InvalidCommandSpec("invalid transfer client: rsync".to_string())
    );
    assert_eq!(TransferVia::Ftp.client_kind(), ClientKind::Ftp);
    assert!(TransferVia::Ftp.is_insecure());
}

#[test]
fn transfer_command_puts_auth_args_first_except_for_ftp() {
    let p = profile();
    let auth = vec!["-o".to_string(), "IdentityAgent=none".to_string()];
    let scp = transfer_command(&p, TransferDirection::Push, "a", "b", TransferVia::Scp, &auth, "/t", "");
    assert_eq!(scp.args[..2], auth[..]);
    assert!(scp.batch.is_none());
    let ftp = transfer_command(&p, TransferDirection::Push, "a", "b", TransferVia::Ftp, &auth, "/t", "pw");
    assert_eq!(ftp.args[0], "-i");
    assert!(ftp.batch_on_stdin);
}

#[test]
fn failed_transfer_names_operation_and_exit_code() {
    let outcome = TransferOutcome {
        ok: false,
        exit_code: -2,
        duration_ms: 5,
        client_used: "scp".to_string(),
        insecure: false,
    };
    assert_eq!(transfer_result("push", &outcome).unwrap_err(), "push failed with exit code -2");
}

fn stored_forward(name: &str, kind: ForwardKind, listen: &str, dest: Option<&str>) -> Forward {
    Forward {
        id: 1,
        profile_id: "p1".into(),
        name: name.into(),
        kind,
        listen: listen.into(),
        dest: dest.map(|d| d.to_string()),
    }
}

#[test]
fn tunnel_args_list_each_forward_then_the_target() {
    let forwards = vec![
        stored_forward("web", ForwardKind::Local, "127.0.0.1:8080", Some("10.0.0.5:80")),
        stored_forward("socks", ForwardKind::Dynamic, "1080", None),
        stored_forward("back", ForwardKind::Remote, "9000", Some("localhost:22")),
    ];
    let auth = vec!["-o".to_string(), "PreferredAuthentications=publickey".to_string()];
    let args = tunnel_ssh_args(2222, &auth, &forwards, "admin", "db.example").unwrap();
    assert_eq!(
        args,
        vec![
            "-N", "-p", "2222", "-o", "PreferredAuthentications=publickey", "-L", "127.0.0.1:8080:10.0.0.5:80",
            "-D", "1080", "-R", "9000:localhost:22", "admin@db.example"
        ]
    );
}

#[test]
fn tunnel_args_refuse_a_forward_without_destination() {
    let forwards = vec![
        stored_forward("ok", ForwardKind::Dynamic, "1080", None),
        stored_forward("broken", ForwardKind::Local, "8080", None),
        stored_forward("later", ForwardKind::Remote, "9000", None),
    ];
    assert_eq!(
        tunnel_ssh_args(22, &Vec::new(), &forwards, "u", "h"),
        Err("forward broken missing destination".to_string())
    );
}

#[test]
fn tunnel_needs_a_forward() {
    assert_eq!(require_forwards(0), Err("tunnel start requires at least one --forward".to_string()));
    assert_eq!(require_forwards(2), Ok(()));
}

fn leg(ok: bool, exit_code: i32, client: &str) -> TransferOutcome {
    TransferOutcome { ok, exit_code, duration_ms: 5, client_used: client.into(), insecure: false }
}

fn meta_value<'a>(meta: &'a tdcore::ssh::MetaObject, key: &str) -> Option<&'a tdcore::ssh::MetaValue> {
    meta.entries.iter().find(|(k, _)| k == key).map(|(_, v)| v)
}

#[test]
fn xfer_ends_with_the_failing_pull_or_the_push() {
    let pull_failed = leg(false, 3, "/usr/bin/scp");
    assert_eq!(xfer_outcome(&pull_failed, None), (false, 3));
    let pull_ok = leg(true, 0, "/usr/bin/scp");
    let push_failed = leg(false, 7, "/usr/bin/scp");
    assert_eq!(xfer_outcome(&pull_ok, Some(&push_failed)), (false, 7));
    assert_eq!(xfer_outcome(&pull_ok, Some(&pull_ok)), (true, 0));
}

#[test]
fn xfer_metadata_names_both_legs() {
    let pull = leg(false, 3, "/usr/bin/scp");
    let meta = xfer_meta(TransferVia::Scp, "src", "dst", "/a", "/b", &pull, None);
    assert_eq!(meta_value(&meta, "via"), Some(&MetaValue::Text("scp".into())));
    assert_eq!(meta_value(&meta, "insecure"), Some(&MetaValue::Flag(false)));
    assert_eq!(meta_value(&meta, "pull_exit_code"), Some(&MetaValue::Number(3)));
    assert_eq!(meta_value(&meta, "push_exit_code"), Some(&MetaValue::Json("null".into())));
    assert_eq!(meta_value(&meta, "push_client"), Some(&MetaValue::Json("null".into())));
    assert_eq!(meta_value(&meta, "pull_client"), Some(&MetaValue::Text("/usr/bin/scp".into())));
    let entry = xfer_log_entry(false, 3, 12, meta.clone());
    assert_eq!(entry.op, "xfer");
    assert_eq!(entry.profile_id, None);
    assert_eq!(entry.exit_code, Some(3));
    assert_eq!(entry.duration_ms, Some(12));
}
