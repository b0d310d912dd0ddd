use tdcore::profile::{DangerLevel, Profile, ProfileType};
use tdcore::tester::{
    dns_check, dns_ok, is_network_profile, ssh_batch_args, ssh_check, tcp_check, test_report,
    CheckData, DnsOutcome, SshBatchCommand, SshBatchOutcome, TcpOutcome, TestOptions,
};

fn profile(profile_type: ProfileType) -> Profile {
    Profile {
        profile_id: "p_web".into(),
        name: "Web".into(),
        profile_type,
        host: "web.example".into(),
        port: 22,
        user: "deploy".into(),
        danger_level: DangerLevel::Normal,
        group: None,
        tags: Vec::new(),
        note: None,
        initial_send: None,
        client_overrides: None,
        created_at: 0,
        updated_at: 0,
        last_used_at: None,
    }
}

fn batch(timeout: u64) -> SshBatchCommand {
    SshBatchCommand::new(
        "/usr/bin/ssh".into(),
        "deploy".into(),
        "web.example".into(),
        2222,
        vec!["-o".into(), "PreferredAuthentications=publickey".into()],
        timeout,
    )
}

#[test]
fn dns_results_become_checks() {
    let resolved = DnsOutcome::Resolved(vec!["192.0.2.1:22".into(), "192.0.2.2:22".into()]);
    let c = dns_check(&resolved, 4);
    assert!(c.ok && !c.skipped);
    assert_eq!(c.name, "dns");
    assert_eq!(c.detail.as_deref(), Some("2 address(es) resolved"));
    assert_eq!(
        c.data,
        Some(CheckData::Addresses { addresses: vec!["192.0.2.1:22".into(), "192.0.2.2:22".into()] })
    );
    let failed = dns_check(&DnsOutcome::Failed("no such host".into()), 1);
    assert!(!failed.ok);
    assert_eq!(failed.detail.as_deref(), Some("no such host"));
    assert_eq!(failed.data, None);
    let empty = dns_check(&DnsOutcome::Resolved(vec![]), 1);
    assert!(!empty.ok);
    assert_eq!(empty.detail.as_deref(), Some("no addresses resolved"));
    assert!(dns_ok(&resolved));
    assert!(!dns_ok(&DnsOutcome::Resolved(vec![])));
}

#[test]
fn tcp_checks_follow_dns() {
    let resolved = DnsOutcome::Resolved(vec!["192.0.2.1:22".into()]);
    let c = tcp_check(&resolved, Some(&TcpOutcome::Connected("192.0.2.1:22".into())), 7);
    assert!(c.ok && !c.skipped);
    assert_eq!(c.detail.as_deref(), Some("connected to 192.0.2.1:22"));
    assert_eq!(
        c.data,
        Some(CheckData::Connection {
            addresses: vec!["192.0.2.1:22".into()],
            connected: Some("192.0.2.1:22".into())
        })
    );
    let refused = tcp_check(&resolved, Some(&TcpOutcome::Failed(Some("refused".into()))), 7);
    assert!(!refused.ok && !refused.skipped);
    assert_eq!(refused.detail.as_deref(), Some("refused"));
    let none = tcp_check(&resolved, Some(&TcpOutcome::Failed(None)), 7);
    assert_eq!(none.detail.as_deref(), Some("unable to connect"));
    let skipped = tcp_check(&DnsOutcome::Failed("x".into()), None, 7);
    assert!(!skipped.ok && skipped.skipped);
    assert_eq!(skipped.detail.as_deref(), Some("skipped (dns failed)"));
    assert_eq!(skipped.duration_ms, Some(0));
}

#[test]
fn ssh_batch_runs_without_prompts() {
    assert_eq!(
        ssh_batch_args(&batch(0)),
        vec![
            "-p",
            "2222",
            "-o",
            "PreferredAuthentications=publickey",
            "-o",
            "BatchMode=yes",
            "-o",
            "ConnectTimeout=1",
            "-T",
            "deploy@web.example",
            "exit 0"
        ]
    );
    assert!(ssh_batch_args(&batch(9)).contains(&"ConnectTimeout=9".to_string()));
}

#[test]
fn ssh_checks_report_outcomes_and_skips() {
    let ok = ssh_check(
        true,
        true,
        &batch(5),
        Some(&SshBatchOutcome::Finished { success: true, exit_code: Some(0), stderr: vec![] }),
        9,
    );
    assert!(ok.ok);
    assert_eq!(ok.detail.as_deref(), Some("batch mode auth ok"));
    let denied = ssh_check(
        true,
        true,
        &batch(5),
        Some(&SshBatchOutcome::Finished {
            success: false,
            exit_code: Some(255),
            stderr: b"Permission denied (publickey).\n".to_vec(),
        }),
        9,
    );
    assert!(!denied.ok);
    assert_eq!(denied.exit_code, Some(255));
    assert_eq!(denied.detail.as_deref(), Some("Permission denied (publickey)."));
    let silent = ssh_check(
        true,
        true,
        &batch(5),
        Some(&SshBatchOutcome::Finished { success: false, exit_code: Some(1), stderr: vec![] }),
        9,
    );
    assert_eq!(silent.detail.as_deref(), Some("ssh batch mode failed"));
    let launch = ssh_check(true, true, &batch(5), Some(&SshBatchOutcome::LaunchFailed("not found".into())), 1);
    assert_eq!(launch.detail.as_deref(), Some("failed to execute ssh: not found"));
    let skipped = ssh_check(true, false, &batch(5), None, 9);
    assert!(skipped.skipped);
    assert_eq!(skipped.detail.as_deref(), Some("skipped (tcp failed)"));
    let skipped = ssh_check(false, false, &batch(5), None, 9);
    assert_eq!(skipped.detail.as_deref(), Some("skipped (dns failed)"));
}

#[test]
fn reports_pass_unless_a_check_failed() {
    let dns = DnsOutcome::Failed("no such host".into());
    let checks = vec![dns_check(&dns, 1), tcp_check(&dns, None, 0)];
    let report = test_report(&profile(ProfileType::Ssh), checks, 3);
    assert!(!report.ok);
    assert_eq!(report.profile_type, "ssh");
    assert_eq!(report.ssh_exit_code(), None);
    let resolved = DnsOutcome::Resolved(vec!["192.0.2.1:22".into()]);
    let checks = vec![
        dns_check(&resolved, 1),
        tcp_check(&resolved, Some(&TcpOutcome::Connected("192.0.2.1:22".into())), 1),
        ssh_check(
            true,
            true,
            &batch(5),
            Some(&SshBatchOutcome::Finished { success: true, exit_code: Some(0), stderr: vec![] }),
            1,
        ),
    ];
    let report = test_report(&profile(ProfileType::Ssh), checks, 3);
    assert!(report.ok);
    assert_eq!(report.ssh_exit_code(), Some(0));
    assert!(report.checks.iter().all(|c| !c.is_failed()));
}

#[test]
fn network_profiles_and_default_options() {
    assert!(is_network_profile(&profile(ProfileType::Ssh)));
    assert!(is_network_profile(&profile(ProfileType::Telnet)));
    assert!(!is_network_profile(&profile(ProfileType::Serial)));
    let options = TestOptions::default();
    assert_eq!(options.tcp_timeout_ms, 5000);
    assert!(options.ssh.is_none());
    let with = options.with_ssh(batch(3));
    assert_eq!(with.ssh.unwrap().client_label(), "/usr/bin/ssh");
}
