use vstd::prelude::*;

use crate::conpty_log::{decode_utf8_lossy, lossy_text};
use crate::profile::{profile_type_name, Profile, ProfileType};
use crate::text::{
    concat2, decimal, owned, string_from_chars, strings_view, trim, trim_chars, u64_to_string,
};

verus! {

/// What a check found, beyond its outcome.
#[derive(Debug, Clone, PartialEq, Eq)]
pub enum CheckData {
    /// The addresses the host name resolved to.
    Addresses { addresses: Vec<String> },
    /// The addresses tried and the one connected to, if any.
    Connection { addresses: Vec<String>, connected: Option<String> },
    /// The SSH client used and its trimmed standard error when it failed.
    SshClient { client: String, stderr: Option<String> },
}

/// One check of a profile test.
#[derive(Debug, Clone, PartialEq, Eq)]
pub struct TestCheck {
    pub name: String,
    pub ok: bool,
    pub skipped: bool,
    pub duration_ms: Option<i64>,
    pub detail: Option<String>,
    pub data: Option<CheckData>,
    pub exit_code: Option<i32>,
}

impl TestCheck {
    /// A check failed when it ran and did not succeed.
    pub fn is_failed(&self) -> (r: bool)
        ensures
            r == (!self.ok && !self.skipped),
    {
        !self.ok && !self.skipped
    }
}

/// The result of testing a profile.
#[derive(Debug, Clone, PartialEq, Eq)]
pub struct TestReport {
    pub profile_id: String,
    pub profile_type: String,
    pub host: String,
    pub port: u16,
    pub duration_ms: i64,
    pub ok: bool,
    pub checks: Vec<TestCheck>,
}

/// The exit code of the first check named `ssh`, if it has one.
pub open spec fn ssh_exit_code_spec(checks: Seq<TestCheck>) -> Option<i32>
    decreases checks.len(),
{
    if checks.len() == 0 {
        None
    } else if checks[0].name@ == "ssh"@ {
        checks[0].exit_code
    } else {
        ssh_exit_code_spec(checks.drop_first())
    }
}

impl TestReport {
    /// The exit code of the SSH check, if it ran and reported one.
    pub fn ssh_exit_code(&self) -> (r: Option<i32>)
        ensures
            r == ssh_exit_code_spec(self.checks@),
    {
        proof {
            reveal_strlit("ssh");
        }
        let mut i: usize = 0;
        assert(self.checks@.skip(0) =~= self.checks@);
        while i < self.checks.len()
            invariant
                i <= self.checks@.len(),
                ssh_exit_code_spec(self.checks@) == ssh_exit_code_spec(self.checks@.skip(i as int)),
            decreases self.checks.len() - i,
        {
            assert(self.checks@.skip(i as int)[0] == self.checks@[i as int]);
            assert(self.checks@.skip(i as int).drop_first() =~= self.checks@.skip(i + 1));
            if crate::text::str_eq(self.checks[i].name.as_str(), "ssh") {
                return self.checks[i].exit_code;
            }
            i = i + 1;
        }
        None
    }
}

/// How the SSH check runs the client.
#[derive(Debug, Clone, PartialEq, Eq)]
pub struct SshBatchCommand {
    pub path: String,
    pub user: String,
    pub host: String,
    pub port: u16,
    pub auth_args: Vec<String>,
    pub connect_timeout_secs: u64,
}

impl SshBatchCommand {
    /// A batch command from its parts.
    pub fn new(
        path: String,
        user: String,
        host: String,
        port: u16,
        auth_args: Vec<String>,
        connect_timeout_secs: u64,
    ) -> (r: Self)
        ensures
            r == (SshBatchCommand { path, user, host, port, auth_args, connect_timeout_secs }),
    {
        SshBatchCommand { path, user, host, port, auth_args, connect_timeout_secs }
    }

    /// The client as reports name it.
    pub fn client_label(&self) -> (r: String)
        ensures
            r@ == self.path@,
    {
        self.path.clone()
    }
}

/// What a profile test checks and how long it waits.
#[derive(Debug, Clone, PartialEq, Eq)]
pub struct TestOptions {
    pub tcp_timeout_ms: u64,
    pub ssh: Option<SshBatchCommand>,
}

impl Default for TestOptions {
    fn default() -> (r: Self)
        ensures
            r.tcp_timeout_ms == 5000,
            r.ssh is None,
    {
        TestOptions { tcp_timeout_ms: 5000, ssh: None }
    }
}

impl TestOptions {
    /// The options with the SSH check added.
    pub fn with_ssh(self, ssh: SshBatchCommand) -> (r: Self)
        ensures
            r.tcp_timeout_ms == self.tcp_timeout_ms,
            r.ssh == Some(ssh),
    {
        TestOptions { tcp_timeout_ms: self.tcp_timeout_ms, ssh: Some(ssh) }
    }
}

/// Whether a profile's host is reachable over the network (SSH or telnet).
pub fn is_network_profile(profile: &Profile) -> (r: bool)
    ensures
        r == (profile.profile_type == ProfileType::Ssh || profile.profile_type == ProfileType::Telnet),
{
    match profile.profile_type {
        ProfileType::Ssh | ProfileType::Telnet => true,
        ProfileType::Serial => false,
    }
}

/// What resolving the host name gave: the addresses as text, or the resolver's error.
#[derive(Debug, Clone, PartialEq, Eq)]
pub enum DnsOutcome {
    Resolved(Vec<String>),
    Failed(String),
}

/// Whether resolving succeeded: some address came back.
pub open spec fn dns_ok_spec(d: DnsOutcome) -> bool {
    d matches DnsOutcome::Resolved(a) && a@.len() > 0
}

/// The addresses resolved, none on failure.
pub open spec fn dns_addresses_spec(d: DnsOutcome) -> Seq<Seq<char>> {
    match d {
        DnsOutcome::Resolved(a) => strings_view(a@),
        DnsOutcome::Failed(_) => seq![],
    }
}

fn copy_strings(v: &Vec<String>) -> (r: Vec<String>)
    ensures
        strings_view(r@) == strings_view(v@),
{
    let mut r: Vec<String> = Vec::new();
    let mut i: usize = 0;
    while i < v.len()
        invariant
            i <= v.len(),
            strings_view(r@) == strings_view(v@).take(i as int),
        decreases v.len() - i,
    {
        let ghost before = strings_view(r@);
        r.push(v[i].clone());
        assert(strings_view(r@) =~= before.push(v@[i as int]@));
        assert(strings_view(v@).take(i + 1) =~= strings_view(v@).take(i as int).push(v@[i as int]@));
        i = i + 1;
    }
    assert(strings_view(v@).take(v@.len() as int) =~= strings_view(v@));
    r
}

/// Whether resolving succeeded.
pub fn dns_ok(d: &DnsOutcome) -> (r: bool)
    ensures
        r == dns_ok_spec(*d),
{
    match d {
        DnsOutcome::Resolved(a) => a.len() > 0,
        DnsOutcome::Failed(_) => false,
    }
}

/// The detail of the DNS check.
pub open spec fn dns_detail_spec(d: DnsOutcome) -> Seq<char> {
    match d {
        DnsOutcome::Resolved(a) => if a@.len() > 0 {
            decimal(a@.len()) + " address(es) resolved"@
        } else {
            "no addresses resolved"@
        },
        DnsOutcome::Failed(e) => e@,
    }
}

/// The DNS check: it succeeds when the name resolved to some address, and then lists them.
pub fn dns_check(d: &DnsOutcome, duration_ms: i64) -> (r: TestCheck)
    ensures
        r.name@ == "dns"@,
        r.ok == dns_ok_spec(*d),
        !r.skipped,
        r.duration_ms == Some(duration_ms),
        r.detail matches Some(t) && t@ == dns_detail_spec(*d),
        dns_ok_spec(*d) ==> (r.data matches Some(CheckData::Addresses { addresses }) && strings_view(addresses@)
            == dns_addresses_spec(*d)),
        !dns_ok_spec(*d) ==> r.data is None,
        r.exit_code is None,
{
    proof {
        reveal_strlit("dns");
        reveal_strlit(" address(es) resolved");
        reveal_strlit("no addresses resolved");
    }
    let (ok, detail, data) = match d {
        DnsOutcome::Resolved(a) => if a.len() > 0 {
            let n = u64_to_string(a.len() as u64);
            (true, concat2(n.as_str(), " address(es) resolved"), Some(CheckData::Addresses { addresses: copy_strings(a) }))
        } else {
            (false, owned("no addresses resolved"), None)
        },
        DnsOutcome::Failed(e) => (false, e.clone(), None),
    };
    TestCheck {
        name: owned("dns"),
        ok,
        skipped: false,
        duration_ms: Some(duration_ms),
        detail: Some(detail),
        data,
        exit_code: None,
    }
}

/// What trying the addresses in order gave: the first that accepted a connection, or the
/// error of the last attempt (`None` when there was no attempt).
#[derive(Debug, Clone, PartialEq, Eq)]
pub enum TcpOutcome {
    Connected(String),
    Failed(Option<String>),
}

/// The TCP check: it runs only after a successful DNS check; it succeeds when some address
/// accepted a connection. `tcp` is what the attempts gave, when they ran.
pub open spec fn tcp_check_ok(r: TestCheck, d: DnsOutcome, tcp: Option<TcpOutcome>, duration_ms: i64) -> bool {
    &&& r.name@ == "tcp"@
    &&& r.exit_code is None
    &&& r.skipped == !dns_ok_spec(d)
    &&& if dns_ok_spec(d) {
        &&& r.duration_ms == Some(duration_ms)
        &&& r.data matches Some(CheckData::Connection { addresses, connected }) && strings_view(addresses@)
            == dns_addresses_spec(d) && match tcp {
            Some(TcpOutcome::Connected(a)) => connected matches Some(c) && c@ == a@,
            _ => connected is None,
        }
        &&& match tcp {
            Some(TcpOutcome::Connected(a)) => r.ok && (r.detail matches Some(t) && t@ == "connected to "@ + a@),
            Some(TcpOutcome::Failed(Some(e))) => !r.ok && (r.detail matches Some(t) && t@ == e@),
            _ => !r.ok && (r.detail matches Some(t) && t@ == "unable to connect"@),
        }
    } else {
        &&& !r.ok
        &&& r.duration_ms == Some(0i64)
        &&& r.data is None
        &&& r.detail matches Some(t) && t@ == (if d is Resolved {
            "no addresses resolved"@
        } else {
            "skipped (dns failed)"@
        })
    }
}

/// The TCP check (see `tcp_check_ok`).
pub fn tcp_check(d: &DnsOutcome, tcp: Option<&TcpOutcome>, duration_ms: i64) -> (r: TestCheck)
    ensures
        tcp_check_ok(r, *d, match tcp {
            Some(t) => Some(*t),
            None => None,
        }, duration_ms),
{
    proof {
        reveal_strlit("tcp");
        reveal_strlit("connected to ");
        reveal_strlit("unable to connect");
        reveal_strlit("no addresses resolved");
        reveal_strlit("skipped (dns failed)");
    }
    let name = owned("tcp");
    match d {
        DnsOutcome::Resolved(addresses) => if addresses.len() > 0 {
            let (ok, detail, connected) = match tcp {
                Some(TcpOutcome::Connected(a)) => (true, concat2("connected to ", a.as_str()), Some(a.clone())),
                Some(TcpOutcome::Failed(Some(e))) => (false, e.clone(), None),
                _ => (false, owned("unable to connect"), None),
            };
            TestCheck {
                name,
                ok,
                skipped: false,
                duration_ms: Some(duration_ms),
                detail: Some(detail),
                data: Some(CheckData::Connection { addresses: copy_strings(addresses), connected }),
                exit_code: None,
            }
        } else {
            TestCheck {
                name,
                ok: false,
                skipped: true,
                duration_ms: Some(0),
                detail: Some(owned("no addresses resolved")),
                data: None,
                exit_code: None,
            }
        },
        DnsOutcome::Failed(_) => TestCheck {
            name,
            ok: false,
            skipped: true,
            duration_ms: Some(0),
            detail: Some(owned("skipped (dns failed)")),
            data: None,
            exit_code: None,
        },
    }
}

/// The connect timeout given to the SSH client: the whole seconds, at least one.
pub open spec fn batch_timeout_secs(secs: u64) -> u64 {
    if secs >= 1 {
        secs
    } else {
        1
    }
}

/// The arguments of the SSH batch-mode check.
pub open spec fn ssh_batch_args_spec(c: SshBatchCommand) -> Seq<Seq<char>> {
    seq!["-p"@, decimal(c.port as nat)] + strings_view(c.auth_args@) + seq![
        "-o"@,
        "BatchMode=yes"@,
        "-o"@,
        "ConnectTimeout="@ + decimal(batch_timeout_secs(c.connect_timeout_secs) as nat),
        "-T"@,
        c.user@ + "@"@ + c.host@,
        "exit 0"@,
    ]
}

/// The arguments of the SSH batch-mode check: port, auth arguments, batch mode, the connect
/// timeout, no terminal, `user@host`, and the command `exit 0`.
pub fn ssh_batch_args(c: &SshBatchCommand) -> (r: Vec<String>)
    ensures
        strings_view(r@) == ssh_batch_args_spec(*c),
{
    let mut args: Vec<String> = Vec::new();
    args.push(owned("-p"));
    args.push(u64_to_string(c.port as u64));
    let mut i: usize = 0;
    while i < c.auth_args.len()
        invariant
            i <= c.auth_args.len(),
            strings_view(args@) == seq!["-p"@, decimal(c.port as nat)] + strings_view(c.auth_args@).take(i as int),
        decreases c.auth_args.len() - i,
    {
        let ghost before = strings_view(args@);
        args.push(c.auth_args[i].clone());
        assert(strings_view(args@) =~= before.push(c.auth_args@[i as int]@));
        assert(strings_view(c.auth_args@).take(i + 1) =~= strings_view(c.auth_args@).take(i as int).push(
            c.auth_args@[i as int]@,
        ));
        i = i + 1;
    }
    assert(strings_view(c.auth_args@).take(c.auth_args@.len() as int) =~= strings_view(c.auth_args@));
    let secs = if c.connect_timeout_secs >= 1 {
        c.connect_timeout_secs
    } else {
        1
    };
    let t = u64_to_string(secs);
    let ghost before = strings_view(args@);
    args.push(owned("-o"));
    args.push(owned("BatchMode=yes"));
    args.push(owned("-o"));
    args.push(concat2("ConnectTimeout=", t.as_str()));
    args.push(owned("-T"));
    let mut dest = concat2(c.user.as_str(), "@");
    dest.append(c.host.as_str());
    args.push(dest);
    args.push(owned("exit 0"));
    proof {
        reveal_strlit("-p");
        reveal_strlit("-o");
        reveal_strlit("BatchMode=yes");
        reveal_strlit("ConnectTimeout=");
        reveal_strlit("-T");
        reveal_strlit("@");
        reveal_strlit("exit 0");
        assert(strings_view(args@) =~= ssh_batch_args_spec(*c));
    }
    args
}

/// What running the SSH client gave: it could not be started, or it finished.
#[derive(Debug, Clone, PartialEq, Eq)]
pub enum SshBatchOutcome {
    LaunchFailed(String),
    Finished { success: bool, exit_code: Option<i32>, stderr: Vec<u8> },
}

/// The SSH check: it runs only after a successful TCP check, and then `outcome` is what
/// running the client gave; it succeeds when batch-mode authentication works.
pub open spec fn ssh_check_ok(
    r: TestCheck,
    dns_ok: bool,
    tcp_ok: bool,
    c: SshBatchCommand,
    outcome: Option<SshBatchOutcome>,
    duration_ms: i64,
) -> bool {
    &&& r.name@ == "ssh"@
    &&& r.skipped == !tcp_ok
    &&& if tcp_ok {
        &&& r.duration_ms == Some(duration_ms)
        &&& match outcome {
            Some(SshBatchOutcome::Finished { success, exit_code, stderr }) => {
                &&& r.ok == success
                &&& r.exit_code == exit_code
                &&& if success {
                    &&& r.detail matches Some(t) && t@ == "batch mode auth ok"@
                    &&& r.data matches Some(CheckData::SshClient { client, stderr: e }) && client@ == c.path@
                        && e is None
                } else {
                    let err = trim(lossy_text(stderr@));
                    &&& r.detail matches Some(t) && t@ == (if err.len() == 0 {
                        "ssh batch mode failed"@
                    } else {
                        err
                    })
                    &&& r.data matches Some(CheckData::SshClient { client, stderr: e }) && client@ == c.path@
                        && (e matches Some(x) && x@ == err)
                }
            },
            Some(SshBatchOutcome::LaunchFailed(e)) => {
                &&& !r.ok
                &&& r.exit_code is None
                &&& r.detail matches Some(t) && t@ == "failed to execute ssh: "@ + e@
                &&& r.data matches Some(CheckData::SshClient { client, stderr }) && client@ == c.path@
                    && stderr is None
            },
            None => true,
        }
    } else {
        &&& !r.ok
        &&& r.exit_code is None
        &&& r.duration_ms == Some(0i64)
        &&& r.detail matches Some(t) && t@ == (if dns_ok {
            "skipped (tcp failed)"@
        } else {
            "skipped (dns failed)"@
        })
        &&& r.data matches Some(CheckData::SshClient { client, stderr }) && client@ == c.path@ && stderr is None
    }
}

/// The SSH check (see `ssh_check_ok`).
pub fn ssh_check(
    dns_ok: bool,
    tcp_ok: bool,
    c: &SshBatchCommand,
    outcome: Option<&SshBatchOutcome>,
    duration_ms: i64,
) -> (r: TestCheck)
    requires
        tcp_ok ==> outcome is Some,
    ensures
        ssh_check_ok(r, dns_ok, tcp_ok, *c, match outcome {
            Some(o) => Some(*o),
            None => None,
        }, duration_ms),
{
    proof {
        reveal_strlit("ssh");
        reveal_strlit("batch mode auth ok");
        reveal_strlit("ssh batch mode failed");
        reveal_strlit("failed to execute ssh: ");
        reveal_strlit("skipped (tcp failed)");
        reveal_strlit("skipped (dns failed)");
    }
    let client = c.client_label();
    let (ok, detail, duration, exit_code, stderr) = if tcp_ok {
        match outcome {
            Some(SshBatchOutcome::Finished { success, exit_code, stderr }) => {
                if *success {
                    (true, owned("batch mode auth ok"), duration_ms, *exit_code, None)
                } else {
                    let err = string_from_chars(&trim_chars(&decode_utf8_lossy(stderr)));
                    let detail = if err.as_str().is_empty() {
                        owned("ssh batch mode failed")
                    } else {
                        err.clone()
                    };
                    (false, detail, duration_ms, *exit_code, Some(err))
                }
            },
            Some(SshBatchOutcome::LaunchFailed(e)) => (
                false,
                concat2("failed to execute ssh: ", e.as_str()),
                duration_ms,
                None,
                None,
            ),
            None => (false, String::new(), duration_ms, None, None),
        }
    } else if dns_ok {
        (false, owned("skipped (tcp failed)"), 0, None, None)
    } else {
        (false, owned("skipped (dns failed)"), 0, None, None)
    };
    TestCheck {
        name: owned("ssh"),
        ok,
        skipped: !tcp_ok,
        duration_ms: Some(duration),
        detail: Some(detail),
        data: Some(CheckData::SshClient { client, stderr }),
        exit_code,
    }
}

/// Whether every check succeeded or was skipped.
pub open spec fn checks_pass(checks: Seq<TestCheck>) -> bool {
    forall|i: int| 0 <= i < checks.len() ==> (#[trigger] checks[i]).ok || checks[i].skipped
}

/// The report of a profile test: it passes when no check failed.
pub fn test_report(profile: &Profile, checks: Vec<TestCheck>, duration_ms: i64) -> (r: TestReport)
    ensures
        r.ok == checks_pass(checks@),
        r.ok == (forall|i: int| 0 <= i < checks@.len() ==> !(!(#[trigger] checks@[i]).ok && !checks@[i].skipped)),
        r.checks@ == checks@,
        r.profile_id@ == profile.profile_id@,
        r.profile_type@ == profile_type_name(profile.profile_type),
        r.host@ == profile.host@,
        r.port == profile.port,
        r.duration_ms == duration_ms,
{
    let mut ok = true;
    let mut i: usize = 0;
    while i < checks.len()
        invariant
            i <= checks.len(),
            ok == (forall|k: int| 0 <= k < i ==> (#[trigger] checks@[k]).ok || checks@[k].skipped),
        decreases checks.len() - i,
    {
        if !checks[i].ok && !checks[i].skipped {
            ok = false;
        }
        i = i + 1;
    }
    TestReport {
        profile_id: profile.profile_id.clone(),
        profile_type: owned(profile.profile_type.as_str()),
        host: profile.host.clone(),
        port: profile.port,
        duration_ms,
        ok,
        checks,
    }
}

} // verus!
