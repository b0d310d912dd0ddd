use vstd::prelude::*;

use crate::doctor::ClientKind;
use crate::error::CoreError;
use crate::id::{text_lowercase, lowercased};
use crate::oplog::OpLogEntry;
use crate::profile::Profile;
use crate::ssh::{MetaObject, MetaValue, MetaValueView};
use crate::text::{
    concat2, concat3, decimal, i64_to_string, owned, push_owned, replace_char, replace_char_spec,
    signed_decimal, str_eq, strings_view, u64_to_string,
};

verus! {

/// Which way a file travels.
#[derive(Debug, Clone, Copy, PartialEq, Eq, Structural)]
pub enum TransferDirection {
    Push,
    Pull,
}

/// The client that carries a transfer.
#[derive(Debug, Clone, Copy, PartialEq, Eq, Structural)]
pub enum TransferVia {
    Scp,
    Sftp,
    Ftp,
}

/// The name of a transfer client.
pub open spec fn via_name(v: TransferVia) -> Seq<char> {
    match v {
        TransferVia::Scp => "scp"@,
        TransferVia::Sftp => "sftp"@,
        TransferVia::Ftp => "ftp"@,
    }
}

/// The transfer client named `s`.
pub open spec fn via_from_name(s: Seq<char>) -> Option<TransferVia> {
    if s == "scp"@ {
        Some(TransferVia::Scp)
    } else if s == "sftp"@ {
        Some(TransferVia::Sftp)
    } else if s == "ftp"@ {
        Some(TransferVia::Ftp)
    } else {
        None
    }
}

impl TransferVia {
    /// Reads a transfer client name, in any case.
    pub fn from_str(value: &str) -> (r: Result<TransferVia, CoreError>)
        ensures
            match via_from_name(lowercased(value@)) {
                Some(v) => r == Ok::<TransferVia, CoreError>(v),
                None => r matches Err(CoreError::InvalidCommandSpec(m)) && m@
                    == "invalid transfer client: "@ + value@,
            },
    {
        let lower = text_lowercase(value);
        if str_eq(lower.as_str(), "scp") {
            Ok(TransferVia::Scp)
        } else if str_eq(lower.as_str(), "sftp") {
            Ok(TransferVia::Sftp)
        } else if str_eq(lower.as_str(), "ftp") {
            Ok(TransferVia::Ftp)
        } else {
            Err(CoreError::InvalidCommandSpec(concat2("invalid transfer client: ", value)))
        }
    }

    /// The client's name.
    pub fn as_str(&self) -> (r: &'static str)
        ensures
            r@ == via_name(*self),
    {
        match self {
            TransferVia::Scp => "scp",
            TransferVia::Sftp => "sftp",
            TransferVia::Ftp => "ftp",
        }
    }

    /// The kind of client program that carries the transfer.
    pub fn client_kind(&self) -> (r: ClientKind)
        ensures
            r == match *self {
                TransferVia::Scp => ClientKind::Scp,
                TransferVia::Sftp => ClientKind::Sftp,
                TransferVia::Ftp => ClientKind::Ftp,
            },
    {
        match self {
            TransferVia::Scp => ClientKind::Scp,
            TransferVia::Sftp => ClientKind::Sftp,
            TransferVia::Ftp => ClientKind::Ftp,
        }
    }

    /// Whether the client sends credentials and data in the clear.
    pub fn is_insecure(&self) -> (r: bool)
        ensures
            r == (*self == TransferVia::Ftp),
    {
        match self {
            TransferVia::Ftp => true,
            _ => false,
        }
    }
}

/// Law: a transfer client is read back from its name.
pub proof fn lemma_via_round_trip(v: TransferVia)
    ensures
        lowercased(via_name(v)) == via_name(v),
        via_from_name(lowercased(via_name(v))) == Some(v),
{
    reveal_strlit("scp");
    reveal_strlit("sftp");
    reveal_strlit("ftp");
    crate::id::lemma_lowercased_unchanged(via_name(v));
    match v {
        TransferVia::Scp => {},
        TransferVia::Sftp => {
            assert("sftp"@ != "scp"@) by {
                assert("sftp"@.len() != "scp"@.len());
            }
        },
        TransferVia::Ftp => {
            assert("ftp"@ != "scp"@) by {
                assert("ftp"@[0] != "scp"@[0]);
            }
            assert("ftp"@ != "sftp"@) by {
                assert("ftp"@.len() != "sftp"@.len());
            }
        },
    }
}

/// The remote operand `user@host:path`.
pub open spec fn remote_operand(profile: Profile, remote_path: Seq<char>) -> Seq<char> {
    profile.user@ + "@"@ + profile.host@ + ":"@ + remote_path
}

/// The arguments of `scp` for a transfer.
pub open spec fn scp_args_spec(
    profile: Profile,
    direction: TransferDirection,
    local_path: Seq<char>,
    remote_path: Seq<char>,
) -> Seq<Seq<char>> {
    match direction {
        TransferDirection::Push => seq![
            "-P"@,
            decimal(profile.port as nat),
            local_path,
            remote_operand(profile, remote_path),
        ],
        TransferDirection::Pull => seq![
            "-P"@,
            decimal(profile.port as nat),
            remote_operand(profile, remote_path),
            local_path,
        ],
    }
}

/// The arguments of `scp` for a transfer.
pub fn build_scp_args(
    profile: &Profile,
    direction: TransferDirection,
    local_path: &str,
    remote_path: &str,
) -> (r: Vec<String>)
    ensures
        strings_view(r@) == scp_args_spec(*profile, direction, local_path@, remote_path@),
{
    let mut args: Vec<String> = Vec::new();
    push_owned(&mut args, "-P");
    let port = u64_to_string(profile.port as u64);
    push_owned(&mut args, port.as_str());
    let mut remote = concat3(profile.user.as_str(), "@", profile.host.as_str());
    remote.append(":");
    remote.append(remote_path);
    match direction {
        TransferDirection::Push => {
            push_owned(&mut args, local_path);
            push_owned(&mut args, remote.as_str());
        },
        TransferDirection::Pull => {
            push_owned(&mut args, remote.as_str());
            push_owned(&mut args, local_path);
        },
    }
    assert(strings_view(args@) =~= scp_args_spec(*profile, direction, local_path@, remote_path@));
    args
}

/// The arguments of `sftp` running the batch file at `batch_path`.
pub fn build_sftp_args(profile: &Profile, batch_path: &str) -> (r: Vec<String>)
    ensures
        strings_view(r@) == seq![
            "-P"@,
            decimal(profile.port as nat),
            "-b"@,
            batch_path@,
            profile.user@ + "@"@ + profile.host@,
        ],
{
    let mut args: Vec<String> = Vec::new();
    push_owned(&mut args, "-P");
    let port = u64_to_string(profile.port as u64);
    push_owned(&mut args, port.as_str());
    push_owned(&mut args, "-b");
    push_owned(&mut args, batch_path);
    let target = concat3(profile.user.as_str(), "@", profile.host.as_str());
    push_owned(&mut args, target.as_str());
    assert(strings_view(args@) =~= seq![
        "-P"@,
        decimal(profile.port as nat),
        "-b"@,
        batch_path@,
        profile.user@ + "@"@ + profile.host@,
    ]);
    args
}

/// A batch-file operand in double quotes, with backslashes and double quotes escaped.
pub open spec fn quote_batch_arg_spec(value: Seq<char>) -> Seq<char> {
    "\""@ + replace_char_spec(replace_char_spec(value, '\\', "\\\\"@), '"', "\\\""@) + "\""@
}

/// Quotes an operand for an sftp batch file.
pub fn quote_sftp_arg(value: &str) -> (r: String)
    ensures
        r@ == quote_batch_arg_spec(value@),
{
    let a = replace_char(value, '\\', "\\\\");
    let b = replace_char(a.as_str(), '"', "\\\"");
    concat3("\"", b.as_str(), "\"")
}

/// Quotes an operand for an ftp command script.
pub fn quote_ftp_arg(value: &str) -> (r: String)
    ensures
        r@ == quote_batch_arg_spec(value@),
{
    quote_sftp_arg(value)
}

/// The transfer line of a batch: `put local remote` or `get remote local`, operands quoted.
pub open spec fn transfer_line(direction: TransferDirection, local: Seq<char>, remote: Seq<char>) -> Seq<
    char,
> {
    match direction {
        TransferDirection::Push => "put "@ + quote_batch_arg_spec(local) + " "@
            + quote_batch_arg_spec(remote),
        TransferDirection::Pull => "get "@ + quote_batch_arg_spec(remote) + " "@
            + quote_batch_arg_spec(local),
    }
}

fn build_transfer_line(direction: TransferDirection, local_path: &str, remote_path: &str) -> (r:
    String)
    ensures
        r@ == transfer_line(direction, local_path@, remote_path@),
{
    let local = quote_sftp_arg(local_path);
    let remote = quote_sftp_arg(remote_path);
    match direction {
        TransferDirection::Push => {
            let mut r = concat3("put ", local.as_str(), " ");
            r.append(remote.as_str());
            r
        },
        TransferDirection::Pull => {
            let mut r = concat3("get ", remote.as_str(), " ");
            r.append(local.as_str());
            r
        },
    }
}

/// The sftp batch of a transfer: the transfer line, then `quit`.
pub fn build_sftp_batch(direction: TransferDirection, local_path: &str, remote_path: &str) -> (r:
    String)
    ensures
        r@ == transfer_line(direction, local_path@, remote_path@) + "\nquit\n"@,
{
    let line = build_transfer_line(direction, local_path, remote_path);
    concat2(line.as_str(), "\nquit\n")
}

/// The arguments of the `ftp` client: prompts, auto-login and verbosity set, then host and port.
pub fn build_ftp_args(profile: &Profile) -> (r: Vec<String>)
    ensures
        strings_view(r@) == seq![
            "-i"@,
            "-n"@,
            "-v"@,
            profile.host@,
            decimal(profile.port as nat),
        ],
{
    let mut args: Vec<String> = Vec::new();
    push_owned(&mut args, "-i");
    push_owned(&mut args, "-n");
    push_owned(&mut args, "-v");
    push_owned(&mut args, profile.host.as_str());
    let port = u64_to_string(profile.port as u64);
    push_owned(&mut args, port.as_str());
    assert(strings_view(args@) =~= seq![
        "-i"@,
        "-n"@,
        "-v"@,
        profile.host@,
        decimal(profile.port as nat),
    ]);
    args
}

/// The ftp command script of a transfer: log in, binary mode, the transfer line, `quit`.
pub open spec fn ftp_batch_spec(
    profile: Profile,
    password: Seq<char>,
    direction: TransferDirection,
    local_path: Seq<char>,
    remote_path: Seq<char>,
) -> Seq<char> {
    "user "@ + quote_batch_arg_spec(profile.user@) + " "@ + quote_batch_arg_spec(password)
        + "\nbinary\n"@ + transfer_line(direction, local_path, remote_path) + "\nquit\n"@
}

/// The ftp command script of a transfer.
pub fn build_ftp_batch(
    profile: &Profile,
    password: &str,
    direction: TransferDirection,
    local_path: &str,
    remote_path: &str,
) -> (r: String)
    ensures
        r@ == ftp_batch_spec(*profile, password@, direction, local_path@, remote_path@),
{
    let user = quote_ftp_arg(profile.user.as_str());
    let pass = quote_ftp_arg(password);
    let line = build_transfer_line(direction, local_path, remote_path);
    let mut r = concat3("user ", user.as_str(), " ");
    r.append(pass.as_str());
    r.append("\nbinary\n");
    r.append(line.as_str());
    r.append("\nquit\n");
    r
}

/// Refuses an insecure (ftp) transfer unless the setting allows it and the user confirmed it.
pub fn ensure_insecure_allowed(client: TransferVia, allow_insecure_transfers: bool, insecure_flag: bool) -> (r:
    Result<(), String>)
    ensures
        r is Err <==> (client == TransferVia::Ftp && (!allow_insecure_transfers || !insecure_flag)),
        r matches Err(m) ==> m@
            == "ftp transfers are disabled; set allow_insecure_transfers=true and pass --i-know-its-insecure"@,
{
    if client.is_insecure() && (!allow_insecure_transfers || !insecure_flag) {
        return Err(
            owned(
                "ftp transfers are disabled; set allow_insecure_transfers=true and pass --i-know-its-insecure",
            ),
        );
    }
    Ok(())
}

/// The command line and batch of a transfer.
#[derive(Debug, Clone, PartialEq, Eq)]
pub struct TransferCommand {
    pub args: Vec<String>,
    pub batch: Option<String>,
    pub batch_on_stdin: bool,
}

/// The arguments of a transfer: the authentication arguments and then the client's own for scp
/// and sftp; the ftp client gets its own only, and reads its script on standard input.
pub open spec fn transfer_args_spec(
    profile: Profile,
    direction: TransferDirection,
    local_path: Seq<char>,
    remote_path: Seq<char>,
    client: TransferVia,
    auth_args: Seq<Seq<char>>,
    batch_path: Seq<char>,
) -> Seq<Seq<char>> {
    match client {
        TransferVia::Scp => auth_args + scp_args_spec(profile, direction, local_path, remote_path),
        TransferVia::Sftp => auth_args + seq![
            "-P"@,
            decimal(profile.port as nat),
            "-b"@,
            batch_path,
            profile.user@ + "@"@ + profile.host@,
        ],
        TransferVia::Ftp => seq![
            "-i"@,
            "-n"@,
            "-v"@,
            profile.host@,
            decimal(profile.port as nat),
        ],
    }
}

/// The command line of a transfer and the batch it runs; `batch_path` is where the batch is
/// written, `password` the ftp password (empty when none is set).
pub fn transfer_command(
    profile: &Profile,
    direction: TransferDirection,
    local_path: &str,
    remote_path: &str,
    client: TransferVia,
    auth_args: &Vec<String>,
    batch_path: &str,
    password: &str,
) -> (r: TransferCommand)
    ensures
        strings_view(r.args@) == transfer_args_spec(
            *profile,
            direction,
            local_path@,
            remote_path@,
            client,
            strings_view(auth_args@),
            batch_path@,
        ),
        client == TransferVia::Scp ==> (r.batch is None),
        client == TransferVia::Sftp ==> (r.batch matches Some(b) && b@ == transfer_line(
            direction,
            local_path@,
            remote_path@,
        ) + "\nquit\n"@),
        client == TransferVia::Ftp ==> (r.batch matches Some(b) && b@ == ftp_batch_spec(
            *profile,
            password@,
            direction,
            local_path@,
            remote_path@,
        )),
        r.batch_on_stdin == (client == TransferVia::Ftp),
{
    match client {
        TransferVia::Ftp => {
            let args = build_ftp_args(profile);
            let batch = build_ftp_batch(profile, password, direction, local_path, remote_path);
            TransferCommand { args, batch: Some(batch), batch_on_stdin: true }
        },
        _ => {
            let mut args: Vec<String> = Vec::new();
            let mut i: usize = 0;
            while i < auth_args.len()
                invariant
                    i <= auth_args.len(),
                    strings_view(args@) == strings_view(auth_args@).take(i as int),
                decreases auth_args.len() - i,
            {
                push_owned(&mut args, auth_args[i].as_str());
                i = i + 1;
                assert(strings_view(args@) =~= strings_view(auth_args@).take(i as int));
            }
            assert(strings_view(auth_args@).take(auth_args.len() as int) =~= strings_view(
                auth_args@,
            ));
            let own = if client == TransferVia::Scp {
                build_scp_args(profile, direction, local_path, remote_path)
            } else {
                build_sftp_args(profile, batch_path)
            };
            let mut j: usize = 0;
            let ghost prefix = strings_view(args@);
            while j < own.len()
                invariant
                    j <= own.len(),
                    strings_view(args@) == prefix + strings_view(own@).take(j as int),
                decreases own.len() - j,
            {
                push_owned(&mut args, own[j].as_str());
                j = j + 1;
                assert(strings_view(args@) =~= prefix + strings_view(own@).take(j as int));
            }
            assert(strings_view(own@).take(own.len() as int) =~= strings_view(own@));
            let batch = if client == TransferVia::Sftp {
                Some(build_sftp_batch(direction, local_path, remote_path))
            } else {
                None
            };
            TransferCommand { args, batch, batch_on_stdin: false }
        },
    }
}

/// What a transfer came to.
#[derive(Debug, Clone, PartialEq, Eq)]
pub struct TransferOutcome {
    pub ok: bool,
    pub exit_code: i32,
    pub duration_ms: i64,
    pub client_used: String,
    pub insecure: bool,
}

/// The name of a direction in the operation log.
pub open spec fn direction_name(d: TransferDirection) -> Seq<char> {
    match d {
        TransferDirection::Push => "push"@,
        TransferDirection::Pull => "pull"@,
    }
}

/// The operation-log metadata of a transfer.
pub open spec fn transfer_meta_spec(
    client: TransferVia,
    direction: TransferDirection,
    local_path: Seq<char>,
    remote_path: Seq<char>,
    insecure: bool,
) -> Map<Seq<char>, MetaValueView> {
    Map::empty().insert("client"@, MetaValueView::Text(via_name(client))).insert(
        "direction"@,
        MetaValueView::Text(direction_name(direction)),
    ).insert("local_path"@, MetaValueView::Text(local_path)).insert(
        "remote_path"@,
        MetaValueView::Text(remote_path),
    ).insert("insecure"@, MetaValueView::Flag(insecure))
}

/// The operation-log metadata of a transfer: client, direction, both paths and whether it was
/// insecure.
pub fn transfer_meta(
    client: TransferVia,
    direction: TransferDirection,
    local_path: &str,
    remote_path: &str,
    insecure: bool,
) -> (r: MetaObject)
    ensures
        r@ == transfer_meta_spec(client, direction, local_path@, remote_path@, insecure),
{
    let mut meta = MetaObject::new();
    meta.insert("client", MetaValue::Text(owned(client.as_str())));
    let d = match direction {
        TransferDirection::Push => "push",
        TransferDirection::Pull => "pull",
    };
    meta.insert("direction", MetaValue::Text(owned(d)));
    meta.insert("local_path", MetaValue::Text(owned(local_path)));
    meta.insert("remote_path", MetaValue::Text(owned(remote_path)));
    meta.insert("insecure", MetaValue::Flag(insecure));
    meta
}

/// The result of a logged transfer: success, or the failure naming the operation and exit code.
pub fn transfer_result(op: &str, outcome: &TransferOutcome) -> (r: Result<(), String>)
    ensures
        outcome.ok ==> r is Ok,
        !outcome.ok ==> (r matches Err(m) && m@ == op@ + " failed with exit code "@ + signed_decimal(
            outcome.exit_code as int,
        )),
{
    if outcome.ok {
        Ok(())
    } else {
        let code = i64_to_string(outcome.exit_code as i64);
        Err(concat3(op, " failed with exit code ", code.as_str()))
    }
}


/// How a copy between two profiles ends: the pull's result where the pull failed, else the
/// push's.
pub open spec fn xfer_outcome_spec(pull: TransferOutcome, push: Option<TransferOutcome>) -> (bool, i32) {
    match push {
        Some(p) => if pull.ok {
            (p.ok, p.exit_code)
        } else {
            (pull.ok, pull.exit_code)
        },
        None => (pull.ok, pull.exit_code),
    }
}

/// The success and exit code of a copy between two profiles.
pub fn xfer_outcome(pull: &TransferOutcome, push: Option<&TransferOutcome>) -> (r: (bool, i32))
    ensures
        r == xfer_outcome_spec(*pull, match push {
            Some(p) => Some(*p),
            None => None,
        }),
{
    match push {
        Some(p) => if pull.ok {
            (p.ok, p.exit_code)
        } else {
            (pull.ok, pull.exit_code)
        },
        None => (pull.ok, pull.exit_code),
    }
}

/// The operation-log metadata of a copy between two profiles.
pub open spec fn xfer_meta_spec(
    via: TransferVia,
    src_profile_id: Seq<char>,
    dst_profile_id: Seq<char>,
    src_path: Seq<char>,
    dst_path: Seq<char>,
    pull: TransferOutcome,
    push: Option<TransferOutcome>,
) -> Map<Seq<char>, MetaValueView> {
    Map::empty().insert("via"@, MetaValueView::Text(via_name(via))).insert(
        "insecure"@,
        MetaValueView::Flag(via == TransferVia::Ftp),
    ).insert("src_profile_id"@, MetaValueView::Text(src_profile_id)).insert(
        "dst_profile_id"@,
        MetaValueView::Text(dst_profile_id),
    ).insert("src_path"@, MetaValueView::Text(src_path)).insert(
        "dst_path"@,
        MetaValueView::Text(dst_path),
    ).insert("pull_exit_code"@, MetaValueView::Number(pull.exit_code as i64)).insert(
        "push_exit_code"@,
        match push {
            Some(p) => MetaValueView::Number(p.exit_code as i64),
            None => MetaValueView::Json("null"@),
        },
    ).insert("pull_client"@, MetaValueView::Text(pull.client_used@)).insert(
        "push_client"@,
        match push {
            Some(p) => MetaValueView::Text(p.client_used@),
            None => MetaValueView::Json("null"@),
        },
    )
}

/// The operation-log metadata of a copy between two profiles: the client, whether it was
/// insecure, both profiles and paths, and each leg's exit code and client (JSON `null` for a
/// push that did not run).
pub fn xfer_meta(
    via: TransferVia,
    src_profile_id: &str,
    dst_profile_id: &str,
    src_path: &str,
    dst_path: &str,
    pull: &TransferOutcome,
    push: Option<&TransferOutcome>,
) -> (r: MetaObject)
    ensures
        r@ == xfer_meta_spec(via, src_profile_id@, dst_profile_id@, src_path@, dst_path@, *pull, match push {
            Some(p) => Some(*p),
            None => None,
        }),
{
    let mut meta = MetaObject::new();
    meta.insert("via", MetaValue::Text(owned(via.as_str())));
    meta.insert("insecure", MetaValue::Flag(via.is_insecure()));
    meta.insert("src_profile_id", MetaValue::Text(owned(src_profile_id)));
    meta.insert("dst_profile_id", MetaValue::Text(owned(dst_profile_id)));
    meta.insert("src_path", MetaValue::Text(owned(src_path)));
    meta.insert("dst_path", MetaValue::Text(owned(dst_path)));
    meta.insert("pull_exit_code", MetaValue::Number(pull.exit_code as i64));
    let push_code = match push {
        Some(p) => MetaValue::Number(p.exit_code as i64),
        None => MetaValue::Json(owned("null")),
    };
    meta.insert("push_exit_code", push_code);
    meta.insert("pull_client", MetaValue::Text(pull.client_used.clone()));
    let push_client = match push {
        Some(p) => MetaValue::Text(p.client_used.clone()),
        None => MetaValue::Json(owned("null")),
    };
    meta.insert("push_client", push_client);
    meta
}

/// The operation-log row of a copy between two profiles: operation `xfer`, no profile or
/// client of its own, the copy's success and exit code, its duration and metadata.
pub fn xfer_log_entry(ok: bool, exit_code: i32, duration_ms: i64, meta: MetaObject) -> (r: OpLogEntry)
    ensures
        r.op@ == "xfer"@,
        r.profile_id is None,
        r.client_used is None,
        r.ok == ok,
        r.exit_code == Some(exit_code),
        r.duration_ms == Some(duration_ms),
        r.meta_json == Some(meta),
{
    OpLogEntry {
        op: owned("xfer"),
        profile_id: None,
        client_used: None,
        ok,
        exit_code: Some(exit_code),
        duration_ms: Some(duration_ms),
        meta_json: Some(meta),
    }
}

} // verus!
