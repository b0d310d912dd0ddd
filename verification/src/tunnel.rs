use vstd::prelude::*;

use crate::error::CoreError;
use crate::settings::opt_view;
use crate::settings_registry::validation_view;
use crate::text::{
    all_digits, chars_of, concat2, concat3, strings_view, decimal, is_digit, owned, parse_unsigned, parse_unsigned_exec,
    rfind_char, rfind_char_exec, slice_chars, str_eq, string_from_chars, trim, trim_chars,
    u64_to_string,
};

verus! {

/// The kind of an SSH port forward.
#[derive(Debug, Clone, Copy, PartialEq, Eq, Structural)]
pub enum ForwardKind {
    Local,
    Remote,
    Dynamic,
}

/// The stored name of a forward kind.
pub open spec fn forward_kind_name(k: ForwardKind) -> Seq<char> {
    match k {
        ForwardKind::Local => "local"@,
        ForwardKind::Remote => "remote"@,
        ForwardKind::Dynamic => "dynamic"@,
    }
}

/// The forward kind stored as `s`.
pub open spec fn forward_kind_from(s: Seq<char>) -> Option<ForwardKind> {
    if s == "local"@ {
        Some(ForwardKind::Local)
    } else if s == "remote"@ {
        Some(ForwardKind::Remote)
    } else if s == "dynamic"@ {
        Some(ForwardKind::Dynamic)
    } else {
        None
    }
}

impl ForwardKind {
    /// Reads a stored forward kind.
    pub fn from_str(value: &str) -> (r: Result<ForwardKind, CoreError>)
        ensures
            match forward_kind_from(value@) {
                Some(k) => r == Ok::<ForwardKind, CoreError>(k),
                None => r matches Err(CoreError::InvalidSetting(m)) && m@ == "unknown forward kind: "@
                    + value@,
            },
    {
        if str_eq(value, "local") {
            Ok(ForwardKind::Local)
        } else if str_eq(value, "remote") {
            Ok(ForwardKind::Remote)
        } else if str_eq(value, "dynamic") {
            Ok(ForwardKind::Dynamic)
        } else {
            Err(CoreError::InvalidSetting(concat2("unknown forward kind: ", value)))
        }
    }

    /// The stored name (`Display`).
    pub fn as_str(self) -> (r: &'static str)
        ensures
            r@ == forward_kind_name(self),
    {
        match self {
            ForwardKind::Local => "local",
            ForwardKind::Remote => "remote",
            ForwardKind::Dynamic => "dynamic",
        }
    }

    /// The ssh option that sets up a forward of this kind.
    pub fn as_flag(self) -> (r: &'static str)
        ensures
            r@ == match self {
                ForwardKind::Local => "-L"@,
                ForwardKind::Remote => "-R"@,
                ForwardKind::Dynamic => "-D"@,
            },
    {
        match self {
            ForwardKind::Local => "-L",
            ForwardKind::Remote => "-R",
            ForwardKind::Dynamic => "-D",
        }
    }
}

/// Law: a forward kind is read back from its stored name.
pub proof fn lemma_forward_kind_round_trip(k: ForwardKind)
    ensures
        forward_kind_from(forward_kind_name(k)) == Some(k),
{
    reveal_strlit("local");
    reveal_strlit("remote");
    reveal_strlit("dynamic");
    match k {
        ForwardKind::Local => {},
        ForwardKind::Remote => {
            assert("remote"@ != "local"@) by {
                assert("remote"@[0] != "local"@[0]);
            }
        },
        ForwardKind::Dynamic => {
            assert("dynamic"@ != "local"@) by {
                assert("dynamic"@[0] != "local"@[0]);
            }
            assert("dynamic"@ != "remote"@) by {
                assert("dynamic"@[0] != "remote"@[0]);
            }
        },
    }
}

/// A stored port forward.
#[derive(Debug, Clone)]
pub struct Forward {
    pub id: i64,
    pub profile_id: String,
    pub name: String,
    pub kind: ForwardKind,
    pub listen: String,
    pub dest: Option<String>,
}

/// A port forward to be stored.
#[derive(Debug, Clone)]
pub struct NewForward {
    pub profile_id: String,
    pub name: String,
    pub kind: ForwardKind,
    pub listen: String,
    pub dest: Option<String>,
}

/// The kind of a background session.
#[derive(Debug, Clone, Copy, PartialEq, Eq, Structural)]
pub enum SessionKind {
    Tunnel,
}

impl SessionKind {
    /// Reads a stored session kind.
    pub fn from_str(value: &str) -> (r: Result<SessionKind, CoreError>)
        ensures
            value@ == "tunnel"@ ==> r == Ok::<SessionKind, CoreError>(SessionKind::Tunnel),
            value@ != "tunnel"@ ==> (r matches Err(CoreError::InvalidSetting(m)) && m@
                == "unknown session kind: "@ + value@),
    {
        if str_eq(value, "tunnel") {
            Ok(SessionKind::Tunnel)
        } else {
            Err(CoreError::InvalidSetting(concat2("unknown session kind: ", value)))
        }
    }

    /// The stored name (`Display`).
    pub fn as_str(self) -> (r: &'static str)
        ensures
            r@ == "tunnel"@,
    {
        "tunnel"
    }
}

/// A background session (an ssh tunnel).
#[derive(Debug, Clone)]
pub struct Session {
    pub session_id: String,
    pub kind: SessionKind,
    pub profile_id: String,
    pub pid: Option<u32>,
    pub started_at: i64,
    pub forwards: Vec<String>,
}

/// A background session to be stored.
#[derive(Debug, Clone)]
pub struct NewSession {
    pub kind: SessionKind,
    pub profile_id: String,
    pub pid: Option<u32>,
    pub forwards: Vec<String>,
}

/// `value.trim().parse::<u16>()`, or the message naming the value.
pub open spec fn parse_port_spec(value: Seq<char>) -> Result<nat, Seq<char>> {
    match parse_unsigned(trim(value), 65535) {
        Some(n) => Ok(n),
        None => Err("invalid port: "@ + value),
    }
}

/// Reads a port number; surrounding whitespace is ignored.
pub fn parse_port(value: &str) -> (r: Result<u16, CoreError>)
    ensures
        match parse_port_spec(value@) {
            Ok(n) => r == Ok::<u16, CoreError>(n as u16),
            Err(m) => r matches Err(CoreError::InvalidSetting(e)) && e@ == m,
        },
{
    let v = chars_of(value);
    let t = trim_chars(&v);
    match parse_unsigned_exec(&t, 65535) {
        Some(n) => Ok(n as u16),
        None => Err(CoreError::InvalidSetting(concat2("invalid port: ", value))),
    }
}

/// Splits `host:port` at the last colon; the host may not be blank.
pub open spec fn split_host_port_spec(input: Seq<char>) -> Result<(Seq<char>, nat), Seq<char>> {
    match rfind_char(input, ':') {
        None => Err("invalid host:port: "@ + input),
        Some(i) => if trim(input.take(i)).len() == 0 {
            Err("invalid host:port: "@ + input)
        } else {
            match parse_port_spec(input.skip(i + 1)) {
                Ok(p) => Ok((input.take(i), p)),
                Err(e) => Err(e),
            }
        },
    }
}

/// Splits `host:port` at the last colon.
pub fn split_host_port(input: &str) -> (r: Result<(String, u16), CoreError>)
    ensures
        match split_host_port_spec(input@) {
            Ok((h, p)) => r matches Ok((host, port)) && host@ == h && port == p,
            Err(m) => r matches Err(CoreError::InvalidSetting(e)) && e@ == m,
        },
{
    let v = chars_of(input);
    match rfind_char_exec(&v, ':') {
        None => Err(CoreError::InvalidSetting(concat2("invalid host:port: ", input))),
        Some(i) => {
            let host = slice_chars(&v, 0, i);
            let port = slice_chars(&v, i + 1, v.len());
            assert(host@ =~= input@.take(i as int));
            assert(port@ =~= input@.skip(i + 1));
            let host_trimmed = trim_chars(&host);
            if host_trimmed.len() == 0 {
                return Err(CoreError::InvalidSetting(concat2("invalid host:port: ", input)));
            }
            let port_text = string_from_chars(&port);
            let p = parse_port(port_text.as_str())?;
            Ok((string_from_chars(&host), p))
        },
    }
}

/// `host:port` in the form it is stored.
pub open spec fn host_port_text(host: Seq<char>, port: nat) -> Seq<char> {
    host + ":"@ + decimal(port)
}

fn host_port_string(host: &str, port: u16) -> (r: String)
    ensures
        r@ == host_port_text(host@, port as nat),
{
    let p = u64_to_string(port as u64);
    let mut r = concat2(host, ":");
    r.append(p.as_str());
    r
}

/// The listen address in the form it is stored: a bare port listens on `127.0.0.1`.
pub open spec fn normalize_listen_spec(listen: Seq<char>) -> Result<Seq<char>, Seq<char>> {
    if all_digits(listen) {
        match parse_port_spec(listen) {
            Ok(p) => Ok(host_port_text("127.0.0.1"@, p)),
            Err(e) => Err(e),
        }
    } else {
        match split_host_port_spec(listen) {
            Ok((h, p)) => Ok(host_port_text(h, p)),
            Err(e) => Err(e),
        }
    }
}

/// Normalises a listen address.
pub fn normalize_listen(listen: &str) -> (r: Result<String, CoreError>)
    ensures
        validation_view(r) == normalize_listen_spec(listen@),
        r is Err ==> (r matches Err(CoreError::InvalidSetting(_))),
{
    let v = chars_of(listen);
    let mut digits = true;
    let mut i: usize = 0;
    while i < v.len()
        invariant
            i <= v.len(),
            v@ == listen@,
            digits == (forall|k: int| 0 <= k < i ==> is_digit(#[trigger] v@[k])),
        decreases v.len() - i,
    {
        if !('0' <= v[i] && v[i] <= '9') {
            digits = false;
        }
        i = i + 1;
    }
    if digits {
        let port = parse_port(listen)?;
        return Ok(host_port_string("127.0.0.1", port));
    }
    let (host, port) = split_host_port(listen)?;
    Ok(host_port_string(host.as_str(), port))
}

/// The destination in the form it is stored: none for a dynamic forward (which may not have
/// one), `host:port` otherwise (where it is required).
pub open spec fn normalize_dest_spec(kind: ForwardKind, dest: Option<Seq<char>>) -> Result<
    Option<Seq<char>>,
    Seq<char>,
> {
    match kind {
        ForwardKind::Dynamic => match dest {
            Some(d) => if trim(d).len() > 0 {
                Err("dynamic forward cannot have a destination"@)
            } else {
                Ok(None)
            },
            None => Ok(None),
        },
        _ => match dest {
            Some(d) => if trim(d).len() == 0 {
                Err("forward dest is required"@)
            } else {
                match split_host_port_spec(trim(d)) {
                    Ok((h, p)) => Ok(Some(host_port_text(h, p))),
                    Err(e) => Err(e),
                }
            },
            None => Err("forward dest is required"@),
        },
    }
}

/// Normalises a forward's destination.
pub fn normalize_dest(kind: ForwardKind, dest: Option<String>) -> (r: Result<
    Option<String>,
    CoreError,
>)
    ensures
        match normalize_dest_spec(kind, opt_view(dest)) {
            Ok(d) => r matches Ok(x) && opt_view(x) == d,
            Err(m) => r matches Err(CoreError::InvalidSetting(e)) && e@ == m,
        },
{
    match kind {
        ForwardKind::Dynamic => {
            match &dest {
                Some(d) => {
                    let v = chars_of(d.as_str());
                    let t = trim_chars(&v);
                    if t.len() > 0 {
                        return Err(
                            CoreError::InvalidSetting(
                                owned("dynamic forward cannot have a destination"),
                            ),
                        );
                    }
                },
                None => {},
            }
            Ok(None)
        },
        _ => {
            match &dest {
                Some(d) => {
                    let v = chars_of(d.as_str());
                    let t = trim_chars(&v);
                    if t.len() == 0 {
                        return Err(CoreError::InvalidSetting(owned("forward dest is required")));
                    }
                    let raw = string_from_chars(&t);
                    let (host, port) = split_host_port(raw.as_str())?;
                    Ok(Some(host_port_string(host.as_str(), port)))
                },
                None => Err(CoreError::InvalidSetting(owned("forward dest is required"))),
            }
        },
    }
}

/// Checks a new forward and normalises what is stored of it: the name is required and must be
/// free for the profile (`name_taken` says whether the profile already has a forward of that
/// name), then the listen address and destination are normalised.
pub fn prepare_forward(input: &NewForward, name_taken: bool) -> (r: Result<
    (String, Option<String>),
    CoreError,
>)
    ensures
        trim(input.name@).len() == 0 ==> (r matches Err(CoreError::InvalidSetting(m)) && m@
            == "forward name is required"@),
        trim(input.name@).len() > 0 && name_taken ==> (r matches Err(CoreError::Conflict(m)) && m@
            == "forward name already exists: "@ + input.name@),
        trim(input.name@).len() > 0 && !name_taken ==> match normalize_listen_spec(input.listen@) {
            Err(e) => r matches Err(CoreError::InvalidSetting(m)) && m@ == e,
            Ok(l) => match normalize_dest_spec(input.kind, opt_view(input.dest)) {
                Err(e) => r matches Err(CoreError::InvalidSetting(m)) && m@ == e,
                Ok(d) => r matches Ok((listen, dest)) && listen@ == l && opt_view(dest) == d,
            },
        },
{
    let v = chars_of(input.name.as_str());
    let t = trim_chars(&v);
    if t.len() == 0 {
        return Err(CoreError::InvalidSetting(owned("forward name is required")));
    }
    if name_taken {
        return Err(CoreError::Conflict(concat2("forward name already exists: ", input.name.as_str())));
    }
    let listen = normalize_listen(input.listen.as_str())?;
    let dest = normalize_dest(input.kind, input.dest.clone())?;
    Ok((listen, dest))
}

/// The destination of a stored forward: a blank stored value means none.
pub fn dest_from_stored(raw: String) -> (r: Option<String>)
    ensures
        opt_view(r) == if trim(raw@).len() == 0 {
            None::<Seq<char>>
        } else {
            Some(raw@)
        },
{
    let v = chars_of(raw.as_str());
    let t = trim_chars(&v);
    if t.len() == 0 {
        None
    } else {
        Some(raw)
    }
}


/// The refusal of a tunnel without forwards.
pub fn require_forwards(count: usize) -> (r: Result<(), String>)
    ensures
        count > 0 ==> r is Ok,
        count == 0 ==> (r matches Err(m) && m@ == "tunnel start requires at least one --forward"@),
{
    if count == 0 {
        return Err(owned("tunnel start requires at least one --forward"));
    }
    Ok(())
}

/// The ssh argument that sets up one forward: the listen address, and for a local or remote
/// forward `:` and the destination.
pub open spec fn forward_spec_text(f: Forward) -> Result<Seq<char>, Seq<char>> {
    match f.kind {
        ForwardKind::Dynamic => Ok(f.listen@),
        _ => match f.dest {
            Some(d) => Ok(f.listen@ + ":"@ + d@),
            None => Err("forward "@ + f.name@ + " missing destination"@),
        },
    }
}

/// The flag and argument of each forward in turn, or the refusal of the first forward that
/// lacks a destination.
pub open spec fn forward_args_spec(fs: Seq<Forward>) -> Result<Seq<Seq<char>>, Seq<char>>
    decreases fs.len(),
{
    if fs.len() == 0 {
        Ok(Seq::empty())
    } else {
        match forward_args_spec(fs.drop_last()) {
            Err(m) => Err(m),
            Ok(prev) => match forward_spec_text(fs.last()) {
                Err(m) => Err(m),
                Ok(t) => Ok(prev.push(match fs.last().kind {
                    ForwardKind::Local => "-L"@,
                    ForwardKind::Remote => "-R"@,
                    ForwardKind::Dynamic => "-D"@,
                }).push(t)),
            },
        }
    }
}

/// The arguments of a background ssh tunnel: `-N -p <port>`, the authentication arguments,
/// each forward's flag and argument, then `user@host`.
pub fn tunnel_ssh_args(port: u16, auth_args: &Vec<String>, forwards: &Vec<Forward>, user: &str, host: &str) -> (r:
    Result<Vec<String>, String>)
    ensures
        match forward_args_spec(forwards@) {
            Ok(fa) => r matches Ok(v) && strings_view(v@) == seq!["-N"@, "-p"@, decimal(port as nat)]
                + strings_view(auth_args@) + fa + seq![user@ + "@"@ + host@],
            Err(m) => r matches Err(e) && e@ == m,
        },
{
    let mut out: Vec<String> = Vec::new();
    out.push(owned("-N"));
    out.push(owned("-p"));
    out.push(u64_to_string(port as u64));
    let mut i: usize = 0;
    while i < auth_args.len()
        invariant
            i <= auth_args.len(),
            strings_view(out@) == seq!["-N"@, "-p"@, decimal(port as nat)] + strings_view(auth_args@).take(
                i as int,
            ),
        decreases auth_args.len() - i,
    {
        let ghost before = strings_view(out@);
        out.push(auth_args[i].clone());
        assert(strings_view(out@) =~= before.push(auth_args@[i as int]@));
        assert(strings_view(auth_args@).take(i + 1) =~= strings_view(auth_args@).take(i as int).push(
            auth_args@[i as int]@,
        ));
        i = i + 1;
    }
    assert(strings_view(auth_args@).take(auth_args.len() as int) =~= strings_view(auth_args@));
    let ghost head = strings_view(out@);
    let mut j: usize = 0;
    while j < forwards.len()
        invariant
            j <= forwards.len(),
            head == seq!["-N"@, "-p"@, decimal(port as nat)] + strings_view(auth_args@),
            forward_args_spec(forwards@.take(j as int)) matches Ok(fa) && strings_view(out@) == head + fa,
        decreases forwards.len() - j,
    {
        let f = &forwards[j];
        assert(forwards@.take(j + 1).drop_last() =~= forwards@.take(j as int));
        let ghost prev = strings_view(out@);
        let spec_text = match f.kind {
            ForwardKind::Dynamic => f.listen.clone(),
            _ => match &f.dest {
                Some(d) => concat3(f.listen.as_str(), ":", d.as_str()),
                None => {
                    let m = concat3("forward ", f.name.as_str(), " missing destination");
                    proof {
                        lemma_forward_args_error_persists(forwards@, j as int + 1);
                    }
                    return Err(m);
                },
            },
        };
        out.push(owned(f.kind.as_flag()));
        out.push(spec_text);
        j = j + 1;
        proof {
            assert(strings_view(out@) =~= prev.push(strings_view(out@)[prev.len() as int]).push(
                strings_view(out@)[prev.len() + 1int],
            ));
            assert(strings_view(out@) =~= head + forward_args_spec(forwards@.take(j as int))->Ok_0);
        }
    }
    assert(forwards@.take(forwards.len() as int) =~= forwards@);
    let ghost mid = strings_view(out@);
    out.push(concat3(user, "@", host));
    assert(strings_view(out@) =~= mid.push(user@ + "@"@ + host@));
    Ok(out)
}

/// Once a prefix of the forwards is refused, every longer prefix is refused for the same reason.
proof fn lemma_forward_args_error_persists(fs: Seq<Forward>, k: int)
    requires
        0 < k <= fs.len(),
        forward_args_spec(fs.take(k - 1)) is Ok,
        forward_spec_text(fs[k - 1]) is Err,
    ensures
        forward_args_spec(fs) == Err::<Seq<Seq<char>>, Seq<char>>(forward_spec_text(fs[k - 1])->Err_0),
{
    lemma_forward_args_error_persists_prefix(fs, k, fs.len() as int);
    assert(fs.take(fs.len() as int) =~= fs);
}

proof fn lemma_forward_args_error_persists_prefix(fs: Seq<Forward>, k: int, n: int)
    requires
        0 < k <= n <= fs.len(),
        forward_args_spec(fs.take(k - 1)) is Ok,
        forward_spec_text(fs[k - 1]) is Err,
    ensures
        forward_args_spec(fs.take(n)) == Err::<Seq<Seq<char>>, Seq<char>>(forward_spec_text(fs[k - 1])->Err_0),
    decreases n - k,
{
    if n == k {
        assert(fs.take(n).drop_last() =~= fs.take(k - 1));
        assert(fs.take(n).last() == fs[k - 1]);
    } else {
        lemma_forward_args_error_persists_prefix(fs, k, n - 1);
        assert(fs.take(n).drop_last() =~= fs.take(n - 1));
    }
}

} // verus!
