use vstd::prelude::*;

use crate::console::{recent_status_spec, session_status_spec, table_cell, table_cell_spec, format_recent_status, format_session_status};
use crate::oplog::RecentSshSession;
use crate::profile::{danger_name, profile_type_name, Profile};
use crate::session_log::{SessionLogDiagnostics, SessionLogMetadata};
use crate::text::{chars_of, concat2, concat3, decimal, owned, string_from_chars, strings_view, u64_to_string};

verus! {

/// Text padded with spaces on the right to at least `width` characters (`{:<width}`).
pub open spec fn pad_right(s: Seq<char>, width: nat) -> Seq<char> {
    if s.len() >= width {
        s
    } else {
        s + Seq::new((width - s.len()) as nat, |i: int| ' ')
    }
}

/// Pads text with spaces on the right to at least `width` characters.
pub fn pad_text(s: &str, width: usize) -> (r: String)
    ensures
        r@ == pad_right(s@, width as nat),
{
    let mut v = chars_of(s);
    if v.len() < width {
        let ghost start = v@;
        let k = width - v.len();
        let mut i: usize = 0;
        while i < k
            invariant
                i <= k,
                k == width - start.len(),
                v@ == start + Seq::new(i as nat, |j: int| ' '),
            decreases k - i,
        {
            v.push(' ');
            i = i + 1;
            assert(v@ =~= start + Seq::new(i as nat, |j: int| ' '));
        }
    }
    string_from_chars(&v)
}

/// `user@host:port`.
pub open spec fn endpoint_spec(user: Seq<char>, host: Seq<char>, port: u16) -> Seq<char> {
    user + "@"@ + host + ":"@ + decimal(port as nat)
}

/// `user@host:port`.
pub fn endpoint(user: &str, host: &str, port: u16) -> (r: String)
    ensures
        r@ == endpoint_spec(user@, host@, port),
{
    let mut r = concat3(user, "@", host);
    r.append(":");
    let p = u64_to_string(port as u64);
    r.append(p.as_str());
    proof {
        reveal_strlit("@");
        reveal_strlit(":");
    }
    r
}

/// Columns joined by single spaces, each padded to its width; the last is not padded.
pub open spec fn table_line(cols: Seq<Seq<char>>, widths: Seq<nat>, last: Seq<char>) -> Seq<char>
    decreases cols.len(),
{
    if cols.len() == 0 || widths.len() == 0 {
        last
    } else {
        pad_right(cols[0], widths[0]) + " "@ + table_line(cols.drop_first(), widths.drop_first(), last)
    }
}

fn table_line_exec(cols: &Vec<String>, widths: &Vec<usize>, last: &str) -> (r: String)
    requires
        cols@.len() == widths@.len(),
    ensures
        r@ == table_line(strings_view(cols@), widths@.map_values(|w: usize| w as nat), last@),
{
    let mut out = String::new();
    let mut i: usize = 0;
    let ghost cs = strings_view(cols@);
    let ghost ws = widths@.map_values(|w: usize| w as nat);
    proof {
        reveal_strlit(" ");
        assert(cs.skip(0) =~= cs);
        assert(ws.skip(0) =~= ws);
    }
    while i < cols.len()
        invariant
            i <= cols@.len(),
            cols@.len() == widths@.len(),
            cs == strings_view(cols@),
            ws == widths@.map_values(|w: usize| w as nat),
            out@ + table_line(cs.skip(i as int), ws.skip(i as int), last@) == table_line(cs, ws, last@),
        decreases cols.len() - i,
    {
        let cell = pad_text(cols[i].as_str(), widths[i]);
        proof {
            assert(cs.skip(i as int)[0] == cols@[i as int]@);
            assert(ws.skip(i as int)[0] == widths@[i as int] as nat);
            assert(cs.skip(i as int).drop_first() =~= cs.skip(i + 1));
            assert(ws.skip(i as int).drop_first() =~= ws.skip(i + 1));
        }
        let ghost before = out@;
        out.append(cell.as_str());
        out.append(" ");
        proof {
            assert(out@ =~= before + pad_right(cols@[i as int]@, widths@[i as int] as nat) + " "@);
            assert(out@ + table_line(cs.skip(i + 1), ws.skip(i + 1), last@) =~= before + table_line(
                cs.skip(i as int),
                ws.skip(i as int),
                last@,
            ));
        }
        i = i + 1;
    }
    out.append(last);
    proof {
        assert(cs.skip(i as int).len() == 0);
    }
    out
}

/// The widths of the recent-sessions table.
pub open spec fn recent_widths() -> Seq<nat> {
    seq![16, 20, 28, 6, 8, 20]
}

fn widths_of(a: usize, b: usize, c: usize, d: usize, e: usize, f: usize) -> (r: Vec<usize>)
    ensures
        r@ == seq![a, b, c, d, e, f],
{
    let mut r: Vec<usize> = Vec::new();
    r.push(a);
    r.push(b);
    r.push(c);
    r.push(d);
    r.push(e);
    r.push(f);
    assert(r@ =~= seq![a, b, c, d, e, f]);
    r
}

fn six(a: String, b: String, c: String, d: String, e: String, f: String) -> (r: Vec<String>)
    ensures
        strings_view(r@) == seq![a@, b@, c@, d@, e@, f@],
{
    let mut r: Vec<String> = Vec::new();
    r.push(a);
    r.push(b);
    r.push(c);
    r.push(d);
    r.push(e);
    r.push(f);
    assert(strings_view(r@) =~= seq![a@, b@, c@, d@, e@, f@]);
    r
}

proof fn lemma_widths_view(a: usize, b: usize, c: usize, d: usize, e: usize, f: usize)
    ensures
        seq![a, b, c, d, e, f].map_values(|w: usize| w as nat) == seq![a as nat, b as nat, c as nat, d as nat, e as nat, f as nat],
{
    assert(seq![a, b, c, d, e, f].map_values(|w: usize| w as nat) =~= seq![a as nat, b as nat, c as nat, d as nat, e as nat, f as nat]);
}

/// The header of the recent-sessions table.
pub fn recent_header() -> (r: String)
    ensures
        r@ == table_line(
            seq!["profile_id"@, "name"@, "endpoint"@, "type"@, "danger"@, "last_connected"@],
            recent_widths(),
            "status"@,
        ),
{
    let cols = six(
        owned("profile_id"),
        owned("name"),
        owned("endpoint"),
        owned("type"),
        owned("danger"),
        owned("last_connected"),
    );
    let widths = widths_of(16, 20, 28, 6, 8, 20);
    proof {
        lemma_widths_view(16, 20, 28, 6, 8, 20);
    }
    table_line_exec(&cols, &widths, "status")
}

/// One row of the recent-sessions table; `last_connected` is the time as shown.
pub fn recent_line(item: &RecentSshSession, last_connected: &str) -> (r: String)
    ensures
        r@ == table_line(
            seq![
                item.profile_id@,
                item.name@,
                endpoint_spec(item.user@, item.host@, item.port),
                item.profile_type@,
                item.danger_level@,
                last_connected@,
            ],
            recent_widths(),
            recent_status_spec(item.last_ok, item.last_exit_code),
        ),
{
    let cols = six(
        item.profile_id.clone(),
        item.name.clone(),
        endpoint(item.user.as_str(), item.host.as_str(), item.port),
        item.profile_type.clone(),
        item.danger_level.clone(),
        owned(last_connected),
    );
    let widths = widths_of(16, 20, 28, 6, 8, 20);
    proof {
        lemma_widths_view(16, 20, 28, 6, 8, 20);
    }
    let status = format_recent_status(item.last_ok, item.last_exit_code);
    table_line_exec(&cols, &widths, status.as_str())
}

/// The widths of the session-log table.
pub open spec fn session_widths() -> Seq<nat> {
    seq![14, 16, 28, 20, 12, 18]
}

/// The header of the session-log table.
pub fn session_list_header() -> (r: String)
    ensures
        r@ == table_line(
            seq!["session_id"@, "profile_id"@, "endpoint"@, "started"@, "duration"@, "status"@],
            session_widths(),
            "log_path"@,
        ),
{
    let cols = six(
        owned("session_id"),
        owned("profile_id"),
        owned("endpoint"),
        owned("started"),
        owned("duration"),
        owned("status"),
    );
    let widths = widths_of(14, 16, 28, 20, 12, 18);
    proof {
        lemma_widths_view(14, 16, 28, 20, 12, 18);
    }
    table_line_exec(&cols, &widths, "log_path")
}

/// One row of the session-log table, each cell cut to its column; `started` and `duration`
/// are the times as shown and `log_path` the path as shown.
pub fn session_list_line(item: &SessionLogMetadata, started: &str, duration: &str, log_path: &str) -> (r: String)
    ensures
        r@ == table_line(
            seq![
                table_cell_spec(item.session_id@, 14),
                table_cell_spec(item.profile_id@, 16),
                table_cell_spec(endpoint_spec(item.user@, item.host@, item.port), 28),
                table_cell_spec(started@, 20),
                table_cell_spec(duration@, 12),
                table_cell_spec(session_status_spec(item.status@, item.exit_code), 18),
            ],
            session_widths(),
            log_path@,
        ),
{
    let ep = endpoint(item.user.as_str(), item.host.as_str(), item.port);
    let status = format_session_status(item);
    let cols = six(
        table_cell(item.session_id.as_str(), 14),
        table_cell(item.profile_id.as_str(), 16),
        table_cell(ep.as_str(), 28),
        table_cell(started, 20),
        table_cell(duration, 12),
        table_cell(status.as_str(), 18),
    );
    let widths = widths_of(14, 16, 28, 20, 12, 18);
    proof {
        lemma_widths_view(14, 16, 28, 20, 12, 18);
    }
    table_line_exec(&cols, &widths, log_path)
}

/// One row of the profile list.
pub fn profile_line(p: &Profile) -> (r: String)
    ensures
        r@ == table_line(
            seq![
                p.profile_id@,
                p.name@,
                profile_type_name(p.profile_type),
                p.host@,
                p.user@,
                decimal(p.port as nat),
            ],
            seq![16, 10, 5, 15, 12, 8],
            danger_name(p.danger_level),
        ),
{
    let cols = six(
        p.profile_id.clone(),
        p.name.clone(),
        owned(p.profile_type.as_str()),
        p.host.clone(),
        p.user.clone(),
        u64_to_string(p.port as u64),
    );
    let widths = widths_of(16, 10, 5, 15, 12, 8);
    proof {
        lemma_widths_view(16, 10, 5, 15, 12, 8);
    }
    table_line_exec(&cols, &widths, p.danger_level.as_str())
}

/// `true` or `false`.
pub open spec fn bool_text(b: bool) -> Seq<char> {
    if b {
        "true"@
    } else {
        "false"@
    }
}

fn bool_string(b: bool) -> (r: String)
    ensures
        r@ == bool_text(b),
{
    proof {
        reveal_strlit("true");
        reveal_strlit("false");
    }
    if b {
        owned("true")
    } else {
        owned("false")
    }
}

/// A command as the diagnostics show it: its path, else its note, else `unknown`.
pub open spec fn command_text(path: Option<Seq<char>>, note: Option<Seq<char>>) -> Seq<char> {
    match path {
        Some(p) => p,
        None => match note {
            Some(n) => n,
            None => "unknown"@,
        },
    }
}

fn command_string(path: &Option<String>, note: &Option<String>) -> (r: String)
    ensures
        r@ == command_text(
            match path {
                Some(p) => Some(p@),
                None => None,
            },
            match note {
                Some(n) => Some(n@),
                None => None,
            },
        ),
{
    proof {
        reveal_strlit("unknown");
    }
    match path {
        Some(p) => p.clone(),
        None => match note {
            Some(n) => n.clone(),
            None => owned("unknown"),
        },
    }
}

/// The optional view of a text.
pub open spec fn opt_text(o: Option<String>) -> Option<Seq<char>> {
    match o {
        Some(s) => Some(s@),
        None => None,
    }
}

/// The first lines of the diagnostics: the heading and one line per field.
pub open spec fn diagnostics_head(d: SessionLogDiagnostics) -> Seq<Seq<char>> {
    diagnostics_head_a(d) + diagnostics_head_b(d)
}

/// The heading and the settings lines of the diagnostics.
pub open spec fn diagnostics_head_a(d: SessionLogDiagnostics) -> Seq<Seq<char>> {
    seq![
        "Session logging diagnostics"@,
        ""@,
        "enabled: "@ + bool_text(d.enabled),
        "backend setting: "@ + d.backend_setting@,
        "resolved backend: "@ + d.resolved_backend@,
        "script command: "@ + command_text(opt_text(d.script_command), opt_text(d.script_command_note)),
        "powershell command: "@ + command_text(
            opt_text(d.powershell_command),
            opt_text(d.powershell_command_note),
        ),
        "ssh command: "@ + command_text(opt_text(d.ssh_command), opt_text(d.ssh_command_note)),
    ]
}

/// The directory and platform lines of the diagnostics.
pub open spec fn diagnostics_head_b(d: SessionLogDiagnostics) -> Seq<Seq<char>> {
    seq![
        "log directory: "@ + d.log_directory@,
        "log directory exists: "@ + bool_text(d.log_directory_exists),
        "log directory writable: "@ + match d.log_directory_writable {
            Some(b) => bool_text(b),
            None => "unknown"@,
        },
        "last session log: "@ + match d.last_session_log {
            Some(s) => s@,
            None => "none"@,
        },
        "platform: "@ + d.platform@,
        "platform supported: "@ + bool_text(d.platform_supported),
    ]
}

/// The fallback line, when there is a fallback reason.
pub open spec fn diagnostics_fallback(d: SessionLogDiagnostics) -> Seq<Seq<char>> {
    match d.fallback_reason {
        Some(r) => seq!["fallback reason: "@ + r@],
        None => seq![],
    }
}

/// The ConPTY lines shown on Windows.
pub open spec fn diagnostics_windows(d: SessionLogDiagnostics) -> Seq<Seq<char>> {
    if d.platform@ == "windows"@ {
        seq![
            ""@,
            "ConPTY backend: experimental_ready"@,
            "ConPTY PoC command: td session conpty-test <profile_id>"@,
            "Reason: manual smoke succeeded, but TUI integration and broader Windows validation are pending."@,
        ]
    } else {
        seq![]
    }
}

/// The status lines: none when logging is disabled.
pub open spec fn diagnostics_status(d: SessionLogDiagnostics) -> Seq<Seq<char>> {
    if d.status@ == "ready"@ {
        seq![""@, "Status: ready"@]
    } else if d.status@ != "disabled"@ {
        seq![""@, "Status: "@ + d.status@]
    } else {
        seq![]
    }
}

/// The hint lines, one per hint.
pub open spec fn diagnostics_hints_lines(d: SessionLogDiagnostics) -> Seq<Seq<char>> {
    if d.hints@.len() > 0 {
        seq![""@, "Hints:"@] + strings_view(d.hints@).map_values(|h: Seq<char>| "- "@ + h)
    } else {
        seq![]
    }
}

/// The lines that describe the session-logging diagnostics.
pub open spec fn diagnostics_lines_spec(d: SessionLogDiagnostics) -> Seq<Seq<char>> {
    diagnostics_head(d) + diagnostics_fallback(d) + diagnostics_windows(d) + diagnostics_status(d)
        + diagnostics_hints_lines(d)
}

fn push_line(lines: &mut Vec<String>, line: String)
    ensures
        strings_view(final(lines)@) == strings_view(old(lines)@).push(line@),
{
    let ghost before = strings_view(lines@);
    lines.push(line);
    assert(strings_view(lines@) =~= before.push(line@));
}

fn diagnostics_head_a_lines(d: &SessionLogDiagnostics) -> (r: Vec<String>)
    ensures
        strings_view(r@) == diagnostics_head_a(*d),
{
    proof {
        reveal_strlit("Session logging diagnostics");
        reveal_strlit("");
        reveal_strlit("enabled: ");
        reveal_strlit("backend setting: ");
        reveal_strlit("resolved backend: ");
        reveal_strlit("script command: ");
        reveal_strlit("powershell command: ");
        reveal_strlit("ssh command: ");
        reveal_strlit("log directory: ");
        reveal_strlit("log directory exists: ");
        reveal_strlit("log directory writable: ");
        reveal_strlit("unknown");
        reveal_strlit("last session log: ");
        reveal_strlit("none");
        reveal_strlit("platform: ");
        reveal_strlit("platform supported: ");
    }
    let mut lines: Vec<String> = Vec::new();
    push_line(&mut lines, owned("Session logging diagnostics"));
    push_line(&mut lines, String::new());
    push_line(&mut lines, concat2("enabled: ", bool_string(d.enabled).as_str()));
    push_line(&mut lines, concat2("backend setting: ", d.backend_setting.as_str()));
    push_line(&mut lines, concat2("resolved backend: ", d.resolved_backend.as_str()));
    push_line(
        &mut lines,
        concat2("script command: ", command_string(&d.script_command, &d.script_command_note).as_str()),
    );
    push_line(
        &mut lines,
        concat2(
            "powershell command: ",
            command_string(&d.powershell_command, &d.powershell_command_note).as_str(),
        ),
    );
    push_line(&mut lines, concat2("ssh command: ", command_string(&d.ssh_command, &d.ssh_command_note).as_str()));
    let ghost v = strings_view(lines@);
    let ghost w = diagnostics_head_a(*d);
    assert(v.len() == w.len());
    assert(v[0] == w[0]);
    assert(v[1] == w[1]);
    assert(v[2] == w[2]);
    assert(v[3] == w[3]);
    assert(v[4] == w[4]);
    assert(v[5] == w[5]);
    assert(v[6] == w[6]);
    assert(v[7] == w[7]);
    assert(strings_view(lines@) =~= diagnostics_head_a(*d));
    lines
}

fn diagnostics_head_b_lines(d: &SessionLogDiagnostics) -> (r: Vec<String>)
    ensures
        strings_view(r@) == diagnostics_head_b(*d),
{
    proof {
        reveal_strlit("Session logging diagnostics");
        reveal_strlit("");
        reveal_strlit("enabled: ");
        reveal_strlit("backend setting: ");
        reveal_strlit("resolved backend: ");
        reveal_strlit("script command: ");
        reveal_strlit("powershell command: ");
        reveal_strlit("ssh command: ");
        reveal_strlit("log directory: ");
        reveal_strlit("log directory exists: ");
        reveal_strlit("log directory writable: ");
        reveal_strlit("unknown");
        reveal_strlit("last session log: ");
        reveal_strlit("none");
        reveal_strlit("platform: ");
        reveal_strlit("platform supported: ");
    }
    let mut lines: Vec<String> = Vec::new();
    push_line(&mut lines, concat2("log directory: ", d.log_directory.as_str()));
    push_line(&mut lines, concat2("log directory exists: ", bool_string(d.log_directory_exists).as_str()));
    let writable = match d.log_directory_writable {
        Some(b) => bool_string(b),
        None => owned("unknown"),
    };
    push_line(&mut lines, concat2("log directory writable: ", writable.as_str()));
    let last = match &d.last_session_log {
        Some(s) => s.clone(),
        None => owned("none"),
    };
    push_line(&mut lines, concat2("last session log: ", last.as_str()));
    push_line(&mut lines, concat2("platform: ", d.platform.as_str()));
    push_line(&mut lines, concat2("platform supported: ", bool_string(d.platform_supported).as_str()));

    assert(strings_view(lines@) =~= diagnostics_head_b(*d));
    lines
}

/// The lines that describe the session-logging diagnostics.
#[verifier::spinoff_prover]
#[verifier::rlimit(40)]
pub fn diagnostics_lines(d: &SessionLogDiagnostics) -> (r: Vec<String>)
    ensures
        strings_view(r@) == diagnostics_lines_spec(*d),
{
    proof {
        reveal_strlit("Session logging diagnostics");
        reveal_strlit("");
        reveal_strlit("enabled: ");
        reveal_strlit("backend setting: ");
        reveal_strlit("resolved backend: ");
        reveal_strlit("script command: ");
        reveal_strlit("powershell command: ");
        reveal_strlit("ssh command: ");
        reveal_strlit("log directory: ");
        reveal_strlit("log directory exists: ");
        reveal_strlit("log directory writable: ");
        reveal_strlit("unknown");
        reveal_strlit("last session log: ");
        reveal_strlit("none");
        reveal_strlit("platform: ");
        reveal_strlit("platform supported: ");
        reveal_strlit("fallback reason: ");
        reveal_strlit("windows");
        reveal_strlit("ConPTY backend: experimental_ready");
        reveal_strlit("ConPTY PoC command: td session conpty-test <profile_id>");
        reveal_strlit(
            "Reason: manual smoke succeeded, but TUI integration and broader Windows validation are pending.",
        );
        reveal_strlit("ready");
        reveal_strlit("Status: ready");
        reveal_strlit("disabled");
        reveal_strlit("Status: ");
        reveal_strlit("Hints:");
        reveal_strlit("- ");
    }
    let mut lines = diagnostics_head_a_lines(d);
    let mut rest = diagnostics_head_b_lines(d);
    let ghost a = strings_view(lines@);
    let ghost b = strings_view(rest@);
    lines.append(&mut rest);
    proof {
        assert(strings_view(lines@) =~= a + b);
    }
    let ghost head = strings_view(lines@);
    assert(head =~= diagnostics_head(*d));
    match &d.fallback_reason {
        Some(r) => push_line(&mut lines, concat2("fallback reason: ", r.as_str())),
        None => {},
    }
    let ghost after_fallback = strings_view(lines@);
    assert(after_fallback =~= head + diagnostics_fallback(*d));
    if crate::text::str_eq(d.platform.as_str(), "windows") {
        push_line(&mut lines, String::new());
        push_line(&mut lines, owned("ConPTY backend: experimental_ready"));
        push_line(&mut lines, owned("ConPTY PoC command: td session conpty-test <profile_id>"));
        push_line(
            &mut lines,
            owned(
                "Reason: manual smoke succeeded, but TUI integration and broader Windows validation are pending.",
            ),
        );
        let ghost v = strings_view(lines@);
        let ghost w = after_fallback + diagnostics_windows(*d);
        assert(v.len() == w.len());
        assert(v[v.len() - 4] == w[w.len() - 4]);
        assert(v[v.len() - 3] == w[w.len() - 3]);
        assert(v[v.len() - 2] == w[w.len() - 2]);
        assert(v[v.len() - 1] == w[w.len() - 1]);
        assert(v =~= w);
    } else {
        assert(after_fallback + diagnostics_windows(*d) =~= after_fallback);
    }
    let ghost after_windows = strings_view(lines@);
    assert(after_windows =~= after_fallback + diagnostics_windows(*d));
    if crate::text::str_eq(d.status.as_str(), "ready") {
        push_line(&mut lines, String::new());
        push_line(&mut lines, owned("Status: ready"));
        let ghost v = strings_view(lines@);
        let ghost w = after_windows + diagnostics_status(*d);
        assert(v[v.len() - 2] == w[w.len() - 2]);
        assert(v =~= w);
    } else if !crate::text::str_eq(d.status.as_str(), "disabled") {
        push_line(&mut lines, String::new());
        push_line(&mut lines, concat2("Status: ", d.status.as_str()));
        let ghost v = strings_view(lines@);
        let ghost w = after_windows + diagnostics_status(*d);
        assert(v[v.len() - 2] == w[w.len() - 2]);
        assert(v =~= w);
    } else {
        assert(after_windows + diagnostics_status(*d) =~= after_windows);
    }
    let ghost after_status = strings_view(lines@);
    assert(after_status =~= after_windows + diagnostics_status(*d));
    if d.hints.len() > 0 {
        push_line(&mut lines, String::new());
        push_line(&mut lines, owned("Hints:"));
        let ghost base = strings_view(lines@);
        assert(base[base.len() - 2] == ""@);
        assert(base =~= after_status + seq![""@, "Hints:"@]);
        let mut i: usize = 0;
        while i < d.hints.len()
            invariant
                i <= d.hints@.len(),
                strings_view(lines@) == base + strings_view(d.hints@).take(i as int).map_values(
                    |h: Seq<char>| "- "@ + h,
                ),
            decreases d.hints.len() - i,
        {
            let ghost before = strings_view(lines@);
            push_line(&mut lines, concat2("- ", d.hints[i].as_str()));
            proof {
                assert(strings_view(d.hints@).take(i + 1).map_values(|h: Seq<char>| "- "@ + h) =~= strings_view(
                    d.hints@,
                ).take(i as int).map_values(|h: Seq<char>| "- "@ + h).push("- "@ + d.hints@[i as int]@));
            }
            i = i + 1;
        }
        proof {
            assert(strings_view(d.hints@).take(d.hints@.len() as int) =~= strings_view(d.hints@));
            assert(strings_view(lines@) =~= after_status + diagnostics_hints_lines(*d));
        }
    } else {
        assert(after_status + diagnostics_hints_lines(*d) =~= after_status);
    }
    assert(strings_view(lines@) =~= after_status + diagnostics_hints_lines(*d));
    lines
}

} // verus!
