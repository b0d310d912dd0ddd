use vstd::prelude::*;

use crate::settings::opt_view;
use crate::text::{
    ascii_lower, chars_ascii_lower, chars_of, concat2, owned, pieces_view, split, split_chars,
    string_from_chars, strings_view, trim, trim_chars,
};

verus! {

/// The state of the ssh agent.
#[derive(Debug, Clone)]
pub struct AgentStatus {
    pub auth_sock: Option<String>,
    pub key_count: Option<usize>,
    pub keys: Vec<String>,
    pub error: Option<String>,
}

/// The keys the ssh agent holds, as `ssh-add -l` lists them.
#[derive(Debug, Clone)]
pub struct AgentList {
    pub keys: Vec<String>,
    pub raw: String,
    pub error: Option<String>,
}

/// The message given when no agent socket is set.
pub open spec fn no_socket_message() -> Seq<char> {
    "SSH_AUTH_SOCK is not set; ssh-agent may be unavailable."@
}

/// The non-blank lines of a text, each trimmed.
pub open spec fn key_lines(pieces: Seq<Seq<char>>) -> Seq<Seq<char>>
    decreases pieces.len(),
{
    if pieces.len() == 0 {
        seq![]
    } else {
        key_lines(pieces.drop_last()) + if trim(pieces.last()).len() > 0 {
            seq![trim(pieces.last())]
        } else {
            seq![]
        }
    }
}

/// The keys listed in `ssh-add -l` output: its non-blank lines, trimmed.
pub fn extract_keys(text: &str) -> (r: Vec<String>)
    ensures
        strings_view(r@) == key_lines(split(text@, '\n')),
{
    let chars = chars_of(text);
    let pieces = split_chars(&chars, '\n');
    let ghost all = pieces_view(pieces@);
    let mut keys: Vec<String> = Vec::new();
    let mut i: usize = 0;
    while i < pieces.len()
        invariant
            i <= pieces.len(),
            all == pieces_view(pieces@),
            all == split(text@, '\n'),
            strings_view(keys@) == key_lines(all.take(i as int)),
        decreases pieces.len() - i,
    {
        let ghost before = strings_view(keys@);
        assert(all.take(i + 1).drop_last() =~= all.take(i as int));
        assert(all.take(i + 1).last() == pieces@[i as int]@);
        let t = trim_chars(&pieces[i]);
        if t.len() > 0 {
            let line = string_from_chars(&t);
            keys.push(line);
            assert(strings_view(keys@) =~= before.push(t@));
        }
        i = i + 1;
        assert(strings_view(keys@) =~= key_lines(all.take(i as int)));
    }
    assert(all.take(pieces.len() as int) =~= all);
    keys
}

/// Whether `p` occurs in `s`.
pub open spec fn contains_text(s: Seq<char>, p: Seq<char>) -> bool {
    exists|i: int| 0 <= i && i + p.len() <= s.len() && #[trigger] s.subrange(i, i + p.len()) == p
}

fn find_text(v: &Vec<char>, p: &Vec<char>) -> (r: bool)
    ensures
        r == contains_text(v@, p@),
{
    if p.len() > v.len() {
        assert(!contains_text(v@, p@));
        return false;
    }
    let mut i: usize = 0;
    let last = v.len() - p.len();
    while i <= last
        invariant
            p.len() <= v.len(),
            last == v.len() - p.len(),
            i <= last + 1,
            forall|k: int| 0 <= k < i ==> #[trigger] v@.subrange(k, k + p@.len()) != p@,
        decreases v.len() - i,
    {
        let mut j: usize = 0;
        let mut same = true;
        while j < p.len() && same
            invariant
                j <= p.len(),
                i + p.len() <= v.len(),
                same == (forall|m: int| 0 <= m < j ==> v@[i + m] == p@[m]),
            decreases p.len() - j,
        {
            if v[i + j] != p[j] {
                same = false;
            }
            j = j + 1;
        }
        if same {
            assert(v@.subrange(i as int, i + p@.len()) =~= p@);
            return true;
        }
        assert(v@.subrange(i as int, i + p@.len()) != p@) by {
            let m = choose|m: int| 0 <= m < j && v@[i + m] != p@[m];
            assert(v@.subrange(i as int, i + p@.len())[m] == v@[i + m]);
        }
        i = i + 1;
    }
    false
}

/// Whether the agent says it holds no keys.
pub open spec fn says_no_identities(text: Seq<char>) -> bool {
    contains_text(ascii_lower(text), "the agent has no identities"@)
}

/// Whether the agent says it holds no keys (in any case).
pub fn contains_no_identities(text: &str) -> (r: bool)
    ensures
        r == says_no_identities(text@),
{
    let v = chars_of(text);
    let l = chars_ascii_lower(&v);
    let p = chars_of("the agent has no identities");
    find_text(&l, &p)
}

/// What the listing of `ssh-add -l` reports, from its output and exit status (`status_text`
/// is the status as the system prints it): the keys unless the agent says it has none, the
/// output shown, and the error unless the command succeeded or the agent is merely empty.
pub fn parse_list_output(stdout: &str, stderr: &str, success: bool, status_text: &str) -> (r:
    AgentList)
    ensures
        ({
            let out = trim(stdout@);
            let err = trim(stderr@);
            let empty = says_no_identities(out) || says_no_identities(err);
            &&& strings_view(r.keys@) == if empty {
                Seq::empty()
            } else {
                key_lines(split(out, '\n'))
            }
            &&& r.raw@ == if out.len() > 0 {
                out
            } else {
                err
            }
            &&& opt_view(r.error) == if success || empty {
                None
            } else if err.len() > 0 {
                Some(err)
            } else if out.len() > 0 {
                Some(out)
            } else {
                Some("ssh-add -l failed with status "@ + status_text@)
            }
        }),
{
    let out_chars = chars_of(stdout);
    let out = string_from_chars(&trim_chars(&out_chars));
    let err_chars = chars_of(stderr);
    let err = string_from_chars(&trim_chars(&err_chars));
    let mut keys = extract_keys(out.as_str());
    let empty = contains_no_identities(out.as_str()) || contains_no_identities(err.as_str());
    if empty {
        keys = Vec::new();
        assert(strings_view(keys@) =~= Seq::<Seq<char>>::empty());
    }
    let raw = if !out.as_str().is_empty() {
        out.clone()
    } else {
        err.clone()
    };
    let error = if success || empty {
        None
    } else if !err.as_str().is_empty() {
        Some(err)
    } else if !out.as_str().is_empty() {
        Some(out)
    } else {
        Some(concat2("ssh-add -l failed with status ", status_text))
    };
    AgentList { keys, raw, error }
}

/// The agent socket named by the environment: none when unset or blank.
pub fn agent_socket(raw: Option<String>) -> (r: Option<String>)
    ensures
        opt_view(r) == match raw {
            Some(s) => if s@.len() == 0 {
                None
            } else {
                Some(s@)
            },
            None => None,
        },
{
    match raw {
        Some(s) => if s.as_str().is_empty() {
            None
        } else {
            Some(s)
        },
        None => None,
    }
}

/// The listing when no agent socket is set.
pub fn list_without_socket() -> (r: AgentList)
    ensures
        r.keys@.len() == 0,
        r.raw@.len() == 0,
        opt_view(r.error) == Some(no_socket_message()),
{
    AgentList {
        keys: Vec::new(),
        raw: String::new(),
        error: Some(owned("SSH_AUTH_SOCK is not set; ssh-agent may be unavailable.")),
    }
}

/// The listing when `ssh-add -l` could not be run; `err` is the failure's text.
pub fn list_run_failed(err: &str) -> (r: AgentList)
    ensures
        r.keys@.len() == 0,
        r.raw@.len() == 0,
        opt_view(r.error) == Some("failed to run ssh-add -l: "@ + err@),
{
    AgentList {
        keys: Vec::new(),
        raw: String::new(),
        error: Some(concat2("failed to run ssh-add -l: ", err)),
    }
}

/// The agent's state: with no socket set, the message saying so; otherwise the listing, and the
/// number of keys when the listing succeeded.
pub fn status_from(auth_sock: Option<String>, list: AgentList) -> (r: AgentStatus)
    ensures
        auth_sock is None ==> (r.auth_sock is None && r.key_count is None && r.keys@.len() == 0
            && opt_view(r.error) == Some(no_socket_message())),
        auth_sock is Some ==> (opt_view(r.auth_sock) == opt_view(auth_sock) && r.keys@ == list.keys@
            && r.error == list.error && r.key_count == if list.error is None {
            Some(list.keys@.len() as usize)
        } else {
            None::<usize>
        }),
{
    if auth_sock.is_none() {
        return AgentStatus {
            auth_sock: None,
            key_count: None,
            keys: Vec::new(),
            error: Some(owned("SSH_AUTH_SOCK is not set; ssh-agent may be unavailable.")),
        };
    }
    let key_count = if list.error.is_none() {
        Some(list.keys.len())
    } else {
        None
    };
    AgentStatus { auth_sock, key_count, keys: list.keys, error: list.error }
}

} // verus!
