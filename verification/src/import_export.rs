use vstd::prelude::*;

use crate::configset::ConfigFileWhen;
use crate::crypto::{aead_error_text, message_fits, MasterKey, NONCE_LEN};
use crate::error::{error_text, CoreError};
use crate::profile::Profile;
use crate::secret::{open_secret, opened_secret, seal_secret, SealedSecret};
use crate::text::{
    concat2, concat3, decimal, digit_char, owned, str_eq, strings_view, u64_to_string,
};

verus! {

/// What an import does with a name that is already taken.
#[derive(Debug, Clone, Copy, PartialEq, Eq, Structural)]
pub enum ConflictStrategy {
    Reject,
    Rename,
}

/// An export of the whole store.
#[derive(Debug, Clone)]
pub struct ExportDocument {
    pub version: u32,
    pub profiles: Vec<Profile>,
    pub cmdsets: Vec<ExportCmdSet>,
    pub parsers: Vec<ExportParser>,
    pub configs: Vec<ExportConfigSet>,
    pub secrets: Vec<ExportSecret>,
}

/// An exported command set; `vars` holds its variables as JSON text.
#[derive(Debug, Clone)]
pub struct ExportCmdSet {
    pub cmdset_id: String,
    pub name: String,
    pub vars: Option<String>,
    pub steps: Vec<ExportCmdStep>,
}

/// An exported step of a command set.
#[derive(Debug, Clone)]
pub struct ExportCmdStep {
    pub ord: i64,
    pub cmd: String,
    pub timeout_ms: Option<u64>,
    pub on_error: String,
    pub parser_spec: String,
}

/// An exported parser.
#[derive(Debug, Clone)]
pub struct ExportParser {
    pub parser_id: String,
    pub parser_type: String,
    pub definition: String,
}

/// An exported configuration set.
#[derive(Debug, Clone)]
pub struct ExportConfigSet {
    pub config_id: String,
    pub name: String,
    pub hooks_cmdset_id: Option<String>,
    pub files: Vec<ExportConfigFile>,
}

/// An exported configuration file.
#[derive(Debug, Clone)]
pub struct ExportConfigFile {
    pub src: String,
    pub dest: String,
    pub mode: Option<String>,
    pub when: ConfigFileWhen,
}

/// An exported secret; its value is present only when secrets were exported.
#[derive(Debug, Clone)]
pub struct ExportSecret {
    pub secret_id: String,
    pub kind: String,
    pub label: String,
    pub created_at: i64,
    pub updated_at: i64,
    pub value: Option<String>,
}

/// How many records of each kind an import stored.
#[derive(Debug, Clone, Default, PartialEq, Eq)]
pub struct ImportReport {
    pub profiles: usize,
    pub cmdsets: usize,
    pub parsers: usize,
    pub configs: usize,
    pub secrets: usize,
    pub secrets_skipped: usize,
}

/// The outcome of checking incoming ids from position `i` on: the first id that occurs earlier
/// among the incoming ones, or that the store already holds, is refused.
pub open spec fn id_conflicts_from(existing: Set<Seq<char>>, incoming: Seq<Seq<char>>, i: int) -> Result<
    (),
    Seq<char>,
>
    decreases incoming.len() - i,
{
    if i < 0 || i >= incoming.len() {
        Ok(())
    } else if incoming.take(i).contains(incoming[i]) {
        Err("import id appears multiple times: "@ + incoming[i])
    } else if existing.contains(incoming[i]) {
        Err("import id already exists: "@ + incoming[i])
    } else {
        id_conflicts_from(existing, incoming, i + 1)
    }
}

/// The set of texts a list of strings holds.
pub open spec fn text_set(v: Seq<String>) -> Set<Seq<char>> {
    strings_view(v).to_set()
}

/// Whether the list holds the text `s`.
pub fn contains_text(v: &Vec<String>, s: &str) -> (r: bool)
    ensures
        r == text_set(v@).contains(s@),
{
    let mut i: usize = 0;
    while i < v.len()
        invariant
            i <= v.len(),
            forall|k: int| 0 <= k < i ==> v@[k]@ != s@,
        decreases v.len() - i,
    {
        if str_eq(v[i].as_str(), s) {
            assert(strings_view(v@)[i as int] == s@);
            return true;
        }
        i = i + 1;
    }
    assert(!strings_view(v@).contains(s@)) by {
        if strings_view(v@).contains(s@) {
            let k = choose|k: int| 0 <= k < strings_view(v@).len() && strings_view(v@)[k] == s@;
            assert(v@[k]@ == s@);
        }
    }
    false
}

/// Refuses ids that occur twice among the incoming ones or that the store already holds; the
/// first such id in order is named.
pub fn ensure_no_id_conflicts(existing: &Vec<String>, incoming: &Vec<String>) -> (r: Result<
    (),
    CoreError,
>)
    ensures
        match id_conflicts_from(text_set(existing@), strings_view(incoming@), 0) {
            Ok(()) => r is Ok,
            Err(m) => r matches Err(CoreError::Conflict(e)) && e@ == m,
        },
{
    let ghost inc = strings_view(incoming@);
    let mut seen: Vec<String> = Vec::new();
    let mut i: usize = 0;
    while i < incoming.len()
        invariant
            i <= incoming.len(),
            inc == strings_view(incoming@),
            strings_view(seen@) == inc.take(i as int),
            id_conflicts_from(text_set(existing@), inc, 0) == id_conflicts_from(
                text_set(existing@),
                inc,
                i as int,
            ),
        decreases incoming.len() - i,
    {
        let id = incoming[i].as_str();
        assert(inc[i as int] == id@);
        assert(text_set(seen@) =~= inc.take(i as int).to_set());
        if contains_text(&seen, id) {
            return Err(CoreError::Conflict(concat2("import id appears multiple times: ", id)));
        }
        if contains_text(existing, id) {
            return Err(CoreError::Conflict(concat2("import id already exists: ", id)));
        }
        let ghost before = strings_view(seen@);
        seen.push(owned(id));
        assert(strings_view(seen@) =~= before.push(id@));
        assert(inc.take(i + 1) =~= inc.take(i as int).push(inc[i as int]));
        i = i + 1;
    }
    Ok(())
}

/// Law: the incoming ids are accepted exactly when none occurs twice and none is already stored.
pub proof fn lemma_no_id_conflicts_iff(existing: Set<Seq<char>>, incoming: Seq<Seq<char>>)
    ensures
        id_conflicts_from(existing, incoming, 0) is Ok <==> (incoming.no_duplicates() && forall|
            k: int,
        |
            0 <= k < incoming.len() ==> !existing.contains(#[trigger] incoming[k])),
{
    lemma_no_id_conflicts_from(existing, incoming, 0);
    if incoming.no_duplicates() {
        assert forall|k: int| 0 <= k < incoming.len() implies !incoming.take(k).contains(
            #[trigger] incoming[k],
        ) by {
            if incoming.take(k).contains(incoming[k]) {
                let j = choose|j: int| 0 <= j < incoming.take(k).len() && incoming.take(k)[j] == incoming[k];
                assert(incoming[j] == incoming[k]);
            }
        }
    } else {
        let (a, b) = choose|a: int, b: int|
            0 <= a < incoming.len() && 0 <= b < incoming.len() && a != b && incoming[a]
                == incoming[b];
        if a < b {
            assert(incoming.take(b)[a] == incoming[b]);
            assert(incoming.take(b).contains(incoming[b]));
        } else {
            assert(incoming.take(a)[b] == incoming[a]);
            assert(incoming.take(a).contains(incoming[a]));
        }
    }
}

proof fn lemma_no_id_conflicts_from(existing: Set<Seq<char>>, incoming: Seq<Seq<char>>, i: int)
    requires
        0 <= i <= incoming.len(),
    ensures
        id_conflicts_from(existing, incoming, i) is Ok <==> (forall|k: int|
            i <= k < incoming.len() ==> !incoming.take(k).contains(#[trigger] incoming[k])
                && !existing.contains(incoming[k])),
    decreases incoming.len() - i,
{
    if i < incoming.len() {
        lemma_no_id_conflicts_from(existing, incoming, i + 1);
    }
}

/// The `n`-th name tried for a taken name: `<name>-imported`, then `<name>-imported-2`, ….
pub open spec fn rename_candidate(name: Seq<char>, n: nat) -> Seq<char> {
    if n <= 1 {
        name + "-imported"@
    } else {
        name + "-imported-"@ + decimal(n)
    }
}

/// Whether `n` is the first suffix whose name is free.
pub open spec fn is_first_free(names: Set<Seq<char>>, name: Seq<char>, n: nat) -> bool {
    &&& n >= 1
    &&& !names.contains(rename_candidate(name, n))
    &&& forall|m: nat| 1 <= m < n ==> names.contains(#[trigger] rename_candidate(name, m))
}

/// The name a taken name is renamed to: the first free candidate.
pub open spec fn renamed(names: Set<Seq<char>>, name: Seq<char>) -> Seq<char> {
    rename_candidate(name, choose|n: nat| is_first_free(names, name, n))
}

/// What resolving a name against the names taken gives: the name itself when it is free;
/// otherwise, by the strategy, a refusal naming the kind of record, or the renamed name.
pub open spec fn resolve_name_spec(
    names: Set<Seq<char>>,
    name: Seq<char>,
    strategy: ConflictStrategy,
    kind: Seq<char>,
) -> Result<Seq<char>, Seq<char>> {
    if !names.contains(name) {
        Ok(name)
    } else {
        match strategy {
            ConflictStrategy::Reject => Err(kind + " name already exists: "@ + name),
            ConflictStrategy::Rename => Ok(renamed(names, name)),
        }
    }
}

proof fn lemma_decimal_nonempty(n: nat)
    ensures
        decimal(n).len() >= 1,
        n >= 10 ==> decimal(n).len() >= 2,
    decreases n,
{
    if n >= 10 {
        lemma_decimal_nonempty(n / 10);
    }
}

proof fn lemma_decimal_injective(a: nat, b: nat)
    requires
        decimal(a) == decimal(b),
    ensures
        a == b,
    decreases a,
{
    lemma_decimal_nonempty(a);
    lemma_decimal_nonempty(b);
    if a < 10 && b < 10 {
        assert(decimal(a)[0] == digit_char(a));
        assert(decimal(b)[0] == digit_char(b));
        assert((digit_char(a) as u32) == a + 48);
        assert((digit_char(b) as u32) == b + 48);
    } else if a >= 10 && b >= 10 {
        assert(decimal(a).last() == digit_char(a % 10));
        assert(decimal(b).last() == digit_char(b % 10));
        assert((digit_char(a % 10) as u32) == a % 10 + 48);
        assert((digit_char(b % 10) as u32) == b % 10 + 48);
        assert(decimal(a).drop_last() =~= decimal(a / 10));
        assert(decimal(b).drop_last() =~= decimal(b / 10));
        lemma_decimal_injective(a / 10, b / 10);
    }
}

proof fn lemma_rename_candidate_injective(name: Seq<char>, a: nat, b: nat)
    requires
        a >= 1,
        b >= 1,
        rename_candidate(name, a) == rename_candidate(name, b),
    ensures
        a == b,
{
    reveal_strlit("-imported");
    reveal_strlit("-imported-");
    assert("-imported"@.len() == 9);
    assert("-imported-"@.len() == 10);
    lemma_decimal_nonempty(a);
    lemma_decimal_nonempty(b);
    if a >= 2 && b >= 2 {
        let p = name + "-imported-"@;
        assert(rename_candidate(name, a).skip(p.len() as int) =~= decimal(a));
        assert(rename_candidate(name, b).skip(p.len() as int) =~= decimal(b));
        lemma_decimal_injective(a, b);
    } else if a >= 2 {
        assert(rename_candidate(name, b) =~= name + "-imported"@);
        assert(rename_candidate(name, a) =~= name + "-imported-"@ + decimal(a));
        assert(rename_candidate(name, a).len() != rename_candidate(name, b).len());
    } else if b >= 2 {
        assert(rename_candidate(name, a) =~= name + "-imported"@);
        assert(rename_candidate(name, b) =~= name + "-imported-"@ + decimal(b));
        assert(rename_candidate(name, a).len() != rename_candidate(name, b).len());
    }
}

fn rename_candidate_exec(name: &str, n: usize) -> (r: String)
    requires
        n >= 1,
    ensures
        r@ == rename_candidate(name@, n as nat),
{
    if n == 1 {
        concat2(name, "-imported")
    } else {
        let digits = u64_to_string(n as u64);
        concat3(name, "-imported-", digits.as_str())
    }
}

/// Resolves a record's name against the names taken, and records the name chosen as taken.
pub fn resolve_name(
    names: &mut Vec<String>,
    candidate: String,
    strategy: ConflictStrategy,
    kind: &str,
) -> (r: Result<String, CoreError>)
    requires
        old(names)@.len() < usize::MAX,
    ensures
        match resolve_name_spec(text_set(old(names)@), candidate@, strategy, kind@) {
            Ok(n) => r matches Ok(x) && x@ == n && text_set(final(names)@) == text_set(
                old(names)@,
            ).insert(n) && strings_view(final(names)@) == strings_view(old(names)@).push(n),
            Err(m) => r matches Err(CoreError::Conflict(e)) && e@ == m && final(names)@ == old(
                names,
            )@,
        },
{
    let ghost taken = text_set(names@);
    let ghost orig = names@;
    if !contains_text(names, candidate.as_str()) {
        let ghost before = strings_view(names@);
        names.push(candidate.clone());
        assert(strings_view(names@) =~= before.push(candidate@));
        proof {
            before.lemma_push_to_set_commute(candidate@);
        }
        assert(text_set(names@) =~= taken.insert(candidate@));
        return Ok(candidate);
    }
    match strategy {
        ConflictStrategy::Reject => {
            let mut msg = concat2(kind, " name already exists: ");
            msg.append(candidate.as_str());
            Err(CoreError::Conflict(msg))
        },
        ConflictStrategy::Rename => {
            proof {
                vstd::seq_lib::seq_to_set_is_finite(strings_view(names@));
                strings_view(names@).lemma_cardinality_of_set();
            }
            let mut suffix: usize = 1;
            let ghost mut tried: Set<Seq<char>> = Set::empty();
            loop
                invariant
                    1 <= suffix,
                    names@ == orig,
                    orig == old(names)@,
                    taken.contains(candidate@),
                    strategy == ConflictStrategy::Rename,
                    names@.len() < usize::MAX,
                    taken == text_set(names@),
                    taken.finite(),
                    taken.len() <= names@.len(),
                    tried.finite(),
                    tried.len() == suffix - 1,
                    tried.subset_of(taken),
                    forall|x: Seq<char>|
                        tried.contains(x) ==> exists|j: nat|
                            1 <= j < suffix && x == #[trigger] rename_candidate(candidate@, j),
                    forall|m: nat|
                        1 <= m < suffix ==> taken.contains(#[trigger] rename_candidate(candidate@, m)),
                decreases taken.len() + 1 - suffix,
            {
                proof {
                    vstd::set_lib::lemma_len_subset(tried, taken);
                }
                let next = rename_candidate_exec(candidate.as_str(), suffix);
                if !contains_text(names, next.as_str()) {
                    proof {
                        assert(is_first_free(taken, candidate@, suffix as nat));
                        let n = choose|n: nat| is_first_free(taken, candidate@, n);
                        if n < suffix {
                            assert(taken.contains(rename_candidate(candidate@, n)));
                        }
                        if n > suffix {
                            assert(taken.contains(rename_candidate(candidate@, suffix as nat)));
                        }
                    }
                    let ghost before = strings_view(names@);
                    names.push(owned(next.as_str()));
                    assert(strings_view(names@) =~= before.push(next@));
                    proof {
                        before.lemma_push_to_set_commute(next@);
                    }
                    assert(text_set(names@) =~= taken.insert(next@));
                    return Ok(next);
                }
                proof {
                    if tried.contains(next@) {
                        let j = choose|j: nat|
                            1 <= j < suffix && next@ == #[trigger] rename_candidate(candidate@, j);
                        lemma_rename_candidate_injective(candidate@, j, suffix as nat);
                    }
                    tried = tried.insert(next@);
                    vstd::set_lib::lemma_len_subset(tried, taken);
                }
                suffix = suffix + 1;
            }
        },
    }
}

/// Law: a resolved name was free, and a refused name was taken. With renaming, every name is
/// resolved to a name not taken before.
pub proof fn lemma_resolved_name_is_fresh(
    names: Set<Seq<char>>,
    name: Seq<char>,
    strategy: ConflictStrategy,
    kind: Seq<char>,
)
    requires
        names.finite(),
    ensures
        resolve_name_spec(names, name, strategy, kind) matches Ok(n) ==> !names.contains(n),
        resolve_name_spec(names, name, strategy, kind) is Err ==> names.contains(name),
        strategy == ConflictStrategy::Rename ==> resolve_name_spec(names, name, strategy, kind) is Ok,
{
    if names.contains(name) && strategy == ConflictStrategy::Rename {
        lemma_first_free_exists(names, name);
    }
}

/// A finite set of names leaves some candidate free, and a first one.
proof fn lemma_first_free_exists(names: Set<Seq<char>>, name: Seq<char>)
    requires
        names.finite(),
    ensures
        exists|n: nat| is_first_free(names, name, n),
        is_first_free(names, name, choose|n: nat| is_first_free(names, name, n)),
{
    let n = lemma_first_free_from(names, name, 1, Set::empty());
    assert(is_first_free(names, name, n));
}

proof fn lemma_first_free_from(names: Set<Seq<char>>, name: Seq<char>, k: nat, tried: Set<Seq<char>>) -> (n: nat)
    requires
        k >= 1,
        names.finite(),
        tried.finite(),
        tried.len() == k - 1,
        tried.subset_of(names),
        forall|x: Seq<char>|
            tried.contains(x) ==> exists|j: nat| 1 <= j < k && x == #[trigger] rename_candidate(name, j),
        forall|m: nat| 1 <= m < k ==> names.contains(#[trigger] rename_candidate(name, m)),
    ensures
        is_first_free(names, name, n),
    decreases names.len() + 1 - k,
{
    vstd::set_lib::lemma_len_subset(tried, names);
    let c = rename_candidate(name, k);
    if !names.contains(c) {
        k
    } else {
        if tried.contains(c) {
            let j = choose|j: nat| 1 <= j < k && c == #[trigger] rename_candidate(name, j);
            lemma_rename_candidate_injective(name, j, k);
        }
        let t2 = tried.insert(c);
        vstd::set_lib::lemma_len_subset(t2, names);
        assert forall|x: Seq<char>| t2.contains(x) implies exists|j: nat|
            1 <= j < k + 1 && x == #[trigger] rename_candidate(name, j) by {
            if x == c {
                assert(1 <= k < k + 1 && x == rename_candidate(name, k));
            } else {
                let j = choose|j: nat| 1 <= j < k && x == #[trigger] rename_candidate(name, j);
                assert(1 <= j < k + 1 && x == rename_candidate(name, j));
            }
        }
        lemma_first_free_from(names, name, k + 1, t2)
    }
}

/// The names resolved in order, each against the names taken so far and the names resolved
/// before it; the first refusal ends the resolution.
pub open spec fn resolve_names(
    names: Set<Seq<char>>,
    candidates: Seq<Seq<char>>,
    strategy: ConflictStrategy,
    kind: Seq<char>,
) -> Result<Seq<Seq<char>>, Seq<char>>
    decreases candidates.len(),
{
    if candidates.len() == 0 {
        Ok(seq![])
    } else {
        match resolve_name_spec(names, candidates[0], strategy, kind) {
            Err(e) => Err(e),
            Ok(n) => match resolve_names(names.insert(n), candidates.drop_first(), strategy, kind) {
                Err(e) => Err(e),
                Ok(rest) => Ok(seq![n] + rest),
            },
        }
    }
}

/// What a whole resolution of names guarantees: one name per candidate, no name given twice,
/// none taken before, and a candidate kept wherever it was still free.
pub open spec fn fresh_names(names: Set<Seq<char>>, candidates: Seq<Seq<char>>, out: Seq<Seq<char>>) -> bool {
    &&& out.len() == candidates.len()
    &&& forall|i: int, j: int| 0 <= i < j < out.len() ==> out[i] != out[j]
    &&& forall|i: int| 0 <= i < out.len() ==> !names.contains(#[trigger] out[i])
    &&& forall|i: int|
        0 <= i < candidates.len() && !names.contains(#[trigger] candidates[i]) && !out.take(i).contains(
            candidates[i],
        ) ==> out[i] == candidates[i]
}

/// Some candidate is taken: by the names held before, or by an earlier candidate.
pub open spec fn some_name_taken(names: Set<Seq<char>>, candidates: Seq<Seq<char>>) -> bool {
    exists|i: int|
        0 <= i < candidates.len() && (names.contains(#[trigger] candidates[i]) || candidates.take(i).contains(
            candidates[i],
        ))
}

/// Law: resolving the names of a whole list. A successful resolution gives fresh names (see
/// `fresh_names`); renaming never fails; a refusal comes only when rejecting, and only for a
/// candidate taken before or by an earlier candidate.
pub proof fn lemma_resolve_names_law(
    names: Set<Seq<char>>,
    candidates: Seq<Seq<char>>,
    strategy: ConflictStrategy,
    kind: Seq<char>,
)
    requires
        names.finite(),
    ensures
        resolve_names(names, candidates, strategy, kind) matches Ok(out) ==> fresh_names(names, candidates, out),
        strategy == ConflictStrategy::Rename ==> resolve_names(names, candidates, strategy, kind) is Ok,
        resolve_names(names, candidates, strategy, kind) is Err ==> strategy == ConflictStrategy::Reject
            && some_name_taken(names, candidates),
    decreases candidates.len(),
{
    if candidates.len() > 0 {
        let c0 = candidates[0];
        let rest = candidates.drop_first();
        lemma_resolved_name_is_fresh(names, c0, strategy, kind);
        match resolve_name_spec(names, c0, strategy, kind) {
            Err(_) => {
                assert(names.contains(candidates[0]));
            },
            Ok(n) => {
                let names2 = names.insert(n);
                lemma_resolve_names_law(names2, rest, strategy, kind);
                match resolve_names(names2, rest, strategy, kind) {
                    Ok(out2) => {
                        let out = seq![n] + out2;
                        assert forall|i: int, j: int| 0 <= i < j < out.len() implies out[i] != out[j] by {
                            if i == 0 {
                                assert(out[j] == out2[j - 1]);
                                assert(!names2.contains(out2[j - 1]));
                            } else {
                                assert(out[i] == out2[i - 1] && out[j] == out2[j - 1]);
                            }
                        }
                        assert forall|i: int| 0 <= i < out.len() implies !names.contains(#[trigger] out[i]) by {
                            if i > 0 {
                                assert(out[i] == out2[i - 1]);
                                assert(!names2.contains(out2[i - 1]));
                            }
                        }
                        assert forall|i: int|
                            0 <= i < candidates.len() && !names.contains(#[trigger] candidates[i])
                                && !out.take(i).contains(candidates[i]) implies out[i] == candidates[i] by {
                            if i > 0 {
                                assert(out.take(i)[0] == n);
                                assert(candidates[i] != n);
                                assert(rest[i - 1] == candidates[i]);
                                assert(!names2.contains(rest[i - 1]));
                                if out2.take(i - 1).contains(rest[i - 1]) {
                                    let k = choose|k: int| 0 <= k < out2.take(i - 1).len() && #[trigger] out2.take(i - 1)[k]
                                        == rest[i - 1];
                                    assert(out.take(i)[k + 1] == out2.take(i - 1)[k]);
                                }
                                assert(out[i] == out2[i - 1]);
                            }
                        }
                        assert(resolve_names(names, candidates, strategy, kind) == Ok::<
                            Seq<Seq<char>>,
                            Seq<char>,
                        >(out));
                    },
                    Err(_) => {
                        assert(strategy == ConflictStrategy::Reject);
                        assert(!names.contains(c0));
                        assert(n == c0);
                        let i = choose|i: int|
                            0 <= i < rest.len() && (names2.contains(#[trigger] rest[i]) || rest.take(i).contains(
                                rest[i],
                            ));
                        assert(candidates[i + 1] == rest[i]);
                        if names2.contains(rest[i]) && !names.contains(rest[i]) {
                            assert(candidates.take(i + 1)[0] == c0);
                        } else if rest.take(i).contains(rest[i]) {
                            let k = choose|k: int| 0 <= k < rest.take(i).len() && #[trigger] rest.take(i)[k] == rest[i];
                            assert(candidates.take(i + 1)[k + 1] == rest.take(i)[k]);
                        }
                        assert(some_name_taken(names, candidates));
                    },
                }
            },
        }
    } else {
        assert(resolve_names(names, candidates, strategy, kind) == Ok::<Seq<Seq<char>>, Seq<char>>(
            seq![],
        ));
    }
}

/// `done` put before the names of a resolution that succeeded.
pub open spec fn after(done: Seq<Seq<char>>, r: Result<Seq<Seq<char>>, Seq<char>>) -> Result<
    Seq<Seq<char>>,
    Seq<char>,
> {
    match r {
        Ok(rest) => Ok(done + rest),
        Err(e) => Err(e),
    }
}

/// A configuration set as the import reads it: id, hook command set, name.
pub open spec fn config_key(c: ExportConfigSet) -> (Seq<char>, Option<Seq<char>>, Seq<char>) {
    (
        c.config_id@,
        match c.hooks_cmdset_id {
            Some(h) => Some(h@),
            None => None,
        },
        c.name@,
    )
}

/// Why an import is refused: a conflict, or another import error, with its message.
pub enum ImportRefusal {
    Conflict(Seq<char>),
    Import(Seq<char>),
}

/// The configuration sets' names resolved in order; before its name, each set's hook command
/// set must be available.
pub open spec fn resolve_configs(
    names: Set<Seq<char>>,
    configs: Seq<(Seq<char>, Option<Seq<char>>, Seq<char>)>,
    available: Set<Seq<char>>,
    strategy: ConflictStrategy,
) -> Result<Seq<Seq<char>>, ImportRefusal>
    decreases configs.len(),
{
    if configs.len() == 0 {
        Ok(seq![])
    } else {
        let c = configs[0];
        let hook_missing = match c.1 {
            Some(h) => !available.contains(h),
            None => false,
        };
        if hook_missing {
            Err(ImportRefusal::Import("configset "@ + c.0 + " references missing cmdset "@ + c.1->0))
        } else {
            match resolve_name_spec(names, c.2, strategy, "configset"@) {
                Err(e) => Err(ImportRefusal::Conflict(e)),
                Ok(n) => match resolve_configs(
                    names.insert(n),
                    configs.drop_first(),
                    available,
                    strategy,
                ) {
                    Err(e) => Err(e),
                    Ok(rest) => Ok(seq![n] + rest),
                },
            }
        }
    }
}

/// The names of configuration sets as the import reads them.
pub open spec fn config_names_of(configs: Seq<(Seq<char>, Option<Seq<char>>, Seq<char>)>) -> Seq<Seq<char>> {
    configs.map_values(|c: (Seq<char>, Option<Seq<char>>, Seq<char>)| c.2)
}

/// Some configuration set's hook names a command set that is not available.
pub open spec fn hook_missing(configs: Seq<(Seq<char>, Option<Seq<char>>, Seq<char>)>, available: Set<Seq<char>>) -> bool {
    exists|k: int| 0 <= k < configs.len() && hook_unavailable(#[trigger] configs[k], available)
}

/// A configuration set's hook names a command set that is not available.
pub open spec fn hook_unavailable(c: (Seq<char>, Option<Seq<char>>, Seq<char>), available: Set<Seq<char>>) -> bool {
    match c.1 {
        Some(h) => !available.contains(h),
        None => false,
    }
}

/// Law: resolving configuration sets. A success gives fresh names and means every hook is
/// available; a refusal for a missing hook names one; a name refusal comes only when
/// rejecting a taken name; renaming with every hook available always succeeds.
pub proof fn lemma_resolve_configs_law(
    names: Set<Seq<char>>,
    configs: Seq<(Seq<char>, Option<Seq<char>>, Seq<char>)>,
    available: Set<Seq<char>>,
    strategy: ConflictStrategy,
)
    requires
        names.finite(),
    ensures
        resolve_configs(names, configs, available, strategy) matches Ok(out) ==> fresh_names(
            names,
            config_names_of(configs),
            out,
        ) && !hook_missing(configs, available),
        resolve_configs(names, configs, available, strategy) matches Err(ImportRefusal::Import(_)) ==> hook_missing(
            configs,
            available,
        ),
        resolve_configs(names, configs, available, strategy) matches Err(ImportRefusal::Conflict(_)) ==> strategy
            == ConflictStrategy::Reject && some_name_taken(names, config_names_of(configs)),
        strategy == ConflictStrategy::Rename && !hook_missing(configs, available) ==> resolve_configs(
            names,
            configs,
            available,
            strategy,
        ) is Ok,
    decreases configs.len(),
{
    let cands = config_names_of(configs);
    if configs.len() == 0 {
        assert(!hook_missing(configs, available));
        assert(cands.len() == 0);
    } else {
        let c = configs[0];
        let rest = configs.drop_first();
        assert(config_names_of(rest) =~= cands.drop_first());
        assert(cands[0] == c.2);
        let missing0 = hook_unavailable(c, available);
        if missing0 {
            assert(hook_missing(configs, available)) by {
                assert(configs[0] == c);
            }
        } else {
            assert(hook_missing(configs, available) <==> hook_missing(rest, available)) by {
                if hook_missing(rest, available) {
                    let k = choose|k: int| 0 <= k < rest.len() && hook_unavailable(#[trigger] rest[k], available);
                    assert(configs[k + 1] == rest[k]);
                }
                if hook_missing(configs, available) {
                    let k = choose|k: int| 0 <= k < configs.len() && hook_unavailable(#[trigger] configs[k], available);
                    assert(k != 0);
                    assert(rest[k - 1] == configs[k]);
                }
            }
            lemma_resolved_name_is_fresh(names, c.2, strategy, "configset"@);
            match resolve_name_spec(names, c.2, strategy, "configset"@) {
                Err(_) => {
                    assert(names.contains(cands[0]));
                },
                Ok(n) => {
                    let names2 = names.insert(n);
                    lemma_resolve_configs_law(names2, rest, available, strategy);
                    let rest_c = config_names_of(rest);
                    match resolve_configs(names2, rest, available, strategy) {
                        Ok(out2) => {
                            let out = seq![n] + out2;
                            assert forall|i: int, j: int| 0 <= i < j < out.len() implies out[i] != out[j] by {
                                if i == 0 {
                                    assert(out[j] == out2[j - 1]);
                                    assert(!names2.contains(out2[j - 1]));
                                } else {
                                    assert(out[i] == out2[i - 1] && out[j] == out2[j - 1]);
                                }
                            }
                            assert forall|i: int| 0 <= i < out.len() implies !names.contains(#[trigger] out[i]) by {
                                if i > 0 {
                                    assert(out[i] == out2[i - 1]);
                                    assert(!names2.contains(out2[i - 1]));
                                }
                            }
                            assert forall|i: int|
                                0 <= i < cands.len() && !names.contains(#[trigger] cands[i]) && !out.take(
                                    i,
                                ).contains(cands[i]) implies out[i] == cands[i] by {
                                if i > 0 {
                                    assert(out.take(i)[0] == n);
                                    assert(cands[i] != n);
                                    assert(rest_c[i - 1] == cands[i]);
                                    assert(!names2.contains(rest_c[i - 1]));
                                    if out2.take(i - 1).contains(rest_c[i - 1]) {
                                        let k = choose|k: int|
                                            0 <= k < out2.take(i - 1).len() && #[trigger] out2.take(i - 1)[k]
                                                == rest_c[i - 1];
                                        assert(out.take(i)[k + 1] == out2.take(i - 1)[k]);
                                    }
                                    assert(out[i] == out2[i - 1]);
                                }
                            }
                            assert(resolve_configs(names, configs, available, strategy) == Ok::<
                                Seq<Seq<char>>,
                                ImportRefusal,
                            >(out));
                        },
                        Err(ImportRefusal::Import(_)) => {},
                        Err(ImportRefusal::Conflict(_)) => {
                            assert(n == c.2);
                            let i = choose|i: int|
                                0 <= i < rest_c.len() && (names2.contains(#[trigger] rest_c[i]) || rest_c.take(
                                    i,
                                ).contains(rest_c[i]));
                            assert(cands[i + 1] == rest_c[i]);
                            if names2.contains(rest_c[i]) && !names.contains(rest_c[i]) {
                                assert(cands.take(i + 1)[0] == c.2);
                            } else if rest_c.take(i).contains(rest_c[i]) {
                                let k = choose|k: int| 0 <= k < rest_c.take(i).len() && #[trigger] rest_c.take(i)[k]
                                    == rest_c[i];
                                assert(cands.take(i + 1)[k + 1] == rest_c.take(i)[k]);
                            }
                            assert(some_name_taken(names, cands));
                        },
                    }
                },
            }
        }
    }
}

/// The ids of the secrets that carry a value, in order.
pub open spec fn valued_secret_ids(s: Seq<ExportSecret>) -> Seq<Seq<char>>
    decreases s.len(),
{
    if s.len() == 0 {
        seq![]
    } else {
        valued_secret_ids(s.drop_last()) + if s.last().value is Some {
            seq![s.last().secret_id@]
        } else {
            seq![]
        }
    }
}

/// The names chosen by an import, and what it reports.
#[derive(Debug, Clone)]
pub struct ImportPlan {
    pub profile_names: Vec<String>,
    pub cmdset_names: Vec<String>,
    pub config_names: Vec<String>,
    pub report: ImportReport,
}


/// The names an import stores its records under, or why it is refused. In order: the version
/// must be 1; secrets with values need the master key; no incoming id may repeat or be stored
/// already (profiles, command sets, configuration sets, parsers, then secrets with values);
/// then profile, command-set and configuration-set names are resolved in turn.
pub open spec fn import_plan_spec(
    doc: ExportDocument,
    strategy: ConflictStrategy,
    has_master: bool,
    ids: (Set<Seq<char>>, Set<Seq<char>>, Set<Seq<char>>, Set<Seq<char>>, Set<Seq<char>>),
    names: (Set<Seq<char>>, Set<Seq<char>>, Set<Seq<char>>),
) -> Result<(Seq<Seq<char>>, Seq<Seq<char>>, Seq<Seq<char>>), ImportRefusal> {
    let profile_ids = doc.profiles@.map_values(|p: Profile| p.profile_id@);
    let cmdset_ids = doc.cmdsets@.map_values(|c: ExportCmdSet| c.cmdset_id@);
    let config_ids = doc.configs@.map_values(|c: ExportConfigSet| c.config_id@);
    let parser_ids = doc.parsers@.map_values(|p: ExportParser| p.parser_id@);
    let secret_ids = valued_secret_ids(doc.secrets@);
    if doc.version != 1 {
        Err(ImportRefusal::Import("unsupported export version "@ + decimal(doc.version as nat)))
    } else if secret_ids.len() > 0 && !has_master {
        Err(ImportRefusal::Import("master key required to import secrets"@))
    } else if let Err(m) = id_conflicts_from(ids.0, profile_ids, 0) {
        Err(ImportRefusal::Conflict(m))
    } else if let Err(m) = id_conflicts_from(ids.1, cmdset_ids, 0) {
        Err(ImportRefusal::Conflict(m))
    } else if let Err(m) = id_conflicts_from(ids.2, config_ids, 0) {
        Err(ImportRefusal::Conflict(m))
    } else if let Err(m) = id_conflicts_from(ids.3, parser_ids, 0) {
        Err(ImportRefusal::Conflict(m))
    } else if let Err(m) = id_conflicts_from(ids.4, secret_ids, 0) {
        Err(ImportRefusal::Conflict(m))
    } else {
        match resolve_names(
            names.0,
            doc.profiles@.map_values(|p: Profile| p.name@),
            strategy,
            "profile"@,
        ) {
            Err(m) => Err(ImportRefusal::Conflict(m)),
            Ok(pn) => match resolve_names(
                names.1,
                doc.cmdsets@.map_values(|c: ExportCmdSet| c.name@),
                strategy,
                "cmdset"@,
            ) {
                Err(m) => Err(ImportRefusal::Conflict(m)),
                Ok(cn) => {
                    let available = ids.1 + cmdset_ids.to_set();
                    let configs = doc.configs@.map_values(|c: ExportConfigSet| config_key(c));
                    match resolve_configs(names.2, configs, available, strategy) {
                        Err(e) => Err(e),
                        Ok(gn) => Ok((pn, cn, gn)),
                    }
                },
            },
        }
    }
}

/// Incoming ids that neither repeat nor are stored already.
pub open spec fn ids_clean(existing: Set<Seq<char>>, incoming: Seq<Seq<char>>) -> bool {
    incoming.no_duplicates() && forall|k: int| 0 <= k < incoming.len() ==> !existing.contains(#[trigger] incoming[k])
}

/// Law: what a planned import gives and why one is refused, for every document and store.
/// A plan names every profile, command set and configuration set with fresh names (none
/// given twice, none taken before, the document's name kept where it is still free). An
/// import error comes only from a version other than 1, from secret values without the
/// master key, or from a hook naming a command set that is neither stored nor imported. A
/// conflict comes only from a repeated or already stored id, or, when rejecting, from a name
/// already taken. A document of version 1 whose ids are clean, whose hooks are available and
/// whose secret values come with the master key is always planned when renaming.
pub proof fn lemma_import_plan_law(
    doc: ExportDocument,
    strategy: ConflictStrategy,
    has_master: bool,
    ids: (Set<Seq<char>>, Set<Seq<char>>, Set<Seq<char>>, Set<Seq<char>>, Set<Seq<char>>),
    names: (Set<Seq<char>>, Set<Seq<char>>, Set<Seq<char>>),
)
    requires
        names.0.finite(),
        names.1.finite(),
        names.2.finite(),
    ensures
        ({
            let pnames = doc.profiles@.map_values(|p: Profile| p.name@);
            let cnames = doc.cmdsets@.map_values(|c: ExportCmdSet| c.name@);
            let configs = doc.configs@.map_values(|c: ExportConfigSet| config_key(c));
            let cmdset_ids = doc.cmdsets@.map_values(|c: ExportCmdSet| c.cmdset_id@);
            let available = ids.1 + cmdset_ids.to_set();
            let clean = ids_clean(ids.0, doc.profiles@.map_values(|p: Profile| p.profile_id@)) && ids_clean(
                ids.1,
                cmdset_ids,
            ) && ids_clean(ids.2, doc.configs@.map_values(|c: ExportConfigSet| c.config_id@)) && ids_clean(
                ids.3,
                doc.parsers@.map_values(|p: ExportParser| p.parser_id@),
            ) && ids_clean(ids.4, valued_secret_ids(doc.secrets@));
            let plan = import_plan_spec(doc, strategy, has_master, ids, names);
            &&& plan matches Ok((pn, cn, gn)) ==> fresh_names(names.0, pnames, pn) && fresh_names(
                names.1,
                cnames,
                cn,
            ) && fresh_names(names.2, config_names_of(configs), gn)
            &&& plan matches Err(ImportRefusal::Import(_)) ==> doc.version != 1 || (valued_secret_ids(
                doc.secrets@,
            ).len() > 0 && !has_master) || hook_missing(configs, available)
            &&& plan matches Err(ImportRefusal::Conflict(_)) ==> !clean || (strategy == ConflictStrategy::Reject
                && (some_name_taken(names.0, pnames) || some_name_taken(names.1, cnames) || some_name_taken(
                names.2,
                config_names_of(configs),
            )))
            &&& doc.version == 1 && (valued_secret_ids(doc.secrets@).len() == 0 || has_master) && clean
                && !hook_missing(configs, available) && strategy == ConflictStrategy::Rename ==> plan is Ok
        }),
{
    let pnames = doc.profiles@.map_values(|p: Profile| p.name@);
    let cnames = doc.cmdsets@.map_values(|c: ExportCmdSet| c.name@);
    let configs = doc.configs@.map_values(|c: ExportConfigSet| config_key(c));
    let cmdset_ids = doc.cmdsets@.map_values(|c: ExportCmdSet| c.cmdset_id@);
    let available = ids.1 + cmdset_ids.to_set();
    lemma_no_id_conflicts_iff(ids.0, doc.profiles@.map_values(|p: Profile| p.profile_id@));
    lemma_no_id_conflicts_iff(ids.1, cmdset_ids);
    lemma_no_id_conflicts_iff(ids.2, doc.configs@.map_values(|c: ExportConfigSet| c.config_id@));
    lemma_no_id_conflicts_iff(ids.3, doc.parsers@.map_values(|p: ExportParser| p.parser_id@));
    lemma_no_id_conflicts_iff(ids.4, valued_secret_ids(doc.secrets@));
    lemma_resolve_names_law(names.0, pnames, strategy, "profile"@);
    lemma_resolve_names_law(names.1, cnames, strategy, "cmdset"@);
    lemma_resolve_configs_law(names.2, configs, available, strategy);
}

proof fn lemma_valued_len(s: Seq<ExportSecret>)
    ensures
        valued_secret_ids(s).len() <= s.len(),
    decreases s.len(),
{
    if s.len() > 0 {
        lemma_valued_len(s.drop_last());
    }
}

fn valued_ids(v: &Vec<ExportSecret>) -> (r: Vec<String>)
    ensures
        strings_view(r@) == valued_secret_ids(v@),
{
    let mut r: Vec<String> = Vec::new();
    let mut i: usize = 0;
    while i < v.len()
        invariant
            i <= v.len(),
            strings_view(r@) == valued_secret_ids(v@.take(i as int)),
        decreases v.len() - i,
    {
        let ghost before = strings_view(r@);
        assert(v@.take(i + 1).drop_last() =~= v@.take(i as int));
        if v[i].value.is_some() {
            r.push(v[i].secret_id.clone());
            assert(strings_view(r@) =~= before.push(v@[i as int].secret_id@));
        }
        i = i + 1;
        assert(strings_view(r@) =~= valued_secret_ids(v@.take(i as int)));
    }
    assert(v@.take(v.len() as int) =~= v@);
    r
}

fn profile_ids(v: &Vec<Profile>) -> (r: Vec<String>)
    ensures
        strings_view(r@) == v@.map_values(|p: Profile| p.profile_id@),
{
    let mut r: Vec<String> = Vec::new();
    let mut i: usize = 0;
    while i < v.len()
        invariant
            i <= v.len(),
            strings_view(r@) == v@.take(i as int).map_values(|p: Profile| p.profile_id@),
        decreases v.len() - i,
    {
        let ghost before = strings_view(r@);
        let x = v[i].profile_id.clone();
        r.push(x);
        assert(strings_view(r@) =~= before.push(x@));
        assert(v@.take(i + 1).map_values(|p: Profile| p.profile_id@) =~= v@.take(i as int).map_values(|p: Profile| p.profile_id@).push(v@[i as int].profile_id@));
        i = i + 1;
    }
    assert(v@.take(v.len() as int) =~= v@);
    r
}

fn profile_names(v: &Vec<Profile>) -> (r: Vec<String>)
    ensures
        strings_view(r@) == v@.map_values(|p: Profile| p.name@),
{
    let mut r: Vec<String> = Vec::new();
    let mut i: usize = 0;
    while i < v.len()
        invariant
            i <= v.len(),
            strings_view(r@) == v@.take(i as int).map_values(|p: Profile| p.name@),
        decreases v.len() - i,
    {
        let ghost before = strings_view(r@);
        let x = v[i].name.clone();
        r.push(x);
        assert(strings_view(r@) =~= before.push(x@));
        assert(v@.take(i + 1).map_values(|p: Profile| p.name@) =~= v@.take(i as int).map_values(|p: Profile| p.name@).push(v@[i as int].name@));
        i = i + 1;
    }
    assert(v@.take(v.len() as int) =~= v@);
    r
}

fn cmdset_ids(v: &Vec<ExportCmdSet>) -> (r: Vec<String>)
    ensures
        strings_view(r@) == v@.map_values(|c: ExportCmdSet| c.cmdset_id@),
{
    let mut r: Vec<String> = Vec::new();
    let mut i: usize = 0;
    while i < v.len()
        invariant
            i <= v.len(),
            strings_view(r@) == v@.take(i as int).map_values(|c: ExportCmdSet| c.cmdset_id@),
        decreases v.len() - i,
    {
        let ghost before = strings_view(r@);
        let x = v[i].cmdset_id.clone();
        r.push(x);
        assert(strings_view(r@) =~= before.push(x@));
        assert(v@.take(i + 1).map_values(|c: ExportCmdSet| c.cmdset_id@) =~= v@.take(i as int).map_values(|c: ExportCmdSet| c.cmdset_id@).push(v@[i as int].cmdset_id@));
        i = i + 1;
    }
    assert(v@.take(v.len() as int) =~= v@);
    r
}

fn cmdset_names(v: &Vec<ExportCmdSet>) -> (r: Vec<String>)
    ensures
        strings_view(r@) == v@.map_values(|c: ExportCmdSet| c.name@),
{
    let mut r: Vec<String> = Vec::new();
    let mut i: usize = 0;
    while i < v.len()
        invariant
            i <= v.len(),
            strings_view(r@) == v@.take(i as int).map_values(|c: ExportCmdSet| c.name@),
        decreases v.len() - i,
    {
        let ghost before = strings_view(r@);
        let x = v[i].name.clone();
        r.push(x);
        assert(strings_view(r@) =~= before.push(x@));
        assert(v@.take(i + 1).map_values(|c: ExportCmdSet| c.name@) =~= v@.take(i as int).map_values(|c: ExportCmdSet| c.name@).push(v@[i as int].name@));
        i = i + 1;
    }
    assert(v@.take(v.len() as int) =~= v@);
    r
}

fn config_ids(v: &Vec<ExportConfigSet>) -> (r: Vec<String>)
    ensures
        strings_view(r@) == v@.map_values(|c: ExportConfigSet| c.config_id@),
{
    let mut r: Vec<String> = Vec::new();
    let mut i: usize = 0;
    while i < v.len()
        invariant
            i <= v.len(),
            strings_view(r@) == v@.take(i as int).map_values(|c: ExportConfigSet| c.config_id@),
        decreases v.len() - i,
    {
        let ghost before = strings_view(r@);
        let x = v[i].config_id.clone();
        r.push(x);
        assert(strings_view(r@) =~= before.push(x@));
        assert(v@.take(i + 1).map_values(|c: ExportConfigSet| c.config_id@) =~= v@.take(i as int).map_values(|c: ExportConfigSet| c.config_id@).push(v@[i as int].config_id@));
        i = i + 1;
    }
    assert(v@.take(v.len() as int) =~= v@);
    r
}

fn parser_ids(v: &Vec<ExportParser>) -> (r: Vec<String>)
    ensures
        strings_view(r@) == v@.map_values(|p: ExportParser| p.parser_id@),
{
    let mut r: Vec<String> = Vec::new();
    let mut i: usize = 0;
    while i < v.len()
        invariant
            i <= v.len(),
            strings_view(r@) == v@.take(i as int).map_values(|p: ExportParser| p.parser_id@),
        decreases v.len() - i,
    {
        let ghost before = strings_view(r@);
        let x = v[i].parser_id.clone();
        r.push(x);
        assert(strings_view(r@) =~= before.push(x@));
        assert(v@.take(i + 1).map_values(|p: ExportParser| p.parser_id@) =~= v@.take(i as int).map_values(|p: ExportParser| p.parser_id@).push(v@[i as int].parser_id@));
        i = i + 1;
    }
    assert(v@.take(v.len() as int) =~= v@);
    r
}

/// Resolves names in order against the names taken, recording each chosen name as taken.
pub fn resolve_all_names(
    names: &mut Vec<String>,
    candidates: &Vec<String>,
    strategy: ConflictStrategy,
    kind: &str,
) -> (r: Result<Vec<String>, CoreError>)
    requires
        old(names)@.len() + candidates@.len() < usize::MAX,
    ensures
        match resolve_names(text_set(old(names)@), strings_view(candidates@), strategy, kind@) {
            Ok(ns) => r matches Ok(x) && strings_view(x@) == ns,
            Err(m) => r matches Err(CoreError::Conflict(e)) && e@ == m,
        },
{
    let ghost cands = strings_view(candidates@);
    let ghost start = text_set(names@);
    let ghost len0 = names@.len();
    let mut done: Vec<String> = Vec::new();
    let mut i: usize = 0;
    assert(cands.skip(0) =~= cands);
    assert(strings_view(done@) + Seq::<Seq<char>>::empty() =~= Seq::<Seq<char>>::empty());
    while i < candidates.len()
        invariant
            i <= candidates.len(),
            cands == strings_view(candidates@),
            start == text_set(old(names)@),
            names@.len() == len0 + i,
            len0 + candidates@.len() < usize::MAX,
            resolve_names(start, cands, strategy, kind@) == after(
                strings_view(done@),
                resolve_names(text_set(names@), cands.skip(i as int), strategy, kind@),
            ),
        decreases candidates.len() - i,
    {
        let ghost rest = cands.skip(i as int);
        assert(rest[0] == candidates@[i as int]@);
        assert(rest.drop_first() =~= cands.skip(i + 1));
        let ghost names_before = text_set(names@);
        let ghost len_before = names@.len();
        let n = match resolve_name(names, candidates[i].clone(), strategy, kind) {
            Ok(n) => n,
            Err(e) => {
                assert(resolve_name_spec(names_before, rest[0], strategy, kind@) is Err);
                assert(resolve_names(names_before, rest, strategy, kind@) is Err);
                return Err(e);
            },
        };
        assert(strings_view(names@).len() == names@.len());
        assert(names@.len() == len_before + 1);
        let ghost before = strings_view(done@);
        done.push(n);
        assert(strings_view(done@) =~= before.push(n@));
        assert(forall|t: Seq<Seq<char>>| before + (seq![n@] + t) =~= strings_view(done@) + t);
        i = i + 1;
    }
    assert(cands.skip(i as int) =~= Seq::<Seq<char>>::empty());
    assert(strings_view(done@) + Seq::<Seq<char>>::empty() =~= strings_view(done@));
    Ok(done)
}

fn hook_key(c: &ExportConfigSet) -> (r: Option<&str>)
    ensures
        match (r, config_key(*c).1) {
            (Some(a), Some(b)) => a@ == b,
            (None, None) => true,
            _ => false,
        },
{
    match &c.hooks_cmdset_id {
        Some(h) => Some(h.as_str()),
        None => None,
    }
}

/// The configuration sets' names resolved in order, each after its hook command set was found
/// among `available`.
pub fn resolve_config_names(
    names: &mut Vec<String>,
    configs: &Vec<ExportConfigSet>,
    available: &Vec<String>,
    strategy: ConflictStrategy,
) -> (r: Result<Vec<String>, CoreError>)
    requires
        old(names)@.len() + configs@.len() < usize::MAX,
    ensures
        match resolve_configs(
            text_set(old(names)@),
            configs@.map_values(|c: ExportConfigSet| config_key(c)),
            text_set(available@),
            strategy,
        ) {
            Ok(ns) => r matches Ok(x) && strings_view(x@) == ns,
            Err(ImportRefusal::Conflict(m)) => r matches Err(CoreError::Conflict(e)) && e@ == m,
            Err(ImportRefusal::Import(m)) => r matches Err(CoreError::Import(e)) && e@ == m,
        },
{
    let ghost keys = configs@.map_values(|c: ExportConfigSet| config_key(c));
    let ghost start = text_set(names@);
    let ghost len0 = names@.len();
    let mut done: Vec<String> = Vec::new();
    let mut i: usize = 0;
    assert(keys.skip(0) =~= keys);
    while i < configs.len()
        invariant
            i <= configs.len(),
            keys == configs@.map_values(|c: ExportConfigSet| config_key(c)),
            start == text_set(old(names)@),
            names@.len() == len0 + i,
            len0 + configs@.len() < usize::MAX,
            resolve_configs(start, keys, text_set(available@), strategy) == match resolve_configs(
                text_set(names@),
                keys.skip(i as int),
                text_set(available@),
                strategy,
            ) {
                Ok(rest) => Ok(strings_view(done@) + rest),
                Err(e) => Err(e),
            },
        decreases configs.len() - i,
    {
        let ghost rest = keys.skip(i as int);
        assert(rest[0] == config_key(configs@[i as int]));
        assert(rest.drop_first() =~= keys.skip(i + 1));
        let c = &configs[i];
        match hook_key(c) {
            Some(h) => {
                if !contains_text(available, h) {
                    let mut msg = concat3("configset ", c.config_id.as_str(), " references missing cmdset ");
                    msg.append(h);
                    return Err(CoreError::Import(msg));
                }
            },
            None => {},
        }
        let ghost len_before = names@.len();
        let n = match resolve_name(names, c.name.clone(), strategy, "configset") {
            Ok(n) => n,
            Err(e) => {
                return Err(e);
            },
        };
        assert(strings_view(names@).len() == names@.len());
        assert(names@.len() == len_before + 1);
        let ghost before = strings_view(done@);
        done.push(n);
        assert(strings_view(done@) =~= before.push(n@));
        assert(forall|t: Seq<Seq<char>>| before + (seq![n@] + t) =~= strings_view(done@) + t);
        i = i + 1;
    }
    assert(keys.skip(i as int) =~= Seq::<(Seq<char>, Option<Seq<char>>, Seq<char>)>::empty());
    assert(strings_view(done@) + Seq::<Seq<char>>::empty() =~= strings_view(done@));
    Ok(done)
}

fn append_strings(v: &mut Vec<String>, w: &Vec<String>)
    ensures
        strings_view(final(v)@) == strings_view(old(v)@) + strings_view(w@),
{
    let ghost start = strings_view(v@);
    let mut i: usize = 0;
    while i < w.len()
        invariant
            i <= w.len(),
            strings_view(v@) == start + strings_view(w@).take(i as int),
        decreases w.len() - i,
    {
        let ghost before = strings_view(v@);
        let x = w[i].clone();
        v.push(x);
        assert(strings_view(v@) =~= before.push(x@));
        assert(strings_view(w@).take(i + 1) =~= strings_view(w@).take(i as int).push(x@));
        i = i + 1;
        assert(strings_view(v@) =~= start + strings_view(w@).take(i as int));
    }
    assert(strings_view(w@).take(w.len() as int) =~= strings_view(w@));
}

/// Plans an import: checks the document against what the store holds and chooses the names
/// its profiles, command sets and configuration sets are stored under, as `import_plan_spec`
/// says. The `existing_*` lists hold the ids and names the store has.
pub fn plan_import(
    doc: &ExportDocument,
    strategy: ConflictStrategy,
    has_master: bool,
    existing_profile_ids: &Vec<String>,
    existing_cmdset_ids: &Vec<String>,
    existing_config_ids: &Vec<String>,
    existing_parser_ids: &Vec<String>,
    existing_secret_ids: &Vec<String>,
    existing_profile_names: Vec<String>,
    existing_cmdset_names: Vec<String>,
    existing_config_names: Vec<String>,
) -> (r: Result<ImportPlan, CoreError>)
    requires
        existing_profile_names@.len() + doc.profiles@.len() < usize::MAX,
        existing_cmdset_names@.len() + doc.cmdsets@.len() < usize::MAX,
        existing_config_names@.len() + doc.configs@.len() < usize::MAX,
        existing_cmdset_ids@.len() + doc.cmdsets@.len() < usize::MAX,
    ensures
        match import_plan_spec(
            *doc,
            strategy,
            has_master,
            (
                text_set(existing_profile_ids@),
                text_set(existing_cmdset_ids@),
                text_set(existing_config_ids@),
                text_set(existing_parser_ids@),
                text_set(existing_secret_ids@),
            ),
            (
                text_set(existing_profile_names@),
                text_set(existing_cmdset_names@),
                text_set(existing_config_names@),
            ),
        ) {
            Ok((pn, cn, gn)) => r matches Ok(plan) && strings_view(plan.profile_names@) == pn
                && strings_view(plan.cmdset_names@) == cn && strings_view(plan.config_names@)
                == gn && plan.report.profiles == doc.profiles@.len() && plan.report.cmdsets
                == doc.cmdsets@.len() && plan.report.parsers == doc.parsers@.len()
                && plan.report.configs == doc.configs@.len() && plan.report.secrets
                == valued_secret_ids(doc.secrets@).len() && plan.report.secrets_skipped
                == doc.secrets@.len() - valued_secret_ids(doc.secrets@).len(),
            Err(ImportRefusal::Conflict(m)) => r matches Err(CoreError::Conflict(e)) && e@ == m,
            Err(ImportRefusal::Import(m)) => r matches Err(CoreError::Import(e)) && e@ == m,
        },
{
    if doc.version != 1 {
        let v = u64_to_string(doc.version as u64);
        return Err(CoreError::Import(concat2("unsupported export version ", v.as_str())));
    }
    let secret_ids = valued_ids(&doc.secrets);
    if secret_ids.len() > 0 && !has_master {
        return Err(CoreError::Import(owned("master key required to import secrets")));
    }
    let pids = profile_ids(&doc.profiles);
    ensure_no_id_conflicts(existing_profile_ids, &pids)?;
    let cids = cmdset_ids(&doc.cmdsets);
    ensure_no_id_conflicts(existing_cmdset_ids, &cids)?;
    let gids = config_ids(&doc.configs);
    ensure_no_id_conflicts(existing_config_ids, &gids)?;
    let rids = parser_ids(&doc.parsers);
    ensure_no_id_conflicts(existing_parser_ids, &rids)?;
    ensure_no_id_conflicts(existing_secret_ids, &secret_ids)?;

    let mut pnames = existing_profile_names;
    let pcands = profile_names(&doc.profiles);
    let profile_names = resolve_all_names(&mut pnames, &pcands, strategy, "profile")?;
    let mut cnames = existing_cmdset_names;
    let ccands = cmdset_names(&doc.cmdsets);
    let cmdset_names = resolve_all_names(&mut cnames, &ccands, strategy, "cmdset")?;
    let mut available: Vec<String> = Vec::new();
    append_strings(&mut available, existing_cmdset_ids);
    append_strings(&mut available, &cids);
    proof {
        lemma_concat_to_set(strings_view(existing_cmdset_ids@), strings_view(cids@));
    }
    let mut gnames = existing_config_names;
    let config_names = resolve_config_names(&mut gnames, &doc.configs, &available, strategy)?;
    proof {
        lemma_valued_len(doc.secrets@);
    }
    let report = ImportReport {
        profiles: doc.profiles.len(),
        cmdsets: doc.cmdsets.len(),
        parsers: doc.parsers.len(),
        configs: doc.configs.len(),
        secrets: secret_ids.len(),
        secrets_skipped: doc.secrets.len() - secret_ids.len(),
    };
    Ok(ImportPlan { profile_names, cmdset_names, config_names, report })
}

/// The additional authenticated data that binds a secret's ciphertext to its id and kind.
pub open spec fn secret_aad_spec(secret_id: Seq<char>, kind: Seq<char>) -> Seq<char> {
    secret_id + ":"@ + kind
}

/// The additional authenticated data of a secret: `<id>:<kind>`.
pub fn secret_aad(secret_id: &str, kind: &str) -> (r: String)
    ensures
        r@ == secret_aad_spec(secret_id@, kind@),
{
    concat3(secret_id, ":", kind)
}

/// The value an export writes for a stored secret: nothing unless secrets are included;
/// then the master key is required and the value is decrypted under the secret's id and kind.
pub fn export_secret_value(
    include_secrets: bool,
    master: Option<&MasterKey>,
    secret_id: &str,
    kind: &str,
    ciphertext: &[u8],
    nonce: &[u8],
) -> (r: Result<Option<String>, CoreError>)
    requires
        include_secrets && master is Some ==> nonce@.len() == NONCE_LEN,
    ensures
        !include_secrets ==> r == Ok::<Option<String>, CoreError>(None),
        include_secrets && master is None ==> (r matches Err(e) && e is Import && error_text(e)
            == Some("master key required to export secrets"@)),
        include_secrets ==> (master matches Some(m) ==> match opened_secret(
            m@,
            secret_id@,
            kind@,
            ciphertext@,
            nonce@,
        ) {
            Some(v) => r matches Ok(Some(x)) && x@ == v,
            None => r == Err::<Option<String>, CoreError>(CoreError::DecryptionFailed),
        }),
{
    if !include_secrets {
        return Ok(None);
    }
    let master = match master {
        Some(m) => m,
        None => {
            let r = Err(CoreError::Import("master key required to export secrets".to_string()));
            proof {
                reveal_strlit("master key required to export secrets");
            }
            return r;
        },
    };
    match open_secret(master, secret_id, kind, ciphertext, nonce) {
        Ok(v) => Ok(Some(v)),
        Err(e) => Err(e),
    }
}

/// Encrypt an imported secret's value for storage; an import without the value is refused.
pub fn seal_imported_secret(secret: &ExportSecret, master: &MasterKey) -> (r: Result<SealedSecret, CoreError>)
    ensures
        secret.value is None ==> (r matches Err(e) && e is Import && error_text(e) == Some(
            "secret value missing"@,
        )),
        secret.value matches Some(v) ==> (r is Ok <==> message_fits(vstd::utf8::encode_utf8(v@).len())),
        secret.value matches Some(v) ==> (r matches Ok(s) ==> opened_secret(
            master@,
            secret.secret_id@,
            secret.kind@,
            s.ciphertext@,
            s.nonce@,
        ) == Some(v@)),
        r matches Err(e) ==> e is Import || (e is Crypto && error_text(e) == Some(aead_error_text())),
{
    let value = match &secret.value {
        Some(v) => v,
        None => {
            let r = Err(CoreError::Import("secret value missing".to_string()));
            proof {
                reveal_strlit("secret value missing");
            }
            return r;
        },
    };
    let sealed = seal_secret(master, secret.secret_id.as_str(), secret.kind.as_str(), value.as_str());
    proof {
        if sealed is Ok {
            crate::secret::lemma_open_after_seal(
                master@,
                secret.secret_id@,
                secret.kind@,
                value@,
                sealed->Ok_0.nonce@,
                sealed->Ok_0.ciphertext@,
            );
        }
    }
    sealed
}

proof fn lemma_concat_to_set(a: Seq<Seq<char>>, b: Seq<Seq<char>>)
    ensures
        (a + b).to_set() == a.to_set() + b.to_set(),
{
    assert forall|x: Seq<char>| (a + b).to_set().contains(x) <==> (a.to_set() + b.to_set()).contains(
        x,
    ) by {
        if (a + b).contains(x) {
            let i = choose|i: int| 0 <= i < (a + b).len() && (a + b)[i] == x;
            if i < a.len() {
                assert(a[i] == x);
            } else {
                assert(b[i - a.len()] == x);
            }
        }
        if a.contains(x) {
            let i = choose|i: int| 0 <= i < a.len() && a[i] == x;
            assert((a + b)[i] == x);
        }
        if b.contains(x) {
            let i = choose|i: int| 0 <= i < b.len() && b[i] == x;
            assert((a + b)[a.len() + i] == x);
        }
    }
    assert((a + b).to_set() =~= a.to_set() + b.to_set());
}

} // verus!
