use vstd::prelude::*;

use crate::settings::opt_view;

verus! {

/// The RFC 3339 text that chrono gives for the UTC instant `secs` seconds and `nanos`
/// nanoseconds after the Unix epoch, or `None` where chrono has no such instant.
pub uninterp spec fn chrono_rfc3339(secs: i64, nanos: u32) -> Option<Seq<char>>;

/// `chrono::DateTime::from_timestamp` followed by `to_rfc3339`. The contract only names the
/// result: the calendar arithmetic stays with chrono.
#[verifier::external_body]
fn rfc3339_text(secs: i64, nanos: u32) -> (r: Option<String>)
    ensures
        opt_view(r) == chrono_rfc3339(secs, nanos),
{
    match chrono::DateTime::from_timestamp(secs, nanos) {
        Some(dt) => Some(dt.to_rfc3339()),
        None => None,
    }
}

/// `chrono::Utc::now`, taken apart into whole seconds and the nanoseconds within the second.
/// The contract claims what chrono's source shows of every reading of the clock: the seconds
/// are not negative (`now` panics on a clock before the epoch), the nanoseconds stay under a
/// second, and chrono formats the instant again (the documented round trip of
/// `from_timestamp` with `timestamp` and `timestamp_subsec_nanos`). Which instant comes back
/// is not stated.
#[verifier::external_body]
fn utc_now() -> (r: (i64, u32))
    ensures
        r.0 >= 0,
        r.1 < 1_000_000_000,
        chrono_rfc3339(r.0, r.1) is Some,
{
    let now = chrono::Utc::now();
    (now.timestamp(), now.timestamp_subsec_nanos())
}

/// One connection attempt in the history file.
#[derive(Debug)]
pub struct HistoryEntry {
    timestamp_secs: i64,
    timestamp_nanos: u32,
    profile_id: String,
    profile_name: String,
    success: bool,
    message: Option<String>,
    forced: bool,
}

/// What a history entry holds, as plain values.
pub struct HistoryEntryView {
    pub timestamp_secs: i64,
    pub timestamp_nanos: u32,
    pub profile_id: Seq<char>,
    pub profile_name: Seq<char>,
    pub success: bool,
    pub message: Option<Seq<char>>,
    pub forced: bool,
}

impl View for HistoryEntry {
    type V = HistoryEntryView;

    closed spec fn view(&self) -> HistoryEntryView {
        HistoryEntryView {
            timestamp_secs: self.timestamp_secs,
            timestamp_nanos: self.timestamp_nanos,
            profile_id: self.profile_id@,
            profile_name: self.profile_name@,
            success: self.success,
            message: opt_view(self.message),
            forced: self.forced,
        }
    }
}

impl HistoryEntry {
    /// Every entry carries an instant that chrono can format.
    #[verifier::type_invariant]
    spec fn instant_is_valid(self) -> bool {
        chrono_rfc3339(self.timestamp_secs, self.timestamp_nanos) is Some
    }

    /// An entry stamped with the current time.
    pub fn new(
        profile_id: String,
        profile_name: String,
        success: bool,
        message: Option<String>,
        forced: bool,
    ) -> (r: HistoryEntry)
        ensures
            r@.profile_id == profile_id@,
            r@.profile_name == profile_name@,
            r@.success == success,
            r@.message == opt_view(message),
            r@.forced == forced,
            r@.timestamp_secs >= 0,
            r@.timestamp_nanos < 1_000_000_000,
            chrono_rfc3339(r@.timestamp_secs, r@.timestamp_nanos) is Some,
    {
        let (secs, nanos) = utc_now();
        HistoryEntry {
            timestamp_secs: secs,
            timestamp_nanos: nanos,
            profile_id,
            profile_name,
            success,
            message,
            forced,
        }
    }

    /// An entry for a recorded instant, as read back from the history file; `None` where
    /// chrono has no such instant.
    pub fn at_instant(
        timestamp_secs: i64,
        timestamp_nanos: u32,
        profile_id: String,
        profile_name: String,
        success: bool,
        message: Option<String>,
        forced: bool,
    ) -> (r: Option<HistoryEntry>)
        ensures
            r is Some <==> chrono_rfc3339(timestamp_secs, timestamp_nanos) is Some,
            r matches Some(e) ==> e@ == (HistoryEntryView {
                timestamp_secs,
                timestamp_nanos,
                profile_id: profile_id@,
                profile_name: profile_name@,
                success,
                message: opt_view(message),
                forced,
            }),
    {
        match rfc3339_text(timestamp_secs, timestamp_nanos) {
            Some(_) => Some(
                HistoryEntry {
                    timestamp_secs,
                    timestamp_nanos,
                    profile_id,
                    profile_name,
                    success,
                    message,
                    forced,
                },
            ),
            None => None,
        }
    }

    pub fn timestamp_secs(&self) -> (r: i64)
        ensures
            r == self@.timestamp_secs,
    {
        self.timestamp_secs
    }

    pub fn timestamp_nanos(&self) -> (r: u32)
        ensures
            r == self@.timestamp_nanos,
    {
        self.timestamp_nanos
    }

    pub fn profile_id(&self) -> (r: &str)
        ensures
            r@ == self@.profile_id,
    {
        self.profile_id.as_str()
    }

    pub fn profile_name(&self) -> (r: &str)
        ensures
            r@ == self@.profile_name,
    {
        self.profile_name.as_str()
    }

    pub fn success(&self) -> (r: bool)
        ensures
            r == self@.success,
    {
        self.success
    }

    pub fn message(&self) -> (r: Option<&str>)
        ensures
            match (r, self@.message) {
                (Some(a), Some(b)) => a@ == b,
                (None, None) => true,
                _ => false,
            },
    {
        match &self.message {
            Some(m) => Some(m.as_str()),
            None => None,
        }
    }

    pub fn forced(&self) -> (r: bool)
        ensures
            r == self@.forced,
    {
        self.forced
    }
}


/// `a` was recorded strictly after `b`.
pub open spec fn recorded_after(a: HistoryEntryView, b: HistoryEntryView) -> bool {
    a.timestamp_secs > b.timestamp_secs || (a.timestamp_secs == b.timestamp_secs
        && a.timestamp_nanos > b.timestamp_nanos)
}

/// No entry comes before one recorded after it.
pub open spec fn newest_first(s: Seq<HistoryEntry>) -> bool {
    forall|i: int, j: int| 0 <= i < j < s.len() ==> !recorded_after(#[trigger] s[j]@, #[trigger] s[i]@)
}

/// Recorded at the given instant.
pub open spec fn recorded_at(secs: i64, nanos: u32) -> spec_fn(HistoryEntry) -> bool {
    |e: HistoryEntry| e@.timestamp_secs == secs && e@.timestamp_nanos == nanos
}

/// The entries recorded at one instant, in their order.
pub open spec fn entries_at(s: Seq<HistoryEntry>, secs: i64, nanos: u32) -> Seq<HistoryEntry> {
    s.filter(recorded_at(secs, nanos))
}

/// `r` is `s` ordered newest first by a stable sort: entries recorded at the same instant
/// keep their order in `s`.
pub open spec fn stable_newest_order(r: Seq<HistoryEntry>, s: Seq<HistoryEntry>) -> bool {
    &&& newest_first(r)
    &&& forall|secs: i64, nanos: u32| #[trigger] entries_at(r, secs, nanos) == entries_at(s, secs, nanos)
}

/// The stable newest-first order of `s` (unique, see `lemma_newest_order_is_unique`).
pub open spec fn newest_order(s: Seq<HistoryEntry>) -> Seq<HistoryEntry> {
    choose|r: Seq<HistoryEntry>| stable_newest_order(r, s)
}

/// What loading gives for the entries of a file: newest first, cut to `limit` entries where
/// a limit is given.
pub open spec fn loaded_entries(s: Seq<HistoryEntry>, limit: Option<usize>) -> Seq<HistoryEntry> {
    let o = newest_order(s);
    match limit {
        Some(n) => if n < o.len() {
            o.take(n as int)
        } else {
            o
        },
        None => o,
    }
}

/// Putting `x` in front of the entries recorded before it adds `x` at the end of the group
/// of its own instant and leaves every other group as it was.
proof fn lemma_insert_keeps_groups(r: Seq<HistoryEntry>, p: int, x: HistoryEntry, secs: i64, nanos: u32)
    requires
        0 <= p <= r.len(),
        forall|k: int| p <= k < r.len() ==> recorded_after(x@, #[trigger] r[k]@),
    ensures
        entries_at(r.insert(p, x), secs, nanos) == if recorded_at(secs, nanos)(x) {
            entries_at(r, secs, nanos).push(x)
        } else {
            entries_at(r, secs, nanos)
        },
{
    broadcast use vstd::seq_lib::group_seq_properties;
    let pred = recorded_at(secs, nanos);
    let a = r.take(p);
    let b = r.skip(p);
    assert(r =~= a + b);
    assert(r.insert(p, x) =~= a + seq![x] + b);
    Seq::filter_distributes_over_add(a, b, pred);
    Seq::filter_distributes_over_add(a + seq![x], b, pred);
    Seq::filter_distributes_over_add(a, seq![x], pred);
    Seq::<HistoryEntry>::empty().lemma_filter_push(x, pred);
    assert(seq![x] =~= Seq::<HistoryEntry>::empty().push(x));
    reveal(Seq::filter);
    assert(Seq::<HistoryEntry>::empty().filter(pred) =~= Seq::<HistoryEntry>::empty());
    if pred(x) {
        assert(b.all(|e: HistoryEntry| !pred(e))) by {
            assert forall|k: int| 0 <= k < b.len() implies !pred(#[trigger] b[k]) by {
                assert(b[k] == r[p + k]);
            }
        }
        b.lemma_all_neg_filter_empty(pred);
        assert(b.filter(pred) =~= Seq::<HistoryEntry>::empty());
        assert(a.filter(pred) + b.filter(pred) =~= a.filter(pred));
        assert(a.filter(pred) + seq![x] + b.filter(pred) =~= a.filter(pred).push(x));
    } else {
        assert(a.filter(pred) + Seq::<HistoryEntry>::empty() + b.filter(pred) =~= a.filter(pred) + b.filter(pred));
    }
}

/// Orders entries newest first; entries recorded at the same instant keep their order.
pub fn sort_history_newest_first(entries: Vec<HistoryEntry>) -> (r: Vec<HistoryEntry>)
    ensures
        stable_newest_order(r@, entries@),
        r@ == newest_order(entries@),
{
    let ghost all = entries@;
    let mut rest = entries;
    let mut r: Vec<HistoryEntry> = Vec::new();
    let ghost mut done: Seq<HistoryEntry> = Seq::empty();
    proof {
        reveal(Seq::filter);
        assert forall|secs: i64, nanos: u32| #[trigger] entries_at(r@, secs, nanos) == entries_at(done, secs, nanos) by {
            assert(r@ =~= done);
        }
    }
    while rest.len() > 0
        invariant
            newest_first(r@),
            done + rest@ == all,
            forall|secs: i64, nanos: u32| #[trigger] entries_at(r@, secs, nanos) == entries_at(done, secs, nanos),
        decreases rest.len(),
    {
        let ghost rest_before = rest@;
        let x = rest.remove(0);
        let xs = x.timestamp_secs;
        let xn = x.timestamp_nanos;
        let mut p: usize = 0;
        let mut searching = true;
        while searching && p < r.len()
            invariant
                p <= r.len(),
                newest_first(r@),
                x@.timestamp_secs == xs,
                x@.timestamp_nanos == xn,
                forall|k: int| 0 <= k < p ==> !recorded_after(x@, #[trigger] r@[k]@),
                !searching ==> p < r.len() && recorded_after(x@, r@[p as int]@),
            decreases r.len() - p + if searching {
                1int
            } else {
                0int
            },
        {
            let later = xs > r[p].timestamp_secs || (xs == r[p].timestamp_secs && xn > r[p].timestamp_nanos);
            if later {
                searching = false;
            } else {
                p = p + 1;
            }
        }
        let ghost before = r@;
        proof {
            assert forall|k: int| p <= k < before.len() implies recorded_after(x@, #[trigger] before[k]@) by {
                if k > p {
                    assert(!recorded_after(before[k]@, before[p as int]@));
                }
            }
        }
        r.insert(p, x);
        proof {
            assert(r@ == before.insert(p as int, x));
            assert forall|i: int, j: int| 0 <= i < j < r@.len() implies !recorded_after(
                #[trigger] r@[j]@,
                #[trigger] r@[i]@,
            ) by {
                if j < p {
                    assert(r@[i] == before[i] && r@[j] == before[j]);
                } else if j == p {
                    assert(r@[i] == before[i]);
                } else if i < p {
                    assert(r@[i] == before[i] && r@[j] == before[j - 1]);
                    assert(!recorded_after(before[j - 1]@, before[i]@));
                } else if i == p {
                    assert(r@[j] == before[j - 1]);
                } else {
                    assert(r@[i] == before[i - 1] && r@[j] == before[j - 1]);
                }
            }
            let ghost done_before = done;
            done = done.push(x);
            assert(done + rest@ =~= all) by {
                assert(rest_before =~= seq![x] + rest@);
                assert(done_before + rest_before == all);
            }
            assert forall|secs: i64, nanos: u32| #[trigger] entries_at(r@, secs, nanos) == entries_at(done, secs, nanos) by {
                lemma_insert_keeps_groups(before, p as int, x, secs, nanos);
                done_before.lemma_filter_push(x, recorded_at(secs, nanos));
                assert(entries_at(before, secs, nanos) == entries_at(done_before, secs, nanos));
            }
        }
    }
    proof {
        assert(done =~= all);
        lemma_newest_order_is_unique(r@, newest_order(all), all);
    }
    r
}


/// The groups of equal instants, taken from the end: dropping the last entry of `s` drops
/// the last entry of its own group and leaves the others as they were.
proof fn lemma_groups_drop_last(s: Seq<HistoryEntry>, secs: i64, nanos: u32)
    requires
        s.len() > 0,
    ensures
        recorded_at(secs, nanos)(s.last()) ==> entries_at(s, secs, nanos).len() > 0
            && entries_at(s, secs, nanos).last() == s.last() && entries_at(s, secs, nanos).drop_last()
            == entries_at(s.drop_last(), secs, nanos),
        !recorded_at(secs, nanos)(s.last()) ==> entries_at(s, secs, nanos) == entries_at(
            s.drop_last(),
            secs,
            nanos,
        ),
{
    let p = recorded_at(secs, nanos);
    assert(s =~= s.drop_last().push(s.last()));
    s.drop_last().lemma_filter_push(s.last(), p);
}

/// An entry that is in `s` is in its own group of `s`.
proof fn lemma_in_own_group(s: Seq<HistoryEntry>, i: int)
    requires
        0 <= i < s.len(),
    ensures
        entries_at(s, s[i]@.timestamp_secs, s[i]@.timestamp_nanos).len() > 0,
{
    let p = recorded_at(s[i]@.timestamp_secs, s[i]@.timestamp_nanos);
    s.lemma_filter_contains(p, i);
}

/// Whatever is in a group of `s` is in `s`.
proof fn lemma_group_member_in_seq(s: Seq<HistoryEntry>, secs: i64, nanos: u32)
    requires
        entries_at(s, secs, nanos).len() > 0,
    ensures
        exists|i: int| 0 <= i < s.len() && s[i]@.timestamp_secs == secs && s[i]@.timestamp_nanos == nanos,
{
    let p = recorded_at(secs, nanos);
    let g = entries_at(s, secs, nanos);
    s.lemma_filter_pred(p, 0);
    assert(g.contains(g[0]));
    s.lemma_filter_contains_rev(p, g[0]);
    let i = choose|i: int| 0 <= i < s.len() && s[i] == g[0];
    assert(s[i]@.timestamp_secs == secs && s[i]@.timestamp_nanos == nanos);
}

/// In an order with no entry before one recorded after it, the last entry is recorded no
/// later than any entry.
proof fn lemma_last_is_oldest(s: Seq<HistoryEntry>, i: int)
    requires
        newest_first(s),
        0 <= i < s.len(),
    ensures
        !recorded_after(s.last()@, s[i]@),
{
    if i < s.len() - 1 {
        assert(!recorded_after(s[s.len() - 1]@, s[i]@));
    }
}

/// Law: the stable newest-first order of a list of entries is unique, so loading gives
/// exactly one answer for a given file.
pub proof fn lemma_newest_order_is_unique(a: Seq<HistoryEntry>, b: Seq<HistoryEntry>, s: Seq<HistoryEntry>)
    requires
        stable_newest_order(a, s),
        stable_newest_order(b, s),
    ensures
        a == b,
{
    assert forall|secs: i64, nanos: u32| #[trigger] entries_at(a, secs, nanos) == entries_at(b, secs, nanos) by {
        assert(entries_at(a, secs, nanos) == entries_at(s, secs, nanos));
        assert(entries_at(b, secs, nanos) == entries_at(s, secs, nanos));
    }
    lemma_same_groups_same_order(a, b);
}

proof fn lemma_same_groups_same_order(a: Seq<HistoryEntry>, b: Seq<HistoryEntry>)
    requires
        newest_first(a),
        newest_first(b),
        forall|secs: i64, nanos: u32| #[trigger] entries_at(a, secs, nanos) == entries_at(b, secs, nanos),
    ensures
        a == b,
    decreases a.len() + b.len(),
{
    if a.len() == 0 || b.len() == 0 {
        if a.len() > 0 {
            lemma_in_own_group(a, 0);
            let (ks, kn) = (a[0]@.timestamp_secs, a[0]@.timestamp_nanos);
            assert(entries_at(a, ks, kn) == entries_at(b, ks, kn));
            lemma_group_member_in_seq(b, ks, kn);
        }
        if b.len() > 0 {
            lemma_in_own_group(b, 0);
            let (ks, kn) = (b[0]@.timestamp_secs, b[0]@.timestamp_nanos);
            assert(entries_at(a, ks, kn) == entries_at(b, ks, kn));
            lemma_group_member_in_seq(a, ks, kn);
        }
        assert(a =~= b);
    } else {
        let x = a.last();
        let y = b.last();
        let (xs, xn) = (x@.timestamp_secs, x@.timestamp_nanos);
        let (ys, yn) = (y@.timestamp_secs, y@.timestamp_nanos);
        lemma_in_own_group(b, b.len() - 1);
        assert(entries_at(a, ys, yn) == entries_at(b, ys, yn));
        lemma_group_member_in_seq(a, ys, yn);
        let i = choose|i: int| 0 <= i < a.len() && a[i]@.timestamp_secs == ys && a[i]@.timestamp_nanos == yn;
        lemma_last_is_oldest(a, i);
        lemma_in_own_group(a, a.len() - 1);
        assert(entries_at(a, xs, xn) == entries_at(b, xs, xn));
        lemma_group_member_in_seq(b, xs, xn);
        let j = choose|j: int| 0 <= j < b.len() && b[j]@.timestamp_secs == xs && b[j]@.timestamp_nanos == xn;
        lemma_last_is_oldest(b, j);
        assert(xs == ys && xn == yn);
        lemma_groups_drop_last(a, xs, xn);
        lemma_groups_drop_last(b, xs, xn);
        assert(x == y);
        assert forall|secs: i64, nanos: u32| #[trigger] entries_at(a.drop_last(), secs, nanos) == entries_at(
            b.drop_last(),
            secs,
            nanos,
        ) by {
            lemma_groups_drop_last(a, secs, nanos);
            lemma_groups_drop_last(b, secs, nanos);
            assert(entries_at(a, secs, nanos) == entries_at(b, secs, nanos));
        }
        assert(newest_first(a.drop_last()));
        assert(newest_first(b.drop_last()));
        lemma_same_groups_same_order(a.drop_last(), b.drop_last());
        assert(a =~= a.drop_last().push(x));
        assert(b =~= b.drop_last().push(y));
    }
}

/// Where the history file lies.
#[derive(Debug)]
pub struct HistoryStore {
    path: String,
}

impl HistoryStore {
    pub closed spec fn path_view(&self) -> Seq<char> {
        self.path@
    }

    pub fn new(path: String) -> (r: HistoryStore)
        ensures
            r.path_view() == path@,
    {
        HistoryStore { path }
    }

    pub fn path(&self) -> (r: &str)
        ensures
            r@ == self.path_view(),
    {
        self.path.as_str()
    }

    /// What loading gives for the entries read from the file, in file order: newest first
    /// (a stable order), cut to `limit` entries where a limit is given.
    pub fn load_entries(entries: Vec<HistoryEntry>, limit: Option<usize>) -> (r: Vec<HistoryEntry>)
        ensures
            r@ == loaded_entries(entries@, limit),
    {
        let mut sorted = sort_history_newest_first(entries);
        let ghost full = sorted@;
        assert(full == newest_order(entries@));
        match limit {
            Some(n) => {
                sorted.truncate(n);
                proof {
                    if n < full.len() {
                        assert(sorted@ =~= full.take(n as int));
                    }
                }
            },
            None => {},
        }
        sorted
    }
}

/// The line that `format_history_entry` prints for an entry.
pub open spec fn history_line(e: HistoryEntryView) -> Seq<char> {
    chrono_rfc3339(e.timestamp_secs, e.timestamp_nanos).unwrap() + " | "@ + (if e.success {
        "SUCCESS"@
    } else {
        "FAIL"@
    }) + " | "@ + e.profile_name + " | "@ + e.profile_id + match e.message {
        Some(m) => " | "@ + m,
        None => Seq::<char>::empty(),
    }
}

/// `time | SUCCESS or FAIL | name | id`, and ` | message` where there is one.
pub fn format_history_entry(entry: &HistoryEntry) -> (r: String)
    ensures
        chrono_rfc3339(entry@.timestamp_secs, entry@.timestamp_nanos) is Some,
        r@ == history_line(entry@),
{
    proof {
        use_type_invariant(entry);
    }
    let stamp = rfc3339_text(entry.timestamp_secs, entry.timestamp_nanos);
    let mut out = match stamp {
        Some(t) => t,
        None => String::new(),
    };
    out.append(" | ");
    if entry.success {
        out.append("SUCCESS");
    } else {
        out.append("FAIL");
    }
    out.append(" | ");
    out.append(entry.profile_name.as_str());
    out.append(" | ");
    out.append(entry.profile_id.as_str());
    match &entry.message {
        Some(m) => {
            out.append(" | ");
            out.append(m.as_str());
        },
        None => {},
    }
    out
}

} // verus!
