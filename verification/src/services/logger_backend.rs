//! Storage of sampling logs: the query rules shared by every backend, and the
//! backend trait.
use vstd::prelude::*;
use crate::models::sampling::{entries_view, SamplingLogEntry, SamplingLogEntryView, SamplingStatus};

verus! {

// ---------------------------------------------------------------------------
// Which entries a query selects
// ---------------------------------------------------------------------------

/// Whether the log entry id `id` belongs to `server`: the part of `id` before
/// its first `':'` (all of `id` when it has none) is `server`.
pub open spec fn id_names_server(id: Seq<char>, server: Seq<char>) -> bool {
    &&& server.len() <= id.len()
    &&& id.take(server.len() as int) == server
    &&& forall|j: int| 0 <= j < server.len() ==> server[j] != ':'
    &&& (server.len() == id.len() || id[server.len() as int] == ':')
}

/// Whether the status filter `filter` lets an entry of status `status` through:
/// `"success"` and `"failed"` select that status, anything else selects all.
pub open spec fn status_selects(filter: Seq<char>, status: SamplingStatus) -> bool {
    if filter == "success"@ {
        status == SamplingStatus::Success
    } else if filter == "failed"@ {
        status == SamplingStatus::Failed
    } else {
        true
    }
}

/// The entries of `server` that pass the status filter.
pub open spec fn query_pred(server: Seq<char>, filter: Seq<char>) -> spec_fn(SamplingLogEntryView) -> bool {
    |e: SamplingLogEntryView| id_names_server(e.id, server) && status_selects(filter, e.status)
}

/// The entries of `server`.
pub open spec fn server_pred(server: Seq<char>) -> spec_fn(SamplingLogEntryView) -> bool {
    |e: SamplingLogEntryView| id_names_server(e.id, server)
}

/// The entries of every server but `server`.
pub open spec fn other_server_pred(server: Seq<char>) -> spec_fn(SamplingLogEntryView) -> bool {
    |e: SamplingLogEntryView| !id_names_server(e.id, server)
}

// ---------------------------------------------------------------------------
// Order of the results
// ---------------------------------------------------------------------------

/// Lexicographic order of strings by their characters, as `String`'s `<`.
pub open spec fn lex_less(a: Seq<char>, b: Seq<char>) -> bool
    decreases a.len(),
{
    if a.len() == 0 {
        b.len() > 0
    } else if b.len() == 0 {
        false
    } else if (a[0] as int) < (b[0] as int) {
        true
    } else if a[0] == b[0] {
        lex_less(a.drop_first(), b.drop_first())
    } else {
        false
    }
}

/// `e` inserted into `sorted` (newest first) after every entry whose timestamp is
/// not older than its own: the step of a stable sort by descending timestamp.
pub open spec fn insert_newest_first(sorted: Seq<SamplingLogEntryView>, e: SamplingLogEntryView) -> Seq<SamplingLogEntryView>
    decreases sorted.len(),
{
    if sorted.len() == 0 {
        seq![e]
    } else if lex_less(sorted[0].timestamp, e.timestamp) {
        seq![e] + sorted
    } else {
        seq![sorted[0]] + insert_newest_first(sorted.drop_first(), e)
    }
}

/// `s` stably sorted by descending timestamp (newest first; entries with equal
/// timestamps keep their order).
pub open spec fn newest_first(s: Seq<SamplingLogEntryView>) -> Seq<SamplingLogEntryView>
    decreases s.len(),
{
    if s.len() == 0 {
        s
    } else {
        insert_newest_first(newest_first(s.drop_last()), s.last())
    }
}

/// Whether no entry of `s` is older than an entry after it.
pub open spec fn sorted_newest_first(s: Seq<SamplingLogEntryView>) -> bool {
    forall|i: int, j: int| 0 <= i < j < s.len() ==> !lex_less(#[trigger] s[i].timestamp, #[trigger] s[j].timestamp)
}

// ---------------------------------------------------------------------------
// The queries
// ---------------------------------------------------------------------------

/// At most `limit` of the entries of `server` in `stored` that pass the status
/// filter, newest first.
pub open spec fn log_query(stored: Seq<SamplingLogEntryView>, server: Seq<char>, limit: nat, filter: Seq<char>) -> Seq<SamplingLogEntryView> {
    let s = newest_first(stored.filter(query_pred(server, filter)));
    if limit < s.len() {
        s.take(limit as int)
    } else {
        s
    }
}

/// How many entries of `stored` belong to `server`.
pub open spec fn count_for(stored: Seq<SamplingLogEntryView>, server: Seq<char>) -> nat {
    stored.filter(server_pred(server)).len()
}

/// `stored` without the entries of `server`.
pub open spec fn without_server(stored: Seq<SamplingLogEntryView>, server: Seq<char>) -> Seq<SamplingLogEntryView> {
    stored.filter(other_server_pred(server))
}

// ---------------------------------------------------------------------------
// Properties of the order
// ---------------------------------------------------------------------------

/// `lex_less` is irreflexive and asymmetric.
pub proof fn lemma_lex_less_asymmetric(a: Seq<char>, b: Seq<char>)
    ensures
        lex_less(a, b) ==> !lex_less(b, a),
        !lex_less(a, a),
    decreases a.len(),
{
    if a.len() > 0 && b.len() > 0 && a[0] == b[0] {
        lemma_lex_less_asymmetric(a.drop_first(), b.drop_first());
    }
    if a.len() > 0 {
        lemma_lex_less_asymmetric(a.drop_first(), a.drop_first());
    }
}

/// `lex_less` is the dictionary order of characters: a proper prefix comes
/// before the longer string, and otherwise the first differing character
/// decides, the smaller one coming first.
pub proof fn lemma_lex_less_dictionary(a: Seq<char>, b: Seq<char>, k: int)
    ensures
        a.len() < b.len() && a == b.take(a.len() as int) ==> lex_less(a, b),
        0 <= k < a.len() && k < b.len() && a.take(k) == b.take(k) && (a[k] as int) < (b[k] as int) ==> lex_less(a, b),
        0 <= k < a.len() && k < b.len() && a.take(k) == b.take(k) && (a[k] as int) > (b[k] as int) ==> !lex_less(a, b),
    decreases a.len(),
{
    if a.len() > 0 && b.len() > 0 {
        if a.len() < b.len() && a == b.take(a.len() as int) {
            assert(a[0] == b[0]);
            assert(a.drop_first() =~= b.drop_first().take(a.drop_first().len() as int));
        }
        if 0 < k < a.len() && k < b.len() && a.take(k) == b.take(k) {
            assert(a[0] == a.take(k)[0] && b[0] == b.take(k)[0]);
            assert(a.drop_first().take(k - 1) =~= b.drop_first().take(k - 1)) by {
                assert forall|j: int| 0 <= j < k - 1 implies a.drop_first()[j] == b.drop_first()[j] by {
                    assert(a.take(k)[j + 1] == b.take(k)[j + 1]);
                }
            }
            assert(a.drop_first()[k - 1] == a[k] && b.drop_first()[k - 1] == b[k]);
        }
        lemma_lex_less_dictionary(a.drop_first(), b.drop_first(), k - 1);
    } else if a.len() == 0 && b.len() > 0 {
    }
}

/// `lex_less` is transitive.
pub proof fn lemma_lex_less_transitive(a: Seq<char>, b: Seq<char>, c: Seq<char>)
    requires
        lex_less(a, b),
        lex_less(b, c),
    ensures
        lex_less(a, c),
    decreases a.len(),
{
    if a.len() > 0 && b.len() > 0 && c.len() > 0 && a[0] == b[0] && b[0] == c[0] {
        lemma_lex_less_transitive(a.drop_first(), b.drop_first(), c.drop_first());
    }
}

/// `lex_less` is total: of two different strings one is less than the other.
pub proof fn lemma_lex_less_total(a: Seq<char>, b: Seq<char>)
    ensures
        a != b ==> lex_less(a, b) || lex_less(b, a),
    decreases a.len(),
{
    if a.len() > 0 && b.len() > 0 && a[0] == b[0] {
        lemma_lex_less_total(a.drop_first(), b.drop_first());
        if a.drop_first() == b.drop_first() {
            assert(a =~= seq![a[0]] + a.drop_first());
            assert(b =~= seq![b[0]] + b.drop_first());
        }
    }
    if a.len() == 0 && b.len() == 0 {
        assert(a =~= b);
    }
    if a.len() > 0 && b.len() > 0 && a[0] != b[0] {
        assert((a[0] as int) != (b[0] as int));
    }
}

/// What the insertion step holds: the entries of `sorted` and `e`.
proof fn lemma_insert_contents(sorted: Seq<SamplingLogEntryView>, e: SamplingLogEntryView)
    ensures
        insert_newest_first(sorted, e).len() == sorted.len() + 1,
        insert_newest_first(sorted, e).to_multiset() == sorted.to_multiset().insert(e),
    decreases sorted.len(),
{
    broadcast use vstd::seq_lib::group_to_multiset_ensures;
    if sorted.len() == 0 {
        assert(seq![e] =~= Seq::<SamplingLogEntryView>::empty().push(e));
    } else if lex_less(sorted[0].timestamp, e.timestamp) {
        vstd::seq_lib::lemma_multiset_commutative(seq![e], sorted);
        assert(seq![e] =~= Seq::<SamplingLogEntryView>::empty().push(e));
    } else {
        let rest = sorted.drop_first();
        lemma_insert_contents(rest, e);
        vstd::seq_lib::lemma_multiset_commutative(seq![sorted[0]], insert_newest_first(rest, e));
        vstd::seq_lib::lemma_multiset_commutative(seq![sorted[0]], rest);
        assert(sorted =~= seq![sorted[0]] + rest);
        assert(seq![sorted[0]] =~= Seq::<SamplingLogEntryView>::empty().push(sorted[0]));
    }
}

/// The insertion step keeps a sorted sequence sorted.
proof fn lemma_insert_sorted(sorted: Seq<SamplingLogEntryView>, e: SamplingLogEntryView)
    requires
        sorted_newest_first(sorted),
    ensures
        sorted_newest_first(insert_newest_first(sorted, e)),
    decreases sorted.len(),
{
    broadcast use vstd::seq_lib::group_to_multiset_ensures;
    let r = insert_newest_first(sorted, e);
    if sorted.len() == 0 {
    } else if lex_less(sorted[0].timestamp, e.timestamp) {
        assert forall|i: int, j: int| 0 <= i < j < r.len() implies !lex_less(#[trigger] r[i].timestamp, #[trigger] r[j].timestamp) by {
            if i == 0 {
                // sorted[j-1] is not newer than sorted[0], which is older than e
                assert(r[j] == sorted[j - 1]);
                if j - 1 > 0 {
                    assert(!lex_less(sorted[0].timestamp, sorted[j - 1].timestamp));
                }
                lemma_lex_less_total(sorted[0].timestamp, sorted[j - 1].timestamp);
                if sorted[0].timestamp != sorted[j - 1].timestamp {
                    lemma_lex_less_asymmetric(sorted[0].timestamp, sorted[j - 1].timestamp);
                    lemma_lex_less_transitive(sorted[j - 1].timestamp, sorted[0].timestamp, e.timestamp);
                }
                lemma_lex_less_asymmetric(sorted[j - 1].timestamp, e.timestamp);
            } else {
                assert(r[i] == sorted[i - 1]);
                assert(r[j] == sorted[j - 1]);
            }
        }
    } else {
        let rest = sorted.drop_first();
        let ins = insert_newest_first(rest, e);
        assert(sorted_newest_first(rest)) by {
            assert forall|i: int, j: int| 0 <= i < j < rest.len() implies !lex_less(#[trigger] rest[i].timestamp, #[trigger] rest[j].timestamp) by {
                assert(rest[i] == sorted[i + 1]);
                assert(rest[j] == sorted[j + 1]);
            }
        }
        lemma_insert_sorted(rest, e);
        lemma_insert_contents(rest, e);
        assert forall|i: int, j: int| 0 <= i < j < r.len() implies !lex_less(#[trigger] r[i].timestamp, #[trigger] r[j].timestamp) by {
            if i == 0 {
                assert(r[0] == sorted[0]);
                assert(r[j] == ins[j - 1]);
                // ins[j - 1] is e or an entry of rest
                assert(ins.to_multiset().count(ins[j - 1]) > 0);
                assert(rest.to_multiset().insert(e).count(ins[j - 1]) > 0);
                if ins[j - 1] != e {
                    assert(rest.to_multiset().count(ins[j - 1]) > 0);
                    assert(rest.contains(ins[j - 1]));
                    let k = choose|k: int| 0 <= k < rest.len() && rest[k] == ins[j - 1];
                    assert(rest[k] == sorted[k + 1]);
                    assert(!lex_less(sorted[0].timestamp, sorted[k + 1].timestamp));
                }
            } else {
                assert(r[i] == ins[i - 1]);
                assert(r[j] == ins[j - 1]);
            }
        }
    }
}

/// The result of [`newest_first`] is sorted, a rearrangement of its input.
pub proof fn lemma_newest_first(s: Seq<SamplingLogEntryView>)
    ensures
        sorted_newest_first(newest_first(s)),
        newest_first(s).len() == s.len(),
        newest_first(s).to_multiset() == s.to_multiset(),
    decreases s.len(),
{
    broadcast use vstd::seq_lib::group_to_multiset_ensures;
    if s.len() > 0 {
        lemma_newest_first(s.drop_last());
        lemma_insert_sorted(newest_first(s.drop_last()), s.last());
        lemma_insert_contents(newest_first(s.drop_last()), s.last());
        assert(s =~= s.drop_last().push(s.last()));
    }
}

/// Inserting at the first position whose entry is older is the insertion step.
pub proof fn lemma_insert_at(sorted: Seq<SamplingLogEntryView>, e: SamplingLogEntryView, k: int)
    requires
        0 <= k <= sorted.len(),
        forall|j: int| 0 <= j < k ==> !lex_less(#[trigger] sorted[j].timestamp, e.timestamp),
        k < sorted.len() ==> lex_less(sorted[k].timestamp, e.timestamp),
    ensures
        insert_newest_first(sorted, e) == sorted.insert(k, e),
    decreases sorted.len(),
{
    if sorted.len() == 0 {
        assert(sorted.insert(k, e) =~= seq![e]);
    } else if k == 0 {
        assert(sorted.insert(k, e) =~= seq![e] + sorted);
    } else {
        let rest = sorted.drop_first();
        assert forall|j: int| 0 <= j < k - 1 implies !lex_less(#[trigger] rest[j].timestamp, e.timestamp) by {
            assert(rest[j] == sorted[j + 1]);
        }
        lemma_insert_at(rest, e, k - 1);
        assert(!lex_less(sorted[0].timestamp, e.timestamp));
        assert(sorted.insert(k, e) =~= seq![sorted[0]] + rest.insert(k - 1, e));
    }
}

// ---------------------------------------------------------------------------
// Laws of the queries
// ---------------------------------------------------------------------------

/// An id made of a server name without `':'`, a `':'` and anything after it
/// belongs to that server and to no other.
pub proof fn lemma_id_of_server(server: Seq<char>, rest: Seq<char>, other: Seq<char>)
    requires
        forall|j: int| 0 <= j < server.len() ==> server[j] != ':',
    ensures
        id_names_server(server + seq![':'] + rest, server),
        other != server ==> !id_names_server(server + seq![':'] + rest, other),
{
    let id = server + seq![':'] + rest;
    assert(id.take(server.len() as int) =~= server);
    assert(id[server.len() as int] == ':');
    if other != server && id_names_server(id, other) {
        lemma_server_unique(id, server, other);
    }
}

/// An entry id belongs to one server at most.
pub proof fn lemma_server_unique(id: Seq<char>, a: Seq<char>, b: Seq<char>)
    requires
        id_names_server(id, a),
        id_names_server(id, b),
    ensures
        a == b,
{
    if a.len() < b.len() {
        assert(b[a.len() as int] == id.take(b.len() as int)[a.len() as int]);
    } else if b.len() < a.len() {
        assert(a[b.len() as int] == id.take(a.len() as int)[b.len() as int]);
    }
}

proof fn lemma_filter_implied<A>(s: Seq<A>, p: spec_fn(A) -> bool, q: spec_fn(A) -> bool)
    requires
        forall|x: A| #[trigger] q(x) ==> p(x),
    ensures
        s.filter(p).filter(q) == s.filter(q),
    decreases s.len(),
{
    if s.len() > 0 {
        let d = s.drop_last();
        lemma_filter_implied(d, p, q);
        assert(s =~= d.push(s.last()));
        d.lemma_filter_push(s.last(), p);
        d.lemma_filter_push(s.last(), q);
        d.filter(p).lemma_filter_push(s.last(), q);
    } else {
        reveal(Seq::filter);
    }
}

proof fn lemma_filter_disjoint<A>(s: Seq<A>, p: spec_fn(A) -> bool, q: spec_fn(A) -> bool)
    requires
        forall|x: A| #[trigger] q(x) ==> !p(x),
    ensures
        s.filter(p).filter(q).len() == 0,
    decreases s.len(),
{
    if s.len() > 0 {
        let d = s.drop_last();
        lemma_filter_disjoint(d, p, q);
        assert(s =~= d.push(s.last()));
        d.lemma_filter_push(s.last(), p);
        d.filter(p).lemma_filter_push(s.last(), q);
    } else {
        reveal(Seq::filter);
        reveal(Seq::filter);
    }
}

/// Whether `q` answers a query for at most `limit` entries of `server` in
/// `stored` that pass the status filter: newest first; as many as `limit`
/// allows of the matching entries; each of them an entry of `server` held in
/// `stored` that passes the filter; together part of the matching entries
/// (counted with repeats); and no matching entry left out is newer than any
/// entry returned.
pub open spec fn answers_query(stored: Seq<SamplingLogEntryView>, server: Seq<char>, limit: nat, filter: Seq<char>, q: Seq<SamplingLogEntryView>) -> bool {
    &&& sorted_newest_first(q)
    &&& q.len() == if limit < stored.filter(query_pred(server, filter)).len() {
        limit
    } else {
        stored.filter(query_pred(server, filter)).len()
    }
    &&& forall|i: int| 0 <= i < q.len() ==> stored.contains(#[trigger] q[i])
    &&& forall|i: int| 0 <= i < q.len() ==> id_names_server((#[trigger] q[i]).id, server) && status_selects(filter, q[i].status)
    &&& q.to_multiset().subset_of(stored.filter(query_pred(server, filter)).to_multiset())
    &&& forall|x: SamplingLogEntryView, i: int|
        #![trigger stored.filter(query_pred(server, filter)).to_multiset().count(x), q[i]]
        0 <= i < q.len() && stored.filter(query_pred(server, filter)).to_multiset().count(x) > q.to_multiset().count(x)
            ==> !lex_less(q[i].timestamp, x.timestamp)
}

/// A query keeps the newest of the matching entries: what it returns is part
/// of the entries of `server` held in `stored` that pass the status filter
/// (counted with repeats), and no matching entry that it leaves out is newer
/// than any entry it returns.
proof fn lemma_query_keeps_newest(stored: Seq<SamplingLogEntryView>, server: Seq<char>, limit: nat, filter: Seq<char>)
    ensures
        ({
            let q = log_query(stored, server, limit, filter);
            let m = stored.filter(query_pred(server, filter)).to_multiset();
            &&& q.to_multiset().subset_of(m)
            &&& forall|x: SamplingLogEntryView, i: int|
                #![trigger m.count(x), q[i]]
                0 <= i < q.len() && m.count(x) > q.to_multiset().count(x) ==> !lex_less(q[i].timestamp, x.timestamp)
        }),
{
    broadcast use vstd::seq_lib::group_to_multiset_ensures;
    broadcast use vstd::multiset::group_multiset_axioms;
    let f = stored.filter(query_pred(server, filter));
    let s = newest_first(f);
    let q = log_query(stored, server, limit, filter);
    let m = f.to_multiset();
    lemma_newest_first(f);
    let rest = s.skip(q.len() as int);
    assert(q =~= s.take(q.len() as int));
    assert(s =~= q + rest);
    vstd::seq_lib::lemma_multiset_commutative(q, rest);
    assert(m =~= q.to_multiset().add(rest.to_multiset()));
    assert forall|x: SamplingLogEntryView, i: int|
        #![trigger m.count(x), q[i]]
        0 <= i < q.len() && m.count(x) > q.to_multiset().count(x) implies !lex_less(q[i].timestamp, x.timestamp) by {
        assert(rest.to_multiset().count(x) > 0);
        assert(rest.contains(x));
        let k = choose|k: int| 0 <= k < rest.len() && rest[k] == x;
        assert(s[q.len() + k] == x);
        assert(s[i] == q[i]);
        assert(!lex_less(s[i].timestamp, s[q.len() + k].timestamp));
    }
}

/// What a query returns: at most `limit` entries, newest first, each of them an
/// entry of `server` held in `stored` that passes the status filter; as many
/// as `limit` allows of those there are; together part of the matching
/// entries (counted with repeats); and no matching entry left out is newer than
/// any entry returned.
pub proof fn lemma_query_results(stored: Seq<SamplingLogEntryView>, server: Seq<char>, limit: nat, filter: Seq<char>)
    ensures
        answers_query(stored, server, limit, filter, log_query(stored, server, limit, filter)),
{
    lemma_query_keeps_newest(stored, server, limit, filter);
    broadcast use vstd::seq_lib::group_to_multiset_ensures;
    let p = query_pred(server, filter);
    let f = stored.filter(p);
    let s = newest_first(f);
    let q = log_query(stored, server, limit, filter);
    lemma_newest_first(f);
    assert forall|i: int| 0 <= i < q.len() implies stored.contains(#[trigger] q[i]) && p(q[i]) by {
        assert(q[i] == s[i]);
        assert(s.to_multiset().count(s[i]) > 0);
        assert(f.contains(s[i]));
        stored.lemma_filter_contains_rev(p, s[i]);
    }
    assert forall|i: int, j: int| 0 <= i < j < q.len() implies !lex_less(#[trigger] q[i].timestamp, #[trigger] q[j].timestamp) by {
        assert(q[i] == s[i]);
        assert(q[j] == s[j]);
    }
}

/// The status filter means what its name says: `"failed"` lets through
/// exactly the failed entries, `"success"` exactly the successful ones, and
/// `"all"` every entry.
pub proof fn lemma_status_filters(status: SamplingStatus)
    ensures
        status_selects("failed"@, status) <==> status == SamplingStatus::Failed,
        status_selects("success"@, status) <==> status == SamplingStatus::Success,
        status_selects("all"@, status),
{
    reveal_strlit("all");
    reveal_strlit("success");
    reveal_strlit("failed");
    assert("failed"@.len() != "success"@.len());
    assert("all"@.len() != "success"@.len());
    assert("all"@.len() != "failed"@.len());
}

/// A query with the status filter `"failed"` returns only failed entries of
/// the server, and as many of the server's failed entries as `limit` allows;
/// likewise `"success"` with successful entries.
pub proof fn lemma_status_query(stored: Seq<SamplingLogEntryView>, server: Seq<char>, limit: nat)
    ensures
        forall|i: int| 0 <= i < log_query(stored, server, limit, "failed"@).len()
            ==> (#[trigger] log_query(stored, server, limit, "failed"@)[i]).status == SamplingStatus::Failed,
        forall|i: int| 0 <= i < log_query(stored, server, limit, "success"@).len()
            ==> (#[trigger] log_query(stored, server, limit, "success"@)[i]).status == SamplingStatus::Success,
        ({
            let n = stored.filter(|e: SamplingLogEntryView| id_names_server(e.id, server) && e.status == SamplingStatus::Failed).len();
            log_query(stored, server, limit, "failed"@).len() == if limit < n { limit } else { n }
        }),
        ({
            let n = stored.filter(|e: SamplingLogEntryView| id_names_server(e.id, server) && e.status == SamplingStatus::Success).len();
            log_query(stored, server, limit, "success"@).len() == if limit < n { limit } else { n }
        }),
{
    lemma_query_results(stored, server, limit, "failed"@);
    lemma_query_results(stored, server, limit, "success"@);
    let qf = log_query(stored, server, limit, "failed"@);
    let qs = log_query(stored, server, limit, "success"@);
    assert forall|i: int| 0 <= i < qf.len() implies (#[trigger] qf[i]).status == SamplingStatus::Failed by {
        lemma_status_filters(qf[i].status);
    }
    assert forall|i: int| 0 <= i < qs.len() implies (#[trigger] qs[i]).status == SamplingStatus::Success by {
        lemma_status_filters(qs[i].status);
    }
    let pf = |e: SamplingLogEntryView| id_names_server(e.id, server) && e.status == SamplingStatus::Failed;
    let ps = |e: SamplingLogEntryView| id_names_server(e.id, server) && e.status == SamplingStatus::Success;
    assert forall|e: SamplingLogEntryView| #[trigger] query_pred(server, "failed"@)(e) == pf(e) by {
        lemma_status_filters(e.status);
    }
    assert forall|e: SamplingLogEntryView| #[trigger] query_pred(server, "success"@)(e) == ps(e) by {
        lemma_status_filters(e.status);
    }
    assert(query_pred(server, "failed"@) =~= pf);
    assert(query_pred(server, "success"@) =~= ps);
}

/// With the filter `"all"` and a limit no smaller than the count, a query
/// returns every entry of the server: as many as `count_for` counts.
pub proof fn lemma_query_all_counts(stored: Seq<SamplingLogEntryView>, server: Seq<char>, limit: nat)
    requires
        limit >= count_for(stored, server),
    ensures
        log_query(stored, server, limit, "all"@).len() == count_for(stored, server),
{
    reveal_strlit("all");
    reveal_strlit("success");
    reveal_strlit("failed");
    assert("all"@.len() != "success"@.len());
    assert("all"@.len() != "failed"@.len());
    assert forall|x: SamplingLogEntryView| #[trigger] query_pred(server, "all"@)(x) == server_pred(server)(x) by {
        assert(status_selects("all"@, x.status));
    }
    assert(query_pred(server, "all"@) =~= server_pred(server));
    lemma_newest_first(stored.filter(server_pred(server)));
}

/// Clearing the entries of server `a` leaves none of them, and leaves the count
/// of every other server as it was.
pub proof fn lemma_clear_counts(stored: Seq<SamplingLogEntryView>, a: Seq<char>, b: Seq<char>)
    ensures
        count_for(without_server(stored, a), a) == 0,
        a != b ==> count_for(without_server(stored, a), b) == count_for(stored, b),
{
    lemma_filter_disjoint(stored, other_server_pred(a), server_pred(a));
    if a != b {
        assert forall|x: SamplingLogEntryView| #[trigger] server_pred(b)(x) implies other_server_pred(a)(x) by {
            if id_names_server(x.id, a) {
                lemma_server_unique(x.id, a, b);
            }
        }
        lemma_filter_implied(stored, other_server_pred(a), server_pred(b));
    }
}

// ---------------------------------------------------------------------------
// The backend trait
// ---------------------------------------------------------------------------

/// Why a backend could not carry out a request.
#[derive(Debug)]
pub struct BackendError {
    pub message: String,
}

/// A store of sampling log entries. Backends differ in where the entries live
/// and in how many they keep; every backend answers queries by the same rules.
pub trait LoggerBackend {
    /// The entries held, oldest first.
    spec fn stored(&self) -> Seq<SamplingLogEntryView>;

    /// The entries held after `e` is added.
    spec fn after_add(&self, e: SamplingLogEntryView) -> Seq<SamplingLogEntryView>;

    /// Whether every request to this backend succeeds.
    spec fn never_fails(&self) -> bool;

    /// Adds an entry.
    fn add_log(&mut self, entry: SamplingLogEntry) -> (r: Result<(), BackendError>)
        ensures
            old(self).never_fails() ==> r is Ok,
            final(self).never_fails() == old(self).never_fails(),
            r is Ok ==> final(self).stored() == old(self).after_add(entry@),
    ;

    /// At most `limit` entries of `server_name` that pass the status filter
    /// (`"all"`, `"success"` or `"failed"`), newest first.
    fn get_logs(&self, server_name: &str, limit: usize, status: &str) -> (r: Result<Vec<SamplingLogEntry>, BackendError>)
        ensures
            self.never_fails() ==> r is Ok,
            r matches Ok(v) ==> entries_view(v@) == log_query(self.stored(), server_name@, limit as nat, status@),
            r matches Ok(v) ==> answers_query(self.stored(), server_name@, limit as nat, status@, entries_view(v@)),
    ;

    /// How many entries of `server_name` are held.
    fn count_logs(&self, server_name: &str) -> (r: Result<usize, BackendError>)
        ensures
            self.never_fails() ==> r is Ok,
            r matches Ok(n) ==> n == count_for(self.stored(), server_name@),
    ;

    /// Removes every entry of `server_name`.
    fn clear_logs(&mut self, server_name: &str) -> (r: Result<(), BackendError>)
        ensures
            old(self).never_fails() ==> r is Ok,
            final(self).never_fails() == old(self).never_fails(),
            r is Ok ==> final(self).stored() == without_server(old(self).stored(), server_name@),
    ;
}

} // verus!
