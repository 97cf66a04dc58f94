//! A sampling log held in memory, with a fixed capacity per server and FIFO
//! rotation.
use vstd::prelude::*;
use crate::models::sampling::{entries_view, SamplingLogEntry, SamplingLogEntryView, SamplingStatus};
use crate::services::logger_backend::{
    count_for, id_names_server, insert_newest_first, lemma_insert_at, lex_less, log_query,
    newest_first, other_server_pred, query_pred, server_pred, status_selects, without_server,
    BackendError, LoggerBackend,
};
use crate::services::persistent_logger::{id_server, server_of_id};
use crate::text::{chars_of, str_eq};

verus! {

/// The index of the first entry of `s` that `p` selects (`s.len()` when there
/// is none).
pub open spec fn first_match(s: Seq<SamplingLogEntryView>, p: spec_fn(SamplingLogEntryView) -> bool) -> int
    decreases s.len(),
{
    if s.len() == 0 {
        0
    } else if p(s[0]) {
        0
    } else {
        1 + first_match(s.drop_first(), p)
    }
}

/// `s` after rotation for `server`: when `s` holds more than `max` entries of
/// `server`, the oldest of them leaves; entries of other servers stay.
pub open spec fn rotated(s: Seq<SamplingLogEntryView>, server: Seq<char>, max: nat) -> Seq<SamplingLogEntryView> {
    if s.filter(server_pred(server)).len() > max {
        s.remove(first_match(s, server_pred(server)))
    } else {
        s
    }
}

/// The last `max` entries of `s` (all of them when it has fewer).
pub open spec fn keep_newest(s: Seq<SamplingLogEntryView>, max: nat) -> Seq<SamplingLogEntryView> {
    if s.len() > max {
        s.skip(s.len() - max)
    } else {
        s
    }
}

/// The newest `max` entries are the last ones of `s`, in order: as many as
/// `max` allows, ending with the last entry of `s`.
pub proof fn lemma_keep_newest_is_suffix(s: Seq<SamplingLogEntryView>, max: nat)
    ensures
        keep_newest(s, max).len() == if s.len() > max { max } else { s.len() },
        forall|i: int| 0 <= i < keep_newest(s, max).len()
            ==> #[trigger] keep_newest(s, max)[i] == s[s.len() - keep_newest(s, max).len() + i],
{
}

/// What a memory logger of capacity `max` holds after `adds` were added to it,
/// one after the other, starting empty: each addition is followed by the
/// rotation of its own server.
pub open spec fn replay(adds: Seq<SamplingLogEntryView>, max: nat) -> Seq<SamplingLogEntryView>
    decreases adds.len(),
{
    if adds.len() == 0 {
        adds
    } else {
        rotated(replay(adds.drop_last(), max).push(adds.last()), id_server(adds.last().id), max)
    }
}

/// Where the first selected entry stands, and what removing it does to the
/// filters.
proof fn lemma_first_match(s: Seq<SamplingLogEntryView>, p: spec_fn(SamplingLogEntryView) -> bool)
    requires
        s.filter(p).len() > 0,
    ensures
        0 <= first_match(s, p) < s.len(),
        p(s[first_match(s, p)]),
        s.take(first_match(s, p)).filter(p) == Seq::<SamplingLogEntryView>::empty(),
    decreases s.len(),
{
    if s.len() == 0 {
        reveal(Seq::filter);
    } else {
        let t = s.drop_first();
        assert(s =~= seq![s[0]] + t);
        t.lemma_filter_prepend(s[0], p);
        if p(s[0]) {
            assert(s.take(0) =~= Seq::<SamplingLogEntryView>::empty());
            reveal(Seq::filter);
        } else {
            assert(s.filter(p) == t.filter(p));
            lemma_first_match(t, p);
            let k = first_match(s, p);
            t.take(k - 1).lemma_filter_prepend(s[0], p);
            assert(s.take(k) =~= seq![s[0]] + t.take(k - 1));
            assert(s[k] == t[k - 1]);
        }
    }
}

/// The first index whose entry `p` selects, when none before it is selected.
proof fn lemma_first_match_at(s: Seq<SamplingLogEntryView>, p: spec_fn(SamplingLogEntryView) -> bool, i: int)
    requires
        0 <= i < s.len(),
        p(s[i]),
        forall|j: int| 0 <= j < i ==> !p(#[trigger] s[j]),
    ensures
        first_match(s, p) == i,
    decreases i,
{
    if i > 0 {
        assert(!p(s[0]));
        let t = s.drop_first();
        assert forall|j: int| 0 <= j < i - 1 implies !p(#[trigger] t[j]) by {
            assert(t[j] == s[j + 1]);
        }
        lemma_first_match_at(t, p, i - 1);
    }
}

/// Removing the first entry that `p` selects drops the first of the
/// `p`-filtered entries, and changes no filter that does not select it.
proof fn lemma_remove_first(s: Seq<SamplingLogEntryView>, p: spec_fn(SamplingLogEntryView) -> bool, q: spec_fn(SamplingLogEntryView) -> bool)
    requires
        s.filter(p).len() > 0,
    ensures
        s.remove(first_match(s, p)).filter(p) == s.filter(p).drop_first(),
        !q(s[first_match(s, p)]) ==> s.remove(first_match(s, p)).filter(q) == s.filter(q),
{
    lemma_first_match(s, p);
    let k = first_match(s, p);
    let a = s.take(k);
    let b = s.skip(k + 1);
    assert(s =~= a + (seq![s[k]] + b));
    assert(s.remove(k) =~= a + b);
    b.lemma_filter_prepend(s[k], p);
    b.lemma_filter_prepend(s[k], q);
    Seq::filter_distributes_over_add(a, seq![s[k]] + b, p);
    Seq::filter_distributes_over_add(a, b, p);
    Seq::filter_distributes_over_add(a, seq![s[k]] + b, q);
    Seq::filter_distributes_over_add(a, b, q);
    assert(a.filter(p) + (seq![s[k]] + b).filter(p) =~= (seq![s[k]] + b).filter(p));
    assert(a.filter(p) + b.filter(p) =~= b.filter(p));
    assert((seq![s[k]] + b).filter(p) == seq![s[k]] + b.filter(p));
    assert((seq![s[k]] + b.filter(p)).drop_first() =~= b.filter(p));
    if !q(s[k]) {
        assert((seq![s[k]] + b).filter(q) == b.filter(q));
    }
}

/// FIFO rotation per server: after the entries `adds` were added one after the
/// other to an empty memory logger of capacity `max`, the entries it holds of
/// any server are the last `max` entries added for that server (all of them
/// when there were fewer), oldest first; never more than `max`. Adding an
/// entry of one server never evicts an entry of another.
pub proof fn lemma_replay_keeps_newest(adds: Seq<SamplingLogEntryView>, max: nat, server: Seq<char>)
    ensures
        replay(adds, max).filter(server_pred(server)) == keep_newest(adds.filter(server_pred(server)), max),
        replay(adds, max).filter(server_pred(server)).len() <= max,
    decreases adds.len(),
{
    let ps = server_pred(server);
    if adds.len() == 0 {
        reveal(Seq::filter);
        assert(adds.filter(ps) =~= Seq::<SamplingLogEntryView>::empty());
    } else {
        let d = adds.drop_last();
        let a = adds.last();
        let srv = id_server(a.id);
        let pa = server_pred(srv);
        lemma_replay_keeps_newest(d, max, server);
        crate::services::persistent_logger::lemma_id_names_its_server(a.id, srv);
        crate::services::persistent_logger::lemma_id_names_its_server(a.id, server);
        let r = replay(d, max);
        let t = r.push(a);
        assert(adds =~= d.push(a));
        d.lemma_filter_push(a, ps);
        r.lemma_filter_push(a, ps);
        let x = d.filter(ps);
        if server == srv {
            assert(pa == ps);
            assert(ps(a));
            if t.filter(pa).len() > max {
                lemma_remove_first(t, pa, pa);
                assert(x.len() >= max);
                assert(keep_newest(x, max).push(a).drop_first() =~= x.push(a).skip(x.push(a).len() - max));
            } else {
                assert(x.len() < max || x.len() == 0 || x.len() <= max);
                assert(keep_newest(x, max) == x);
            }
        } else {
            assert(!ps(a));
            if t.filter(pa).len() > max {
                r.lemma_filter_push(a, pa);
                lemma_first_match(t, pa);
                let k = first_match(t, pa);
                if ps(t[k]) {
                    crate::services::logger_backend::lemma_server_unique(t[k].id, srv, server);
                }
                lemma_remove_first(t, pa, ps);
            }
        }
    }
}

/// No server has more than `max` entries in `s`.
pub open spec fn within_cap(s: Seq<SamplingLogEntryView>, max: nat) -> bool {
    forall|server: Seq<char>| #[trigger] s.filter(server_pred(server)).len() <= max
}

/// Adding one entry to `adds` and rotating is the next step of the replay.
pub proof fn lemma_replay_step(adds: Seq<SamplingLogEntryView>, e: SamplingLogEntryView, max: nat)
    ensures
        replay(adds.push(e), max) == rotated(replay(adds, max).push(e), id_server(e.id), max),
{
    assert(adds.push(e).drop_last() =~= adds);
}

/// Adding an entry and rotating for its server keeps every server within the
/// capacity, and leaves the entries of every other server as they were.
pub proof fn lemma_rotated_within_cap(s: Seq<SamplingLogEntryView>, e: SamplingLogEntryView, max: nat)
    ensures
        within_cap(s, max) ==> within_cap(rotated(s.push(e), id_server(e.id), max), max),
        forall|server: Seq<char>| server != id_server(e.id) ==>
            #[trigger] rotated(s.push(e), id_server(e.id), max).filter(server_pred(server)) == s.filter(server_pred(server)),
{
    let srv = id_server(e.id);
    let pa = server_pred(srv);
    let t = s.push(e);
    crate::services::persistent_logger::lemma_id_names_its_server(e.id, srv);
    s.lemma_filter_push(e, pa);
    assert forall|server: Seq<char>|
        (s.filter(server_pred(server)).len() <= max ==> #[trigger] rotated(t, srv, max).filter(server_pred(server)).len() <= max)
        && (server != srv ==> rotated(t, srv, max).filter(server_pred(server)) == s.filter(server_pred(server))) by {
        let ps = server_pred(server);
        crate::services::persistent_logger::lemma_id_names_its_server(e.id, server);
        s.lemma_filter_push(e, ps);
        if server == srv {
            assert(pa == ps);
            if t.filter(pa).len() > max {
                lemma_remove_first(t, pa, pa);
            }
        } else {
            assert(!ps(e));
            assert(t.filter(ps) == s.filter(ps));
            if t.filter(pa).len() > max {
                lemma_first_match(t, pa);
                let k = first_match(t, pa);
                if ps(t[k]) {
                    crate::services::logger_backend::lemma_server_unique(t[k].id, srv, server);
                }
                lemma_remove_first(t, pa, ps);
            }
        }
    }
    if within_cap(s, max) {
        assert forall|server: Seq<char>| #[trigger] rotated(t, srv, max).filter(server_pred(server)).len() <= max by {
            assert(s.filter(server_pred(server)).len() <= max);
        }
    }
}

/// Sampling logs held in memory. At most `max_logs` entries of each server are
/// kept: adding one more for a server drops that server's oldest. Nothing
/// survives the process.
pub struct MemoryLogger {
    logs: Vec<SamplingLogEntry>,
    max_logs: usize,
}

proof fn lemma_view_push(s: Seq<SamplingLogEntry>, x: SamplingLogEntry)
    ensures
        entries_view(s.push(x)) == entries_view(s).push(x@),
{
    assert(entries_view(s.push(x)) =~= entries_view(s).push(x@));
}

proof fn lemma_view_insert(s: Seq<SamplingLogEntry>, k: int, x: SamplingLogEntry)
    requires
        0 <= k <= s.len(),
    ensures
        entries_view(s.insert(k, x)) == entries_view(s).insert(k, x@),
{
    assert(entries_view(s.insert(k, x)) =~= entries_view(s).insert(k, x@));
}

/// Whether the entry id `id` belongs to `server`.
pub fn names_server(id: &str, server: &str) -> (b: bool)
    ensures
        b == id_names_server(id@, server@),
{
    let ic = chars_of(id);
    let sc = chars_of(server);
    if sc.len() > ic.len() {
        return false;
    }
    let mut j: usize = 0;
    while j < sc.len()
        invariant
            j <= sc.len(),
            sc.len() <= ic.len(),
            ic@ == id@,
            sc@ == server@,
            forall|k: int| 0 <= k < j ==> sc@[k] == ic@[k] && sc@[k] != ':',
        decreases sc.len() - j,
    {
        if sc[j] != ic[j] {
            assert(id@.take(server@.len() as int)[j as int] == id@[j as int]);
            return false;
        }
        if sc[j] == ':' {
            return false;
        }
        j = j + 1;
    }
    assert(id@.take(server@.len() as int) =~= server@);
    sc.len() == ic.len() || ic[sc.len()] == ':'
}

/// Whether the status filter `filter` lets an entry of status `status` through.
pub fn selects_status(filter: &str, status: SamplingStatus) -> (b: bool)
    ensures
        b == status_selects(filter@, status),
{
    if str_eq(filter, "success") {
        status == SamplingStatus::Success
    } else if str_eq(filter, "failed") {
        status == SamplingStatus::Failed
    } else {
        true
    }
}

/// Whether `a` comes before `b` in the lexicographic order of their characters.
pub fn lex_less_str(a: &str, b: &str) -> (r: bool)
    ensures
        r == lex_less(a@, b@),
{
    let ac = chars_of(a);
    let bc = chars_of(b);
    let mut i: usize = 0;
    assert(a@.skip(0) =~= a@);
    assert(b@.skip(0) =~= b@);
    while i < ac.len() && i < bc.len() && ac[i] == bc[i]
        invariant
            i <= ac.len(),
            i <= bc.len(),
            ac@ == a@,
            bc@ == b@,
            lex_less(a@, b@) == lex_less(a@.skip(i as int), b@.skip(i as int)),
        decreases ac.len() - i,
    {
        assert(a@.skip(i as int).drop_first() =~= a@.skip(i + 1));
        assert(b@.skip(i as int).drop_first() =~= b@.skip(i + 1));
        i = i + 1;
    }
    if i == ac.len() {
        i < bc.len()
    } else if i == bc.len() {
        false
    } else {
        ac[i] < bc[i]
    }
}

/// `v` stably sorted by descending timestamp.
fn sort_newest_first(v: &Vec<SamplingLogEntry>) -> (r: Vec<SamplingLogEntry>)
    ensures
        entries_view(r@) == newest_first(entries_view(v@)),
{
    let ghost ev = entries_view(v@);
    let mut out: Vec<SamplingLogEntry> = Vec::new();
    let mut i: usize = 0;
    while i < v.len()
        invariant
            i <= v.len(),
            ev == entries_view(v@),
            entries_view(out@) == newest_first(ev.take(i as int)),
        decreases v.len() - i,
    {
        let e = &v[i];
        let mut k: usize = 0;
        let mut found = false;
        while k < out.len() && !found
            invariant
                k <= out.len(),
                found ==> k < out.len() && lex_less(out@[k as int].timestamp@, e.timestamp@),
                forall|j: int| 0 <= j < k ==> !lex_less(#[trigger] out@[j].timestamp@, e.timestamp@),
            decreases out.len() - k + (if found { 0int } else { 1int }),
        {
            if lex_less_str(out[k].timestamp.as_str(), e.timestamp.as_str()) {
                found = true;
            } else {
                k = k + 1;
            }
        }
        proof {
            let sorted = entries_view(out@);
            assert forall|j: int| 0 <= j < k implies !lex_less(#[trigger] sorted[j].timestamp, e@.timestamp) by {
                assert(sorted[j] == out@[j]@);
            }
            lemma_insert_at(sorted, e@, k as int);
            let t = ev.take(i + 1);
            assert(t.drop_last() =~= ev.take(i as int));
            assert(t.last() == e@);
            assert(newest_first(t) == insert_newest_first(newest_first(t.drop_last()), t.last()));
        }
        let copy = e.duplicate();
        proof {
            lemma_view_insert(out@, k as int, copy);
        }
        out.insert(k, copy);
        i = i + 1;
    }
    assert(ev.take(v.len() as int) =~= ev);
    out
}

/// At most `limit` entries of `logs` that belong to `server_name` and pass the
/// status filter, newest first.
pub fn select_logs(logs: &Vec<SamplingLogEntry>, server_name: &str, limit: usize, status: &str) -> (r: Vec<SamplingLogEntry>)
    ensures
        entries_view(r@) == log_query(entries_view(logs@), server_name@, limit as nat, status@),
{
    let ghost ev = entries_view(logs@);
    let ghost p = query_pred(server_name@, status@);
    let mut filtered: Vec<SamplingLogEntry> = Vec::new();
    let mut i: usize = 0;
    while i < logs.len()
        invariant
            i <= logs.len(),
            ev == entries_view(logs@),
            p == query_pred(server_name@, status@),
            entries_view(filtered@) == ev.take(i as int).filter(p),
        decreases logs.len() - i,
    {
        let e = &logs[i];
        let keep = names_server(e.id.as_str(), server_name) && selects_status(status, e.status);
        proof {
            assert(ev.take(i + 1) =~= ev.take(i as int).push(ev[i as int]));
            ev.take(i as int).lemma_filter_push(ev[i as int], p);
            assert(p(ev[i as int]) == keep);
        }
        if keep {
            let copy = e.duplicate();
            proof {
                lemma_view_push(filtered@, copy);
            }
            filtered.push(copy);
        }
        i = i + 1;
    }
    assert(ev.take(logs.len() as int) =~= ev);
    let mut sorted = sort_newest_first(&filtered);
    let ghost s = entries_view(sorted@);
    sorted.truncate(limit);
    proof {
        if limit < s.len() {
            assert(entries_view(sorted@) =~= s.take(limit as int));
        } else {
            assert(entries_view(sorted@) =~= s);
        }
    }
    sorted
}

impl MemoryLogger {
    /// How many entries the logger keeps.
    pub closed spec fn capacity(&self) -> nat {
        self.max_logs as nat
    }

    /// An empty logger that keeps at most `max_logs` entries.
    pub fn new(max_logs: usize) -> (r: Self)
        ensures
            r.stored() == Seq::<SamplingLogEntryView>::empty(),
            r.capacity() == max_logs,
            within_cap(r.stored(), r.capacity()),
    {
        let r = MemoryLogger { logs: Vec::new(), max_logs };
        assert(r.stored() =~= Seq::<SamplingLogEntryView>::empty());
        assert forall|server: Seq<char>| #[trigger] r.stored().filter(server_pred(server)).len() <= max_logs by {
            reveal(Seq::filter);
        }
        r
    }
}

impl LoggerBackend for MemoryLogger {
    closed spec fn stored(&self) -> Seq<SamplingLogEntryView> {
        entries_view(self.logs@)
    }

    closed spec fn after_add(&self, e: SamplingLogEntryView) -> Seq<SamplingLogEntryView> {
        rotated(entries_view(self.logs@).push(e), id_server(e.id), self.max_logs as nat)
    }

    open spec fn never_fails(&self) -> bool {
        true
    }

    /// Adds an entry; when the logger then holds more entries of that entry's
    /// server than its capacity, the oldest entry of that server leaves.
    fn add_log(&mut self, entry: SamplingLogEntry) -> (r: Result<(), BackendError>)
        ensures
            final(self).capacity() == old(self).capacity(),
            final(self).stored() == rotated(old(self).stored().push(entry@), id_server(entry.id@), old(self).capacity()),
            within_cap(old(self).stored(), old(self).capacity()) ==> within_cap(final(self).stored(), final(self).capacity()),
            forall|server: Seq<char>| server != id_server(entry.id@) ==>
                #[trigger] final(self).stored().filter(server_pred(server)) == old(self).stored().filter(server_pred(server)),
    {
        proof {
            lemma_rotated_within_cap(entries_view(self.logs@), entry@, self.max_logs as nat);
        }
        let server = server_of_id(entry.id.as_str());
        proof {
            lemma_view_push(self.logs@, entry);
        }
        self.logs.push(entry);
        let ghost ev = entries_view(self.logs@);
        let ghost p = server_pred(server@);
        let mut count: usize = 0;
        let mut first: usize = 0;
        let mut found = false;
        let mut i: usize = 0;
        while i < self.logs.len()
            invariant
                i <= self.logs.len(),
                ev == entries_view(self.logs@),
                p == server_pred(server@),
                count == ev.take(i as int).filter(p).len(),
                count <= i,
                count > 0 ==> found,
                found ==> first < i && p(ev[first as int]) && forall|j: int| 0 <= j < first ==> !p(#[trigger] ev[j]),
                !found ==> forall|j: int| 0 <= j < i ==> !p(#[trigger] ev[j]),
            decreases self.logs.len() - i,
        {
            let keep = names_server(self.logs[i].id.as_str(), server.as_str());
            proof {
                assert(ev.take(i + 1) =~= ev.take(i as int).push(ev[i as int]));
                ev.take(i as int).lemma_filter_push(ev[i as int], p);
                assert(p(ev[i as int]) == keep);
            }
            if keep {
                count = count + 1;
                if !found {
                    found = true;
                    first = i;
                }
            }
            i = i + 1;
        }
        assert(ev.take(self.logs.len() as int) =~= ev);
        if count > self.max_logs {
            proof {
                lemma_first_match_at(ev, p, first as int);
            }
            let ghost before = self.logs@;
            let _oldest = self.logs.remove(first);
            assert(entries_view(self.logs@) =~= entries_view(before).remove(first as int));
        }
        proof {
            let s0 = entries_view(old(self).logs@);
            assert forall|srv: Seq<char>| srv != id_server(entry.id@) implies
                #[trigger] entries_view(self.logs@).filter(server_pred(srv)) == s0.filter(server_pred(srv)) by {
                assert(rotated(s0.push(entry@), id_server(entry@.id), self.max_logs as nat).filter(server_pred(srv))
                    == s0.filter(server_pred(srv)));
            }
        }
        Ok(())
    }

    fn get_logs(&self, server_name: &str, limit: usize, status: &str) -> (r: Result<Vec<SamplingLogEntry>, BackendError>)
    {
        proof {
            crate::services::logger_backend::lemma_query_results(entries_view(self.logs@), server_name@, limit as nat, status@);
        }
        Ok(select_logs(&self.logs, server_name, limit, status))
    }

    fn count_logs(&self, server_name: &str) -> (r: Result<usize, BackendError>)
    {
        let ghost ev = entries_view(self.logs@);
        let ghost p = server_pred(server_name@);
        let mut count: usize = 0;
        let mut i: usize = 0;
        while i < self.logs.len()
            invariant
                i <= self.logs.len(),
                ev == entries_view(self.logs@),
                p == server_pred(server_name@),
                count == ev.take(i as int).filter(p).len(),
                count <= i,
            decreases self.logs.len() - i,
        {
            let keep = names_server(self.logs[i].id.as_str(), server_name);
            proof {
                assert(ev.take(i + 1) =~= ev.take(i as int).push(ev[i as int]));
                ev.take(i as int).lemma_filter_push(ev[i as int], p);
                assert(p(ev[i as int]) == keep);
            }
            if keep {
                count = count + 1;
            }
            i = i + 1;
        }
        assert(ev.take(self.logs.len() as int) =~= ev);
        Ok(count)
    }

    fn clear_logs(&mut self, server_name: &str) -> (r: Result<(), BackendError>)
        ensures
            final(self).capacity() == old(self).capacity(),
    {
        let ghost ev = entries_view(self.logs@);
        let ghost p = other_server_pred(server_name@);
        let mut kept: Vec<SamplingLogEntry> = Vec::new();
        let mut i: usize = 0;
        while i < self.logs.len()
            invariant
                i <= self.logs.len(),
                ev == entries_view(self.logs@),
                p == other_server_pred(server_name@),
                entries_view(kept@) == ev.take(i as int).filter(p),
            decreases self.logs.len() - i,
        {
            let e = &self.logs[i];
            let other = !names_server(e.id.as_str(), server_name);
            proof {
                assert(ev.take(i + 1) =~= ev.take(i as int).push(ev[i as int]));
                ev.take(i as int).lemma_filter_push(ev[i as int], p);
                assert(p(ev[i as int]) == other);
            }
            if other {
                let copy = e.duplicate();
                proof {
                    lemma_view_push(kept@, copy);
                }
                kept.push(copy);
            }
            i = i + 1;
        }
        assert(ev.take(self.logs.len() as int) =~= ev);
        self.logs = kept;
        Ok(())
    }
}

} // verus!
