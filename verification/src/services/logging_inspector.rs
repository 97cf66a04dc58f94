//! The log messages that target servers send: kept in memory, filtered by
//! server, level and time, newest first.
use vstd::prelude::*;
use crate::models::logging_inspection::{LogEntry, LogLevel, LoggingMessagesRequest, LoggingMessagesResponse};
use crate::services::logger_backend::{lemma_lex_less_asymmetric, lemma_lex_less_total, lemma_lex_less_transitive, lex_less};
use crate::services::memory_logger::lex_less_str;
use crate::text::{concat2, str_eq};

verus! {

/// What `chrono::DateTime::parse_from_rfc3339` gives for `s`: the instant as
/// seconds since the Unix epoch and nanoseconds, or the text of its error.
pub uninterp spec fn rfc3339_instant(s: Seq<char>) -> Result<(i64, u32), Seq<char>>;

/// `chrono::DateTime::parse_from_rfc3339`, the instant taken as
/// `(timestamp, timestamp_subsec_nanos)` and the error as its display text.
#[verifier::external_body]
fn parse_rfc3339(s: &str) -> (r: Result<(i64, u32), String>)
    ensures
        match r {
            Ok(t) => rfc3339_instant(s@) == Ok::<(i64, u32), Seq<char>>(t),
            Err(e) => rfc3339_instant(s@) == Err::<(i64, u32), Seq<char>>(e@),
        },
{
    match chrono::DateTime::parse_from_rfc3339(s) {
        Ok(d) => Ok((d.timestamp(), d.timestamp_subsec_nanos())),
        Err(e) => Err(e.to_string()),
    }
}

/// The rank of a level, from 0 (debug) to 7 (emergency).
pub open spec fn level_rank(l: LogLevel) -> nat {
    match l {
        LogLevel::Debug => 0,
        LogLevel::Info => 1,
        LogLevel::Notice => 2,
        LogLevel::Warning => 3,
        LogLevel::Error => 4,
        LogLevel::Critical => 5,
        LogLevel::Alert => 6,
        LogLevel::Emergency => 7,
    }
}

fn rank(l: LogLevel) -> (r: u8)
    ensures
        r == level_rank(l),
{
    match l {
        LogLevel::Debug => 0,
        LogLevel::Info => 1,
        LogLevel::Notice => 2,
        LogLevel::Warning => 3,
        LogLevel::Error => 4,
        LogLevel::Critical => 5,
        LogLevel::Alert => 6,
        LogLevel::Emergency => 7,
    }
}

/// The levels from the least to the most severe.
pub open spec fn severity_order() -> Seq<LogLevel> {
    seq![LogLevel::Debug, LogLevel::Info, LogLevel::Notice, LogLevel::Warning, LogLevel::Error,
        LogLevel::Critical, LogLevel::Alert, LogLevel::Emergency]
}

/// The minimum-level filter follows the severity order debug < info < notice
/// < warning < error < critical < alert < emergency: the rank grows strictly
/// along that order, so a message passes the filter for level `m` exactly
/// when its level is `m` or a more severe one.
pub proof fn lemma_level_filter_follows_severity(i: int, j: int)
    requires
        0 <= i < 8,
        0 <= j < 8,
    ensures
        i < j ==> level_rank(severity_order()[i]) < level_rank(severity_order()[j]),
        level_rank(severity_order()[i]) >= level_rank(severity_order()[j]) <==> i >= j,
        forall|e: LogEntry, server: Seq<char>| e.level == severity_order()[i] ==>
            (#[trigger] message_selected(e, server, Some(severity_order()[j]), None)
                <==> (e.server_name@ == server && i >= j)),
{
    let o = severity_order();
    assert(o[0] == LogLevel::Debug && o[1] == LogLevel::Info && o[2] == LogLevel::Notice && o[3] == LogLevel::Warning);
    assert(o[4] == LogLevel::Error && o[5] == LogLevel::Critical && o[6] == LogLevel::Alert && o[7] == LogLevel::Emergency);
    assert(level_rank(o[i]) == i && level_rank(o[j]) == j);
}

/// Whether instant `a` is not before instant `b`.
pub open spec fn not_before(a: (i64, u32), b: (i64, u32)) -> bool {
    a.0 > b.0 || (a.0 == b.0 && a.1 >= b.1)
}

/// "Not before" orders instants by seconds, then by nanoseconds: every
/// instant is not before itself, of two instants one is not before the other,
/// two instants each not before the other are the same, and the relation
/// chains; a later second is never before an earlier one.
pub proof fn lemma_not_before_order(a: (i64, u32), b: (i64, u32), c: (i64, u32))
    ensures
        not_before(a, a),
        not_before(a, b) || not_before(b, a),
        not_before(a, b) && not_before(b, a) ==> a == b,
        not_before(a, b) && not_before(b, c) ==> not_before(a, c),
        a.0 > b.0 ==> not_before(a, b) && !not_before(b, a),
        a.0 == b.0 ==> (not_before(a, b) <==> a.1 >= b.1),
{
}

/// Whether a message passes the filters: of `server`, at least at level `min`
/// when given, and, when `since` is given, stamped at or after it.
pub open spec fn message_selected(e: LogEntry, server: Seq<char>, min: Option<LogLevel>, since: Option<(i64, u32)>) -> bool {
    &&& e.server_name@ == server
    &&& (min matches Some(m) ==> level_rank(e.level) >= level_rank(m))
    &&& (since matches Some(t) ==> (rfc3339_instant(e.timestamp@) matches Ok(u) && not_before(u, t)))
}

/// Whether no message of `s` is older (by its timestamp text) than a later one.
pub open spec fn messages_newest_first(s: Seq<LogEntry>) -> bool {
    forall|i: int, j: int| 0 <= i < j < s.len() ==> !lex_less(#[trigger] s[i].timestamp@, #[trigger] s[j].timestamp@)
}

/// Log messages of target servers, at most `max_messages` of them: adding one
/// more drops the oldest.
pub struct LoggingInspector {
    messages: Vec<LogEntry>,
    max_messages: usize,
}

impl LoggingInspector {
    /// The messages held, oldest first.
    pub closed spec fn held(&self) -> Seq<LogEntry> {
        self.messages@
    }

    /// How many messages are kept.
    pub closed spec fn capacity(&self) -> nat {
        self.max_messages as nat
    }

    /// An empty store keeping at most `max_messages` messages.
    pub fn new(max_messages: usize) -> (r: LoggingInspector)
        ensures
            r.held().len() == 0,
            r.capacity() == max_messages,
    {
        LoggingInspector { messages: Vec::new(), max_messages }
    }

    /// Adds a message; when more than the capacity are then held, the oldest
    /// leaves.
    pub fn add_log_entry(&mut self, entry: LogEntry) -> (r: Result<(), String>)
        ensures
            r is Ok,
            final(self).capacity() == old(self).capacity(),
            final(self).held() == (if old(self).held().len() + 1 > old(self).capacity() {
                old(self).held().push(entry).drop_first()
            } else {
                old(self).held().push(entry)
            }),
    {
        self.messages.push(entry);
        if self.messages.len() > self.max_messages {
            let _oldest = self.messages.remove(0);
        }
        Ok(())
    }

    /// Removes every message of `server_name`.
    pub fn clear_logging_messages(&mut self, server_name: &str) -> (r: Result<(), String>)
        ensures
            r is Ok,
            final(self).capacity() == old(self).capacity(),
            final(self).held() == old(self).held().filter(|e: LogEntry| e.server_name@ != server_name@),
    {
        let ghost p = |e: LogEntry| e.server_name@ != server_name@;
        let ghost all = self.messages@;
        let n = self.messages.len();
        let mut old_messages: Vec<LogEntry> = Vec::new();
        std::mem::swap(&mut old_messages, &mut self.messages);
        let mut i: usize = 0;
        let mut kept: Vec<LogEntry> = Vec::new();
        let mut rest = old_messages;
        while rest.len() > 0
            invariant
                p == (|e: LogEntry| e.server_name@ != server_name@),
                i <= all.len(),
                rest@ == all.skip(i as int),
                rest@.len() + i == all.len(),
                all.len() == n,
                kept@ == all.take(i as int).filter(p),
                self.max_messages == old(self).max_messages,
            decreases rest@.len(),
        {
            let e = rest.remove(0);
            proof {
                assert(all.skip(i as int)[0] == e);
                assert(all.take(i + 1) =~= all.take(i as int).push(e));
                all.take(i as int).lemma_filter_push(e, p);
                assert(all.skip(i + 1) =~= all.skip(i as int).remove(0));
            }
            if !str_eq(e.server_name.as_str(), server_name) {
                kept.push(e);
            }
            i = i + 1;
        }
        assert(all.take(all.len() as int) =~= all);
        self.messages = kept;
        Ok(())
    }

    /// The messages of the requested server that pass its filters, newest
    /// first, at most `limit` of them. A `level` that names no level is an
    /// error, and so is a `since` that is not an RFC 3339 time.
    pub fn get_logging_messages(&self, request: LoggingMessagesRequest) -> (r: Result<LoggingMessagesResponse, String>)
        ensures
            match request.level {
                Some(l) if crate::models::logging_inspection::level_named(l@) is None =>
                    r is Err && r->Err_0@ == "Invalid log level: "@ + l@,
                _ => {
                    let min = match request.level {
                        Some(l) => crate::models::logging_inspection::level_named(l@),
                        None => None,
                    };
                    match request.since {
                        Some(s) => match rfc3339_instant(s@) {
                            Err(m) => r is Err && r->Err_0@ == "Invalid timestamp format: "@ + m,
                            Ok(t) => r is Ok && response_matches(r->Ok_0, self.held(), request.server@, min, Some(t), request.limit as nat),
                        },
                        None => r is Ok && response_matches(r->Ok_0, self.held(), request.server@, min, None, request.limit as nat),
                    }
                },
            },
    {
        let min = match &request.level {
            Some(l) => match LogLevel::parse_level(l.as_str()) {
                Some(m) => Some(m),
                None => {
                    return Err(concat2("Invalid log level: ", l.as_str()));
                },
            },
            None => None,
        };
        let since = match &request.since {
            Some(s) => match parse_rfc3339(s.as_str()) {
                Ok(t) => Some(t),
                Err(m) => {
                    return Err(concat2("Invalid timestamp format: ", m.as_str()));
                },
            },
            None => None,
        };
        let ghost pred = |x: LogEntry| message_selected(x, request.server@, min, since);
        let mut selected: Vec<LogEntry> = Vec::new();
        let mut i: usize = 0;
        while i < self.messages.len()
            invariant
                i <= self.messages@.len(),
                pred == (|x: LogEntry| message_selected(x, request.server@, min, since)),
                selected@ == self.messages@.take(i as int).filter(pred),
            decreases self.messages@.len() - i,
        {
            let e = &self.messages[i];
            let mut keep = str_eq(e.server_name.as_str(), request.server.as_str());
            if keep {
                if let Some(m) = min {
                    keep = rank(e.level) >= rank(m);
                }
            }
            if keep {
                if let Some(t) = since {
                    keep = match parse_rfc3339(e.timestamp.as_str()) {
                        Ok(u) => u.0 > t.0 || (u.0 == t.0 && u.1 >= t.1),
                        Err(_) => false,
                    };
                }
            }
            proof {
                assert(self.messages@.take(i + 1) =~= self.messages@.take(i as int).push(*e));
                self.messages@.take(i as int).lemma_filter_push(*e, pred);
                assert(keep == pred(*e));
            }
            if keep {
                let copy = copy_entry(e);
                selected.push(copy);
            }
            i = i + 1;
        }
        assert(self.messages@.take(self.messages@.len() as int) =~= self.messages@);
        let ghost sel = selected@;
        let mut sorted = sort_messages_newest_first(selected);
        let ghost full = sorted@;
        sorted.truncate(request.limit);
        let total = sorted.len();
        proof {
            let n = if (request.limit as nat) < sel.len() { request.limit as nat } else { sel.len() };
            assert(sorted@ =~= full.take(n as int));
            assert(full.to_multiset() == sel.to_multiset());
        }
        Ok(LoggingMessagesResponse { server_name: request.server, messages: sorted, total_count: total })
    }
}

/// After the messages of a server are cleared, a query for that server finds
/// nothing.
pub proof fn lemma_cleared_server_is_empty(held: Seq<LogEntry>, server: Seq<char>, min: Option<LogLevel>, since: Option<(i64, u32)>)
    ensures
        held.filter(|e: LogEntry| e.server_name@ != server).filter(|e: LogEntry| message_selected(e, server, min, since)).len() == 0,
    decreases held.len(),
{
    let p = |e: LogEntry| e.server_name@ != server;
    let q = |e: LogEntry| message_selected(e, server, min, since);
    if held.len() > 0 {
        let d = held.drop_last();
        lemma_cleared_server_is_empty(d, server, min, since);
        assert(held =~= d.push(held.last()));
        d.lemma_filter_push(held.last(), p);
        d.filter(p).lemma_filter_push(held.last(), q);
    } else {
        reveal(Seq::filter);
    }
}

/// Whether `resp` answers a query on `held`: the server's name, the newest
/// `limit` of the held messages that pass the filters (all of them when there
/// are fewer), newest first, and their number. Messages of equal timestamps
/// may come in either order here.
pub open spec fn response_matches(
    resp: LoggingMessagesResponse,
    held: Seq<LogEntry>,
    server: Seq<char>,
    min: Option<LogLevel>,
    since: Option<(i64, u32)>,
    limit: nat,
) -> bool {
    let sel = held.filter(|e: LogEntry| message_selected(e, server, min, since));
    let n = if limit < sel.len() { limit } else { sel.len() };
    &&& resp.server_name@ == server
    &&& resp.total_count == resp.messages@.len()
    &&& exists|full: Seq<LogEntry>| #[trigger] full.to_multiset() == sel.to_multiset() && messages_newest_first(full)
        && resp.messages@ == full.take(n as int)
}

fn copy_entry(e: &LogEntry) -> (r: LogEntry)
    ensures
        r == *e,
{
    LogEntry {
        timestamp: e.timestamp.clone(),
        server_name: e.server_name.clone(),
        level: e.level,
        logger: match &e.logger {
            Some(l) => Some(l.clone()),
            None => None,
        },
        message: e.message.clone(),
    }
}

/// `v` sorted by descending timestamp text; entries with equal timestamps keep
/// their order.
fn sort_messages_newest_first(v: Vec<LogEntry>) -> (r: Vec<LogEntry>)
    ensures
        r@.len() == v@.len(),
        r@.to_multiset() == v@.to_multiset(),
        messages_newest_first(r@),
{
    broadcast use vstd::seq_lib::group_to_multiset_ensures;
    let mut rest = v;
    let mut out: Vec<LogEntry> = Vec::new();
    let ghost orig = rest@;
    while rest.len() > 0
        invariant
            out@.to_multiset().add(rest@.to_multiset()) == orig.to_multiset(),
            out@.len() + rest@.len() == orig.len(),
            messages_newest_first(out@),
        decreases rest@.len(),
    {
        let ghost before_rest = rest@;
        let t = rest.remove(0);
        proof {
            assert(before_rest[0] == t);
            assert(before_rest.contains(t));
        }
        let mut k: usize = out.len();
        let mut placed = false;
        while k > 0 && !placed
            invariant
                k <= out@.len(),
                messages_newest_first(out@),
                forall|j: int| k <= j < out@.len() ==> lex_less(#[trigger] out@[j].timestamp@, t.timestamp@),
                placed ==> k == 0 || !lex_less(out@[k - 1].timestamp@, t.timestamp@),
            decreases k + (if placed { 0int } else { 1int }),
        {
            if lex_less_str(out[k - 1].timestamp.as_str(), t.timestamp.as_str()) {
                k = k - 1;
            } else {
                placed = true;
            }
        }
        let ghost before = out@;
        out.insert(k, t);
        proof {
            assert(out@ =~= before.insert(k as int, t));
            assert forall|i: int, j: int| 0 <= i < j < out@.len() implies !lex_less(#[trigger] out@[i].timestamp@, #[trigger] out@[j].timestamp@) by {
                if i == k {
                    assert(out@[j] == before[j - 1]);
                    lemma_lex_less_asymmetric(before[j - 1].timestamp@, t.timestamp@);
                } else if j == k {
                    assert(out@[i] == before[i]);
                    if i < k - 1 {
                        assert(!lex_less(before[i].timestamp@, before[k - 1].timestamp@));
                    }
                    lemma_lex_less_total(before[i].timestamp@, before[k - 1].timestamp@);
                    if lex_less(before[i].timestamp@, t.timestamp@) {
                        if before[k - 1].timestamp@ != before[i].timestamp@ {
                            lemma_lex_less_total(before[k - 1].timestamp@, t.timestamp@);
                            if lex_less(before[k - 1].timestamp@, before[i].timestamp@) {
                                lemma_lex_less_transitive(before[k - 1].timestamp@, before[i].timestamp@, t.timestamp@);
                            }
                        }
                    }
                } else {
                    let bi = if i < k { i } else { i - 1 };
                    let bj = if j < k { j } else { j - 1 };
                    assert(out@[i] == before[bi]);
                    assert(out@[j] == before[bj]);
                }
            }
            vstd::seq_lib::to_multiset_insert(before, k as int, t);
            vstd::seq_lib::to_multiset_contains(before_rest, t);
            vstd::seq_lib::to_multiset_remove(before_rest, 0);
            assert(rest@ == before_rest.remove(0));
            assert(before_rest.to_multiset().count(t) > 0);
            broadcast use vstd::multiset::group_multiset_axioms;
            assert(out@.to_multiset().add(rest@.to_multiset()) =~= orig.to_multiset());
        }
    }
    proof {
        broadcast use vstd::multiset::group_multiset_axioms;
        assert(rest@.to_multiset() =~= vstd::multiset::Multiset::<LogEntry>::empty());
        assert(out@.to_multiset().add(rest@.to_multiset()) =~= out@.to_multiset());
    }
    out
}

} // verus!
