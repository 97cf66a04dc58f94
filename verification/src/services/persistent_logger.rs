//! The storage rules of the on-disk sampling log: under which key an entry is
//! stored, and which entries leave when a server holds more than the limit.
//!
//! Entries live in a key-value store, keyed by `server:timestamp`, so that the
//! entries of one server are found by a prefix scan and come out oldest first.
use vstd::prelude::*;
use crate::models::sampling::SamplingLogEntry;
use crate::services::logger_backend::id_names_server;
use crate::text::{chars_of, push_char, push_str};

verus! {

/// The server part of an entry id: the characters before its first `':'`
/// (all of `id` when it has none).
pub open spec fn id_server(id: Seq<char>) -> Seq<char>
    decreases id.len(),
{
    if id.len() == 0 {
        id
    } else if id[0] == ':' {
        Seq::empty()
    } else {
        seq![id[0]] + id_server(id.drop_first())
    }
}

proof fn lemma_id_server_shape(id: Seq<char>)
    ensures
        id_server(id).len() <= id.len(),
        id.take(id_server(id).len() as int) == id_server(id),
        forall|j: int| 0 <= j < id_server(id).len() ==> id_server(id)[j] != ':',
        id_server(id).len() == id.len() || id[id_server(id).len() as int] == ':',
    decreases id.len(),
{
    if id.len() > 0 && id[0] != ':' {
        let t = id.drop_first();
        lemma_id_server_shape(t);
        let s = id_server(id);
        assert(s == seq![id[0]] + id_server(t));
        assert(id.take(s.len() as int) =~= s) by {
            assert forall|j: int| 0 <= j < s.len() implies id.take(s.len() as int)[j] == s[j] by {
                if j > 0 {
                    assert(t.take(id_server(t).len() as int)[j - 1] == id_server(t)[j - 1]);
                }
            }
        }
        assert forall|j: int| 0 <= j < s.len() implies s[j] != ':' by {
            if j > 0 {
                assert(s[j] == id_server(t)[j - 1]);
            }
        }
        if s.len() < id.len() {
            assert(id[s.len() as int] == t[id_server(t).len() as int]);
        }
    } else if id.len() > 0 {
        assert(id.take(0) =~= Seq::<char>::empty());
    }
}

/// An entry id names exactly one server: the one before its first `':'`. So
/// the entries that a query for `server` selects are exactly those stored
/// under keys that begin with `server:`.
pub proof fn lemma_id_names_its_server(id: Seq<char>, server: Seq<char>)
    ensures
        id_names_server(id, server) <==> server == id_server(id),
{
    lemma_id_server_shape(id);
    let s = id_server(id);
    if id_names_server(id, server) {
        if server.len() < s.len() {
            assert(id[server.len() as int] == ':');
            assert(s[server.len() as int] == id.take(s.len() as int)[server.len() as int]);
        } else if s.len() < server.len() {
            assert(id[s.len() as int] == ':');
            assert(server[s.len() as int] == id.take(server.len() as int)[s.len() as int]);
        }
        assert(server.len() == s.len());
        assert(server =~= s) by {
            assert forall|j: int| 0 <= j < s.len() implies server[j] == s[j] by {
                assert(id.take(server.len() as int)[j] == id.take(s.len() as int)[j]);
            }
        }
    }
}

/// The key under which an entry is stored: its server, `':'`, its timestamp.
pub open spec fn storage_key_of(id: Seq<char>, timestamp: Seq<char>) -> Seq<char> {
    id_server(id) + ":"@ + timestamp
}

/// The server part of the entry id `id`.
pub fn server_of_id(id: &str) -> (r: String)
    ensures
        r@ == id_server(id@),
{
    let cs = chars_of(id);
    let mut out = String::new();
    let mut i: usize = 0;
    proof {
        assert(id@.skip(0) =~= id@);
        assert(out@ + id_server(id@.skip(0)) =~= id_server(id@));
    }
    while i < cs.len()
        invariant
            cs@ == id@,
            i <= cs.len(),
            out@ + id_server(id@.skip(i as int)) == id_server(id@),
            forall|k: int| 0 <= k < i ==> id@[k] != ':',
        decreases cs.len() - i,
    {
        let ghost rest = id@.skip(i as int);
        assert(rest[0] == id@[i as int]);
        if cs[i] == ':' {
            assert(id_server(rest) =~= Seq::<char>::empty());
            assert(out@ + Seq::<char>::empty() =~= out@);
            return out;
        }
        let ghost before = out@;
        push_char(&mut out, cs[i]);
        assert(rest.drop_first() =~= id@.skip(i + 1));
        assert(before + id_server(rest) =~= out@ + id_server(id@.skip(i + 1)));
        i = i + 1;
    }
    assert(id@.skip(i as int) =~= Seq::<char>::empty());
    assert(out@ + Seq::<char>::empty() =~= out@);
    out
}

/// The key under which `entry` is stored.
pub fn storage_key(entry: &SamplingLogEntry) -> (r: String)
    ensures
        r@ == storage_key_of(entry.id@, entry.timestamp@),
{
    let mut k = server_of_id(entry.id.as_str());
    push_char(&mut k, ':');
    push_str(&mut k, entry.timestamp.as_str());
    proof {
        reveal_strlit(":");
    }
    assert(k@ =~= storage_key_of(entry.id@, entry.timestamp@));
    k
}

/// The prefix under which the entries of `server` are stored.
pub fn server_prefix(server: &str) -> (r: String)
    ensures
        r@ == server@ + ":"@,
{
    let mut p = String::new();
    push_str(&mut p, server);
    push_char(&mut p, ':');
    proof {
        reveal_strlit(":");
    }
    assert(p@ =~= server@ + ":"@);
    p
}

/// The keys that leave when a server holds more than `max_logs` entries:
/// given the keys of its entries oldest first, the oldest ones beyond the
/// limit.
pub fn rotation_victims(keys_oldest_first: Vec<String>, max_logs: usize) -> (r: Vec<String>)
    ensures
        keys_oldest_first@.len() <= max_logs ==> r@.len() == 0,
        keys_oldest_first@.len() > max_logs ==> r@ == keys_oldest_first@.take(keys_oldest_first@.len() - max_logs),
{
    let n = keys_oldest_first.len();
    if n <= max_logs {
        return Vec::new();
    }
    let excess = n - max_logs;
    let mut keys = keys_oldest_first;
    let ghost all = keys@;
    let mut out: Vec<String> = Vec::new();
    let mut i: usize = 0;
    while i < excess
        invariant
            excess <= all.len(),
            i <= excess,
            keys@ == all.skip(i as int),
            out@ == all.take(i as int),
        decreases excess - i,
    {
        let k = keys.remove(0);
        assert(k == all[i as int]);
        out.push(k);
        assert(out@ =~= all.take(i + 1));
        assert(keys@ =~= all.skip(i + 1));
        i = i + 1;
    }
    out
}

} // verus!
