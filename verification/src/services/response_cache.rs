//! Per-server caches of tool, resource and prompt lists, each entry valid for
//! its time to live. Times are milliseconds of a monotonic clock, given by the
//! caller.
use vstd::prelude::*;
use crate::models::response::{PromptInfo, ResourceInfo, ToolInfo};
use crate::text::str_eq;

verus! {

/// One cached answer.
pub struct CacheSlot<T> {
    pub key: String,
    pub data: T,
    pub cached_at_ms: u64,
    pub ttl_ms: u64,
}

/// The position of the first slot of `key`.
pub open spec fn slot_index<T>(slots: Seq<CacheSlot<T>>, key: Seq<char>) -> Option<int>
    decreases slots.len(),
{
    if slots.len() == 0 {
        None
    } else {
        match slot_index(slots.drop_last(), key) {
            Some(i) => Some(i),
            None => if slots.last().key@ == key { Some(slots.len() - 1) } else { None },
        }
    }
}

/// Whether a slot cached at `at` for `ttl` is still valid at `now`: less than
/// `ttl` has passed.
pub open spec fn still_valid(at: u64, ttl: u64, now: u64) -> bool {
    (if now >= at { now - at } else { 0 }) < ttl
}

/// An entry cached at `at` with lifetime `ttl` is valid before `ttl`
/// milliseconds have passed and expired from then on; once expired it stays
/// expired, and before its time it was valid.
pub proof fn lemma_validity_window(at: u64, ttl: u64, now: u64, later: u64)
    ensures
        now >= at ==> (still_valid(at, ttl, now) <==> now - at < ttl),
        now < at ==> (still_valid(at, ttl, now) <==> ttl > 0),
        now <= later && !still_valid(at, ttl, now) ==> !still_valid(at, ttl, later),
        now <= later && still_valid(at, ttl, later) ==> still_valid(at, ttl, now),
{
}

/// What a lookup of `key` at `now` gives: the data of its slot while valid.
pub open spec fn cached_value<T>(slots: Seq<CacheSlot<T>>, key: Seq<char>, now: u64) -> Option<T> {
    match slot_index(slots, key) {
        Some(i) => if still_valid(slots[i].cached_at_ms, slots[i].ttl_ms, now) { Some(slots[i].data) } else { None },
        None => None,
    }
}

proof fn lemma_slot_index_bounds<T>(slots: Seq<CacheSlot<T>>, key: Seq<char>)
    ensures
        match slot_index(slots, key) {
            Some(i) => 0 <= i < slots.len() && slots[i].key@ == key
                && forall|k: int| 0 <= k < i ==> (#[trigger] slots[k]).key@ != key,
            None => forall|k: int| 0 <= k < slots.len() ==> (#[trigger] slots[k]).key@ != key,
        },
    decreases slots.len(),
{
    if slots.len() > 0 {
        lemma_slot_index_bounds(slots.drop_last(), key);
        match slot_index(slots.drop_last(), key) {
            Some(i) => {
                assert(slots.drop_last()[i] == slots[i]);
                assert forall|k: int| 0 <= k < i implies (#[trigger] slots[k]).key@ != key by {
                    assert(slots.drop_last()[k] == slots[k]);
                }
            },
            None => {
                assert forall|k: int| 0 <= k < slots.len() - 1 implies (#[trigger] slots[k]).key@ != key by {
                    assert(slots.drop_last()[k] == slots[k]);
                }
            },
        }
    }
}

/// Answers cached per key.
pub struct TtlCache<T> {
    slots: Vec<CacheSlot<T>>,
}

impl<T> TtlCache<T> {
    /// The slots held.
    pub closed spec fn slots(&self) -> Seq<CacheSlot<T>> {
        self.slots@
    }

    /// An empty cache.
    pub fn new() -> (r: TtlCache<T>)
        ensures
            r.slots().len() == 0,
    {
        TtlCache { slots: Vec::new() }
    }

    fn find(&self, key: &str) -> (r: Option<usize>)
        ensures
            match r {
                Some(i) => slot_index(self.slots(), key@) == Some(i as int) && i < self.slots().len(),
                None => slot_index(self.slots(), key@) is None,
            },
    {
        proof {
            lemma_slot_index_bounds(self.slots@, key@);
        }
        let mut i: usize = 0;
        while i < self.slots.len()
            invariant
                i <= self.slots@.len(),
                forall|k: int| 0 <= k < i ==> (#[trigger] self.slots@[k]).key@ != key@,
                match slot_index(self.slots@, key@) {
                    Some(j) => 0 <= j < self.slots@.len() && self.slots@[j].key@ == key@
                        && forall|k: int| 0 <= k < j ==> (#[trigger] self.slots@[k]).key@ != key@,
                    None => forall|k: int| 0 <= k < self.slots@.len() ==> (#[trigger] self.slots@[k]).key@ != key@,
                },
            decreases self.slots@.len() - i,
        {
            if str_eq(self.slots[i].key.as_str(), key) {
                return Some(i);
            }
            i = i + 1;
        }
        None
    }

    /// The cached data of `key` at time `now_ms`, while valid.
    pub fn get(&self, key: &str, now_ms: u64) -> (r: Option<&T>)
        ensures
            match r {
                Some(d) => cached_value(self.slots(), key@, now_ms) == Some(*d),
                None => cached_value(self.slots(), key@, now_ms) is None,
            },
    {
        match self.find(key) {
            Some(i) => {
                let slot = &self.slots[i];
                let elapsed: u64 = if now_ms >= slot.cached_at_ms { now_ms - slot.cached_at_ms } else { 0 };
                if elapsed < slot.ttl_ms {
                    Some(&slot.data)
                } else {
                    None
                }
            },
            None => None,
        }
    }

    /// Caches `data` for `key` at time `now_ms`, valid for `ttl_ms`; replaces
    /// the earlier answer for `key`.
    pub fn set(&mut self, key: String, data: T, ttl_ms: u64, now_ms: u64)
        ensures
            ({
                let slot = CacheSlot { key, data, cached_at_ms: now_ms, ttl_ms };
                match slot_index(old(self).slots(), key@) {
                    Some(i) => final(self).slots() == old(self).slots().update(i, slot),
                    None => final(self).slots() == old(self).slots().push(slot),
                }
            }),
    {
        match self.find(key.as_str()) {
            Some(i) => {
                let ghost k = key;
                self.slots.set(i, CacheSlot { key, data, cached_at_ms: now_ms, ttl_ms });
            },
            None => {
                self.slots.push(CacheSlot { key, data, cached_at_ms: now_ms, ttl_ms });
            },
        }
    }

    /// Drops every answer for `key`.
    pub fn invalidate(&mut self, key: &str)
        ensures
            final(self).slots() == old(self).slots().filter(|s: CacheSlot<T>| s.key@ != key@),
    {
        let ghost p = |s: CacheSlot<T>| s.key@ != key@;
        let ghost all = self.slots@;
        let n = self.slots.len();
        let mut rest: Vec<CacheSlot<T>> = Vec::new();
        std::mem::swap(&mut rest, &mut self.slots);
        let mut kept: Vec<CacheSlot<T>> = Vec::new();
        let mut i: usize = 0;
        while rest.len() > 0
            invariant
                p == (|s: CacheSlot<T>| s.key@ != key@),
                all.len() == n,
                rest@ == all.skip(i as int),
                rest@.len() + i == all.len(),
                kept@ == all.take(i as int).filter(p),
            decreases rest@.len(),
        {
            let s = rest.remove(0);
            proof {
                assert(all.skip(i as int)[0] == s);
                assert(all.take(i + 1) =~= all.take(i as int).push(s));
                all.take(i as int).lemma_filter_push(s, p);
                assert(all.skip(i + 1) =~= all.skip(i as int).remove(0));
            }
            if !str_eq(s.key.as_str(), key) {
                kept.push(s);
            }
            i = i + 1;
        }
        assert(all.take(all.len() as int) =~= all);
        self.slots = kept;
    }

    /// Drops every answer.
    pub fn invalidate_all(&mut self)
        ensures
            final(self).slots().len() == 0,
    {
        self.slots.clear();
    }

    /// How many answers are held.
    pub fn len(&self) -> (r: usize)
        ensures
            r == self.slots().len(),
    {
        self.slots.len()
    }
}

/// An answer cached for `key` at `now` is found at `now` while its time to live
/// is not zero.
pub proof fn lemma_get_after_set<T>(slots: Seq<CacheSlot<T>>, key: String, data: T, ttl: u64, now: u64)
    requires
        ttl > 0,
    ensures
        ({
            let slot = CacheSlot { key, data, cached_at_ms: now, ttl_ms: ttl };
            let after = match slot_index(slots, key@) {
                Some(i) => slots.update(i, slot),
                None => slots.push(slot),
            };
            cached_value(after, key@, now) == Some(data)
        }),
{
    let slot = CacheSlot { key, data, cached_at_ms: now, ttl_ms: ttl };
    lemma_slot_index_bounds(slots, key@);
    match slot_index(slots, key@) {
        Some(i) => {
            let after = slots.update(i, slot);
            lemma_slot_index_bounds(after, key@);
            match slot_index(after, key@) {
                Some(j) => {
                    if j < i {
                        assert(after[j] == slots[j]);
                    }
                    if j > i {
                        assert(after[i].key@ == key@);
                    }
                },
                None => {
                    assert(after[i].key@ == key@);
                },
            }
        },
        None => {
            let after = slots.push(slot);
            lemma_slot_index_bounds(after, key@);
            match slot_index(after, key@) {
                Some(j) => {
                    if j < slots.len() {
                        assert(after[j] == slots[j]);
                    }
                },
                None => {
                    assert(after[slots.len() as int].key@ == key@);
                },
            }
        },
    }
}

/// Default time to live of cached answers: five minutes.
pub const DEFAULT_TTL_MS: u64 = 300_000;

/// The caches of tool, resource and prompt lists.
pub struct ResponseCache {
    pub tools: TtlCache<Vec<ToolInfo>>,
    pub resources: TtlCache<Vec<ResourceInfo>>,
    pub prompts: TtlCache<Vec<PromptInfo>>,
    pub default_ttl_ms: u64,
}

impl ResponseCache {
    /// Empty caches whose answers live `default_ttl_ms` unless told otherwise.
    pub fn new(default_ttl_ms: u64) -> (r: ResponseCache)
        ensures
            r.tools.slots().len() == 0,
            r.resources.slots().len() == 0,
            r.prompts.slots().len() == 0,
            r.default_ttl_ms == default_ttl_ms,
    {
        ResponseCache { tools: TtlCache::new(), resources: TtlCache::new(), prompts: TtlCache::new(), default_ttl_ms }
    }

    /// The default time to live.
    pub fn default_ttl(&self) -> (r: u64)
        ensures
            r == self.default_ttl_ms,
    {
        self.default_ttl_ms
    }

    /// Drops every answer for `server`.
    pub fn invalidate(&mut self, server: &str)
        ensures
            final(self).tools.slots() == old(self).tools.slots().filter(|s: CacheSlot<Vec<ToolInfo>>| s.key@ != server@),
            final(self).resources.slots() == old(self).resources.slots().filter(|s: CacheSlot<Vec<ResourceInfo>>| s.key@ != server@),
            final(self).prompts.slots() == old(self).prompts.slots().filter(|s: CacheSlot<Vec<PromptInfo>>| s.key@ != server@),
            final(self).default_ttl_ms == old(self).default_ttl_ms,
    {
        self.tools.invalidate(server);
        self.resources.invalidate(server);
        self.prompts.invalidate(server);
    }

    /// Drops every answer.
    pub fn invalidate_all(&mut self)
        ensures
            final(self).tools.slots().len() == 0,
            final(self).resources.slots().len() == 0,
            final(self).prompts.slots().len() == 0,
            final(self).default_ttl_ms == old(self).default_ttl_ms,
    {
        self.tools.invalidate_all();
        self.resources.invalidate_all();
        self.prompts.invalidate_all();
    }

    /// How many tool, resource and prompt answers are held.
    pub fn stats(&self) -> (r: (usize, usize, usize))
        ensures
            r == (self.tools.slots().len() as usize, self.resources.slots().len() as usize, self.prompts.slots().len() as usize),
    {
        (self.tools.len(), self.resources.len(), self.prompts.len())
    }
}

impl Default for ResponseCache {
    /// Empty caches with a five-minute time to live.
    fn default() -> (r: ResponseCache)
        ensures
            r.default_ttl_ms == 300_000,
            r.tools.slots().len() == 0,
            r.resources.slots().len() == 0,
            r.prompts.slots().len() == 0,
    {
        ResponseCache::new(DEFAULT_TTL_MS)
    }
}

} // verus!
