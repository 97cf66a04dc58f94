//! Timing of requests by request id. The caller reads the clocks: a monotonic
//! reading in milliseconds for elapsed times, and the local time as text for
//! display.
use vstd::prelude::*;
use crate::text::str_eq;

verus! {

/// The timing of one request.
pub struct TimingInfo {
    /// Local time at the start, as text.
    pub start_time: String,
    /// Monotonic clock at the start, in milliseconds.
    pub start_ms: u64,
    /// Local time at the end, once stopped.
    pub end_time: Option<String>,
    /// Elapsed milliseconds, once stopped.
    pub elapsed_ms: Option<u64>,
}

/// One timed request.
pub struct TimedRequest {
    pub request_id: String,
    pub info: TimingInfo,
}

/// The position of the timing of `id`.
pub open spec fn timing_index(s: Seq<TimedRequest>, id: Seq<char>) -> Option<int> {
    if exists|i: int| 0 <= i < s.len() && (#[trigger] s[i]).request_id@ == id {
        Some(choose|i: int| 0 <= i < s.len() && (#[trigger] s[i]).request_id@ == id)
    } else {
        None
    }
}

/// Milliseconds from `start` to `now` (none when the clock reads earlier).
pub open spec fn elapsed_between(start: u64, now: u64) -> u64 {
    if now >= start { (now - start) as u64 } else { 0 }
}

/// Whether no two timings share a request id.
pub open spec fn ids_distinct(s: Seq<TimedRequest>) -> bool {
    forall|i: int, j: int| 0 <= i < j < s.len() ==> (#[trigger] s[i]).request_id@ != (#[trigger] s[j]).request_id@
}

/// Timings of requests, one per request id.
pub struct TimingTracker {
    timings: Vec<TimedRequest>,
}

impl TimingTracker {
    /// The timings held.
    pub closed spec fn timings(&self) -> Seq<TimedRequest> {
        self.timings@
    }

    /// Whether each request id is timed once.
    pub closed spec fn wf(&self) -> bool {
        ids_distinct(self.timings@)
    }

    /// No timing.
    pub fn new() -> (r: TimingTracker)
        ensures
            r.timings().len() == 0,
            r.wf(),
    {
        TimingTracker { timings: Vec::new() }
    }

    fn find(&self, id: &str) -> (r: Option<usize>)
        requires
            self.wf(),
        ensures
            match r {
                Some(i) => i < self.timings().len() && self.timings()[i as int].request_id@ == id@
                    && timing_index(self.timings(), id@) == Some(i as int),
                None => timing_index(self.timings(), id@) is None,
            },
    {
        let mut i: usize = 0;
        while i < self.timings.len()
            invariant
                i <= self.timings@.len(),
                ids_distinct(self.timings@),
                forall|k: int| 0 <= k < i ==> (#[trigger] self.timings@[k]).request_id@ != id@,
            decreases self.timings@.len() - i,
        {
            if str_eq(self.timings[i].request_id.as_str(), id) {
                proof {
                    assert(self.timings@[i as int].request_id@ == id@);
                    let c = choose|j: int| 0 <= j < self.timings@.len() && (#[trigger] self.timings@[j]).request_id@ == id@;
                    if c < i {
                        assert(self.timings@[c].request_id@ != self.timings@[i as int].request_id@);
                    } else if c > i {
                        assert(self.timings@[i as int].request_id@ != self.timings@[c].request_id@);
                    }
                }
                return Some(i);
            }
            i = i + 1;
        }
        None
    }

    /// Starts timing `request_id` at the given clock readings; an earlier
    /// timing of the same id is replaced. Gives back the start time.
    pub fn start_timer(&mut self, request_id: &str, start_time: String, now_ms: u64) -> (r: String)
        requires
            old(self).wf(),
        ensures
            final(self).wf(),
            r@ == start_time@,
            ({
                let i = timing_index(final(self).timings(), request_id@);
                &&& i is Some
                &&& final(self).timings()[i->Some_0].info.start_ms == now_ms
                &&& final(self).timings()[i->Some_0].info.start_time@ == start_time@
                &&& final(self).timings()[i->Some_0].info.end_time is None
                &&& final(self).timings()[i->Some_0].info.elapsed_ms is None
            }),
    {
        let shown = start_time.clone();
        let info = TimingInfo { start_time, start_ms: now_ms, end_time: None, elapsed_ms: None };
        match self.find(request_id) {
            Some(i) => {
                self.timings.set(i, TimedRequest { request_id: String::from_str(request_id), info });
                proof {
                    assert(self.timings@[i as int].request_id@ == request_id@);
                    assert forall|a: int, b: int| 0 <= a < b < self.timings@.len() implies
                        (#[trigger] self.timings@[a]).request_id@ != (#[trigger] self.timings@[b]).request_id@ by {
                        assert(old(self).timings@[a].request_id@ != old(self).timings@[b].request_id@);
                    }
                    let c = choose|j: int| 0 <= j < self.timings@.len() && (#[trigger] self.timings@[j]).request_id@ == request_id@;
                    if c != i {
                        assert(self.timings@[c].request_id@ == self.timings@[i as int].request_id@);
                    }
                }
            },
            None => {
                self.timings.push(TimedRequest { request_id: String::from_str(request_id), info });
                proof {
                    let n = self.timings@.len() - 1;
                    assert(self.timings@[n].request_id@ == request_id@);
                    assert forall|a: int, b: int| 0 <= a < b < self.timings@.len() implies
                        (#[trigger] self.timings@[a]).request_id@ != (#[trigger] self.timings@[b]).request_id@ by {
                        if b == n {
                            assert(self.timings@[a] == old(self).timings@[a]);
                        } else {
                            assert(old(self).timings@[a].request_id@ != old(self).timings@[b].request_id@);
                        }
                    }
                    let c = choose|j: int| 0 <= j < self.timings@.len() && (#[trigger] self.timings@[j]).request_id@ == request_id@;
                    if c != n {
                        assert(self.timings@[c] == old(self).timings@[c]);
                    }
                }
            },
        }
        shown
    }

    /// Stops timing `request_id`: records the end time and the elapsed
    /// milliseconds, and gives them back; `None` when it is not timed.
    pub fn stop_timer(&mut self, request_id: &str, end_time: String, now_ms: u64) -> (r: Option<(u64, String)>)
        requires
            old(self).wf(),
        ensures
            final(self).wf(),
            final(self).timings().len() == old(self).timings().len(),
            match timing_index(old(self).timings(), request_id@) {
                Some(i) => r matches Some((e, t)) && t@ == end_time@
                    && e == elapsed_between(old(self).timings()[i].info.start_ms, now_ms)
                    && final(self).timings()[i].info.elapsed_ms == Some(e),
                None => r is None && final(self).timings() == old(self).timings(),
            },
    {
        match self.find(request_id) {
            Some(i) => {
                let start = self.timings[i].info.start_ms;
                let elapsed: u64 = if now_ms >= start { now_ms - start } else { 0 };
                let shown = end_time.clone();
                let id = self.timings[i].request_id.clone();
                let start_time = self.timings[i].info.start_time.clone();
                self.timings.set(i, TimedRequest {
                    request_id: id,
                    info: TimingInfo { start_time, start_ms: start, end_time: Some(end_time), elapsed_ms: Some(elapsed) },
                });
                proof {
                    assert forall|a: int, b: int| 0 <= a < b < self.timings@.len() implies
                        (#[trigger] self.timings@[a]).request_id@ != (#[trigger] self.timings@[b]).request_id@ by {
                        assert(old(self).timings@[a].request_id@ != old(self).timings@[b].request_id@);
                    }
                }
                Some((elapsed, shown))
            },
            None => None,
        }
    }

    /// The elapsed milliseconds of `request_id`: as recorded once stopped,
    /// up to `now_ms` while running; `None` when it is not timed.
    pub fn get_elapsed(&self, request_id: &str, now_ms: u64) -> (r: Option<u64>)
        requires
            self.wf(),
        ensures
            match timing_index(self.timings(), request_id@) {
                Some(i) => r == Some(match self.timings()[i].info.elapsed_ms {
                    Some(e) => e,
                    None => elapsed_between(self.timings()[i].info.start_ms, now_ms),
                }),
                None => r is None,
            },
    {
        match self.find(request_id) {
            Some(i) => match self.timings[i].info.elapsed_ms {
                Some(e) => Some(e),
                None => {
                    let start = self.timings[i].info.start_ms;
                    Some(if now_ms >= start { now_ms - start } else { 0 })
                },
            },
            None => None,
        }
    }

    /// The timing of `request_id`.
    pub fn get_timing_info(&self, request_id: &str) -> (r: Option<&TimingInfo>)
        requires
            self.wf(),
        ensures
            match timing_index(self.timings(), request_id@) {
                Some(i) => r == Some(&self.timings()[i].info),
                None => r is None,
            },
    {
        match self.find(request_id) {
            Some(i) => Some(&self.timings[i].info),
            None => None,
        }
    }

    /// Forgets the timing of `request_id`.
    pub fn clear(&mut self, request_id: &str)
        requires
            old(self).wf(),
        ensures
            final(self).wf(),
            timing_index(final(self).timings(), request_id@) is None,
            match timing_index(old(self).timings(), request_id@) {
                Some(i) => final(self).timings() == old(self).timings().remove(i),
                None => final(self).timings() == old(self).timings(),
            },
    {
        match self.find(request_id) {
            Some(i) => {
                let _gone = self.timings.remove(i);
                proof {
                    assert forall|a: int, b: int| 0 <= a < b < self.timings@.len() implies
                        (#[trigger] self.timings@[a]).request_id@ != (#[trigger] self.timings@[b]).request_id@ by {
                        let oa = if a < i { a } else { a + 1 };
                        let ob = if b < i { b } else { b + 1 };
                        assert(self.timings@[a] == old(self).timings@[oa]);
                        assert(self.timings@[b] == old(self).timings@[ob]);
                        assert(old(self).timings@[oa].request_id@ != old(self).timings@[ob].request_id@);
                    }
                    if exists|j: int| 0 <= j < self.timings@.len() && (#[trigger] self.timings@[j]).request_id@ == request_id@ {
                        let j = choose|j: int| 0 <= j < self.timings@.len() && (#[trigger] self.timings@[j]).request_id@ == request_id@;
                        let oj = if j < i { j } else { j + 1 };
                        assert(self.timings@[j] == old(self).timings@[oj]);
                        assert(old(self).timings@[oj].request_id@ == old(self).timings@[i as int].request_id@);
                    }
                }
            },
            None => {},
        }
    }

    /// Forgets every timing.
    pub fn clear_all(&mut self)
        ensures
            final(self).timings().len() == 0,
            final(self).wf(),
    {
        self.timings.clear();
    }
}

} // verus!
