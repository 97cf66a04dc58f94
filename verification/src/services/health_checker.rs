//! Health checks of servers: the ping history of each server and the status
//! it gives. Pinging and timing are left to the caller.
use vstd::prelude::*;
use crate::models::health::{
    determine_status, failures, health_status_for, last_at_most, HealthCheckResult, HealthHistory, HealthStatus,
};
use crate::text::str_eq;

verus! {

/// How many pings are kept per server.
pub const MAX_HEALTH_HISTORY: usize = 100;

/// The outcome of a health check, before the error rate is written as a
/// fraction.
pub struct HealthReport {
    pub server_name: String,
    pub status: HealthStatus,
    pub response_time_ms: u64,
    /// Failed pings among the recent ones.
    pub error_count: u64,
    /// Recent pings, this one included.
    pub check_count: u64,
    /// The error of this ping, if it failed.
    pub details: Option<String>,
}

/// The position of the history of `server`.
pub open spec fn history_index(hs: Seq<HealthHistory>, server: Seq<char>) -> Option<int>
    decreases hs.len(),
{
    if hs.len() == 0 {
        None
    } else {
        match history_index(hs.drop_last(), server) {
            Some(i) => Some(i),
            None => if hs.last().server_name@ == server { Some(hs.len() - 1) } else { None },
        }
    }
}

/// The recent pings of `server`.
pub open spec fn pings_of(hs: Seq<HealthHistory>, server: Seq<char>) -> Seq<HealthCheckResult> {
    match history_index(hs, server) {
        Some(i) => hs[i].recent_checks@,
        None => Seq::empty(),
    }
}

proof fn lemma_history_index<T>(hs: Seq<HealthHistory>, server: Seq<char>)
    ensures
        match history_index(hs, server) {
            Some(i) => 0 <= i < hs.len() && hs[i].server_name@ == server
                && forall|k: int| 0 <= k < i ==> (#[trigger] hs[k]).server_name@ != server,
            None => forall|k: int| 0 <= k < hs.len() ==> (#[trigger] hs[k]).server_name@ != server,
        },
    decreases hs.len(),
{
    if hs.len() > 0 {
        lemma_history_index::<T>(hs.drop_last(), server);
        match history_index(hs.drop_last(), server) {
            Some(i) => {
                assert(hs.drop_last()[i] == hs[i]);
                assert forall|k: int| 0 <= k < i implies (#[trigger] hs[k]).server_name@ != server by {
                    assert(hs.drop_last()[k] == hs[k]);
                }
            },
            None => {
                assert forall|k: int| 0 <= k < hs.len() - 1 implies (#[trigger] hs[k]).server_name@ != server by {
                    assert(hs.drop_last()[k] == hs[k]);
                }
            },
        }
    }
}

/// The ping histories of the servers.
pub struct HealthChecker {
    histories: Vec<HealthHistory>,
}

impl HealthChecker {
    /// The histories held.
    pub closed spec fn histories(&self) -> Seq<HealthHistory> {
        self.histories@
    }

    /// Whether every history keeps at most [`MAX_HEALTH_HISTORY`] pings.
    pub closed spec fn wf(&self) -> bool {
        forall|i: int| 0 <= i < self.histories@.len() ==> (#[trigger] self.histories@[i]).max_history == MAX_HEALTH_HISTORY
            && self.histories@[i].recent_checks@.len() <= MAX_HEALTH_HISTORY
    }

    /// No history yet.
    pub fn new() -> (r: HealthChecker)
        ensures
            r.histories().len() == 0,
            r.wf(),
    {
        HealthChecker { histories: Vec::new() }
    }

    fn find(&self, server: &str) -> (r: Option<usize>)
        ensures
            match r {
                Some(i) => history_index(self.histories(), server@) == Some(i as int) && i < self.histories().len(),
                None => history_index(self.histories(), server@) is None,
            },
    {
        proof {
            lemma_history_index::<u8>(self.histories@, server@);
        }
        let mut i: usize = 0;
        while i < self.histories.len()
            invariant
                i <= self.histories@.len(),
                forall|k: int| 0 <= k < i ==> (#[trigger] self.histories@[k]).server_name@ != server@,
                match history_index(self.histories@, server@) {
                    Some(j) => 0 <= j < self.histories@.len() && self.histories@[j].server_name@ == server@
                        && forall|k: int| 0 <= k < j ==> (#[trigger] self.histories@[k]).server_name@ != server@,
                    None => forall|k: int| 0 <= k < self.histories@.len() ==> (#[trigger] self.histories@[k]).server_name@ != server@,
                },
            decreases self.histories@.len() - i,
        {
            if str_eq(self.histories[i].server_name.as_str(), server) {
                return Some(i);
            }
            i = i + 1;
        }
        None
    }

    /// Records the ping `result` of `server_name` and reports: the last 100
    /// pings of the server are kept, and the status follows from this ping's
    /// response time and the share of failed recent pings.
    pub fn record(&mut self, server_name: &str, result: HealthCheckResult) -> (r: HealthReport)
        requires
            old(self).wf(),
        ensures
            final(self).wf(),
            pings_of(final(self).histories(), server_name@)
                == last_at_most(pings_of(old(self).histories(), server_name@).push(result), MAX_HEALTH_HISTORY as nat),
            ({
                let pings = pings_of(final(self).histories(), server_name@);
                &&& r.server_name@ == server_name@
                &&& r.response_time_ms == result.response_time_ms
                &&& r.error_count == failures(pings)
                &&& r.check_count == pings.len()
                &&& r.status == health_status_for(result.response_time_ms, failures(pings), pings.len())
                &&& r.details == result.error_message
            }),
    {
        let rt = result.response_time_ms;
        let details = match &result.error_message {
            Some(m) => Some(m.clone()),
            None => None,
        };
        proof {
            lemma_history_index::<u8>(self.histories@, server_name@);
        }
        let i = match self.find(server_name) {
            Some(i) => i,
            None => {
                let h = HealthHistory::new(String::from_str(server_name), MAX_HEALTH_HISTORY);
                let ghost before = self.histories@;
                self.histories.push(h);
                proof {
                    assert(self.histories@.drop_last() =~= before);
                    lemma_history_index::<u8>(self.histories@, server_name@);
                    assert(history_index(self.histories@, server_name@) == Some(before.len() as int));
                    assert forall|k: int| 0 <= k < self.histories@.len() implies (#[trigger] self.histories@[k]).max_history == MAX_HEALTH_HISTORY
                        && self.histories@[k].recent_checks@.len() <= MAX_HEALTH_HISTORY by {
                        if k < before.len() {
                            assert(self.histories@[k] == before[k]);
                        }
                    }
                }
                self.histories.len() - 1
            },
        };
        let ghost mid = self.histories@;
        let mut h = self.histories.remove(i);
        h.add_result(result);
        let ghost hv = h;
        self.histories.insert(i, h);
        proof {
            assert(self.histories@ =~= mid.update(i as int, hv));
            lemma_history_index::<u8>(mid, server_name@);
            lemma_history_index::<u8>(self.histories@, server_name@);
            match history_index(self.histories@, server_name@) {
                Some(j) => {
                    if j < i {
                        assert(self.histories@[j] == mid[j]);
                    }
                    if j > i {
                        assert(self.histories@[i as int].server_name@ == server_name@);
                    }
                },
                None => {
                    assert(self.histories@[i as int].server_name@ == server_name@);
                },
            }
            assert forall|k: int| 0 <= k < self.histories@.len() implies (#[trigger] self.histories@[k]).max_history == MAX_HEALTH_HISTORY
                && self.histories@[k].recent_checks@.len() <= MAX_HEALTH_HISTORY by {
                if k != i {
                    assert(self.histories@[k] == mid[k]);
                }
            }
        }
        let total = self.histories[i].recent_checks.len() as u64;
        let errors = self.histories[i].error_count();
        proof {
            crate::models::health::lemma_failures_bounded(self.histories@[i as int].recent_checks@);
        }
        let status = determine_status(rt, errors, total);
        HealthReport {
            server_name: String::from_str(server_name),
            status,
            response_time_ms: rt,
            error_count: errors,
            check_count: total,
            details,
        }
    }
}

} // verus!
