//! Health of target servers: the outcome of pings and their history.
use vstd::prelude::*;
use crate::time::now_millis;

verus! {

/// Check the health of a server.
pub struct HealthCheckRequest {
    pub server: String,
}

/// Health of a server.
#[derive(PartialEq, Eq, Structural, Clone, Copy, Debug)]
pub enum HealthStatus {
    Healthy,
    Degraded,
    Unhealthy,
}

/// The lowercase name of a status.
pub open spec fn health_status_text(s: HealthStatus) -> Seq<char> {
    match s {
        HealthStatus::Healthy => "healthy"@,
        HealthStatus::Degraded => "degraded"@,
        HealthStatus::Unhealthy => "unhealthy"@,
    }
}

impl HealthStatus {
    /// `healthy`, `degraded` or `unhealthy`.
    pub fn to_string(&self) -> (r: String)
        ensures
            r@ == health_status_text(*self),
    {
        match self {
            HealthStatus::Healthy => String::from_str("healthy"),
            HealthStatus::Degraded => String::from_str("degraded"),
            HealthStatus::Unhealthy => String::from_str("unhealthy"),
        }
    }
}

/// The outcome of one ping.
pub struct HealthCheckResult {
    /// When the ping was made, in milliseconds since the Unix epoch.
    pub timestamp_ms: i64,
    pub success: bool,
    pub response_time_ms: u64,
    pub error_message: Option<String>,
}

impl HealthCheckResult {
    /// A successful ping, stamped now.
    pub fn success(response_time_ms: u64) -> (r: HealthCheckResult)
        ensures
            r.success,
            r.response_time_ms == response_time_ms,
            r.error_message is None,
    {
        HealthCheckResult { timestamp_ms: now_millis(), success: true, response_time_ms, error_message: None }
    }

    /// A failed ping, stamped now.
    pub fn failure(response_time_ms: u64, error_message: String) -> (r: HealthCheckResult)
        ensures
            !r.success,
            r.response_time_ms == response_time_ms,
            r.error_message == Some(error_message),
    {
        HealthCheckResult {
            timestamp_ms: now_millis(),
            success: false,
            response_time_ms,
            error_message: Some(error_message),
        }
    }
}

/// The last `max` elements of `s` (all of them when it has fewer).
pub open spec fn last_at_most<A>(s: Seq<A>, max: nat) -> Seq<A> {
    if s.len() > max {
        s.skip(s.len() - max)
    } else {
        s
    }
}

/// How many of the checks failed.
pub open spec fn failures(s: Seq<HealthCheckResult>) -> nat
    decreases s.len(),
{
    if s.len() == 0 {
        0
    } else {
        failures(s.drop_last()) + if s.last().success { 0nat } else { 1nat }
    }
}

/// No more pings failed than were made.
pub proof fn lemma_failures_bounded(s: Seq<HealthCheckResult>)
    ensures
        failures(s) <= s.len(),
    decreases s.len(),
{
    if s.len() > 0 {
        lemma_failures_bounded(s.drop_last());
    }
}

/// The recent pings of one server, at most `max_history` of them.
pub struct HealthHistory {
    pub server_name: String,
    pub recent_checks: Vec<HealthCheckResult>,
    pub max_history: usize,
}

impl HealthHistory {
    /// An empty history keeping at most `max_history` pings.
    pub fn new(server_name: String, max_history: usize) -> (r: HealthHistory)
        ensures
            r.server_name == server_name,
            r.recent_checks@.len() == 0,
            r.max_history == max_history,
    {
        HealthHistory { server_name, recent_checks: Vec::new(), max_history }
    }

    /// Adds a ping; the oldest leave while there are more than `max_history`.
    pub fn add_result(&mut self, result: HealthCheckResult)
        ensures
            final(self).recent_checks@ == last_at_most(old(self).recent_checks@.push(result), old(self).max_history as nat),
            final(self).max_history == old(self).max_history,
            final(self).server_name == old(self).server_name,
    {
        let ghost all = self.recent_checks@.push(result);
        self.recent_checks.push(result);
        let ghost mut dropped: int = 0;
        while self.recent_checks.len() > self.max_history
            invariant
                all == old(self).recent_checks@.push(result),
                self.max_history == old(self).max_history,
                self.server_name == old(self).server_name,
                0 <= dropped <= all.len(),
                self.recent_checks@ == all.skip(dropped),
                dropped <= (if all.len() > self.max_history { all.len() - self.max_history } else { 0 }),
            decreases self.recent_checks.len(),
        {
            let _oldest = self.recent_checks.remove(0);
            proof {
                assert(all.skip(dropped).remove(0) =~= all.skip(dropped + 1));
                dropped = dropped + 1;
            }
        }
        assert(dropped == (if all.len() > self.max_history { all.len() - self.max_history } else { 0 }));
        assert(all.skip(0) =~= all);
    }

    /// How many of the recent pings failed.
    pub fn error_count(&self) -> (r: u64)
        requires
            self.recent_checks@.len() <= u64::MAX,
        ensures
            r == failures(self.recent_checks@),
    {
        let mut n: u64 = 0;
        let mut i: usize = 0;
        while i < self.recent_checks.len()
            invariant
                i <= self.recent_checks@.len(),
                self.recent_checks@.len() <= u64::MAX,
                n == failures(self.recent_checks@.take(i as int)),
                n <= i,
            decreases self.recent_checks@.len() - i,
        {
            assert(self.recent_checks@.take(i + 1).drop_last() =~= self.recent_checks@.take(i as int));
            if !self.recent_checks[i].success {
                n = n + 1;
            }
            i = i + 1;
        }
        assert(self.recent_checks@.take(self.recent_checks@.len() as int) =~= self.recent_checks@);
        n
    }
}

/// The failure count counts the failed checks, and the history keeps the
/// newest checks: at most `max` of them, the last ones added, in order.
pub proof fn lemma_history_counts_and_keeps(s: Seq<HealthCheckResult>, max: nat)
    ensures
        failures(s) == s.filter(|c: HealthCheckResult| !c.success).len(),
        last_at_most(s, max).len() == if s.len() > max { max } else { s.len() },
        forall|i: int| 0 <= i < last_at_most(s, max).len()
            ==> #[trigger] last_at_most(s, max)[i] == s[s.len() - last_at_most(s, max).len() + i],
    decreases s.len(),
{
    let p = |c: HealthCheckResult| !c.success;
    if s.len() == 0 {
        reveal(Seq::filter);
        assert(s.filter(p) =~= Seq::<HealthCheckResult>::empty());
    } else {
        lemma_history_counts_and_keeps(s.drop_last(), max);
        assert(s =~= s.drop_last().push(s.last()));
        s.drop_last().lemma_filter_push(s.last(), p);
    }
}

/// The status for a response time and a share `errors / total` of failed pings
/// (none when `total` is 0): unhealthy from 2000 ms or a fifth failed,
/// degraded from 500 ms or a twentieth failed, healthy otherwise.
pub open spec fn health_status_for(response_time_ms: u64, errors: nat, total: nat) -> HealthStatus {
    if response_time_ms >= 2000 || (total > 0 && 5 * errors >= total) {
        HealthStatus::Unhealthy
    } else if response_time_ms >= 500 || (total > 0 && 20 * errors >= total) {
        HealthStatus::Degraded
    } else {
        HealthStatus::Healthy
    }
}

/// The health thresholds: a response of 2000 ms or more, or a failure share of
/// 20% or more, is unhealthy; otherwise a response of 500 ms or more, or a
/// failure share of 5% or more, is degraded; anything faster with fewer
/// failures is healthy. A slower response or more failures never gives a
/// better status.
pub proof fn lemma_health_thresholds(t: u64, errors: nat, total: nat, t2: u64, errors2: nat)
    requires
        errors <= total,
        errors2 <= total,
    ensures
        t >= 2000 ==> health_status_for(t, errors, total) == HealthStatus::Unhealthy,
        total > 0 && errors * 100 >= total * 20 ==> health_status_for(t, errors, total) == HealthStatus::Unhealthy,
        t < 2000 && errors * 100 < total * 20 && (t >= 500 || (total > 0 && errors * 100 >= total * 5))
            ==> health_status_for(t, errors, total) == HealthStatus::Degraded,
        t < 500 && errors * 100 < total * 5 ==> health_status_for(t, errors, total) == HealthStatus::Healthy,
        t < 500 && total == 0 ==> health_status_for(t, errors, total) == HealthStatus::Healthy,
        t <= t2 && errors <= errors2 && health_status_for(t, errors, total) == HealthStatus::Unhealthy
            ==> health_status_for(t2, errors2, total) == HealthStatus::Unhealthy,
        t <= t2 && errors <= errors2 && health_status_for(t2, errors2, total) == HealthStatus::Healthy
            ==> health_status_for(t, errors, total) == HealthStatus::Healthy,
{
}

/// The status for a response time and `errors` failed pings among `total`.
pub fn determine_status(response_time_ms: u64, errors: u64, total: u64) -> (r: HealthStatus)
    requires
        errors <= total,
    ensures
        r == health_status_for(response_time_ms, errors as nat, total as nat),
{
    let big: u128 = errors as u128;
    let t: u128 = total as u128;
    if response_time_ms >= 2000 || (total > 0 && 5 * big >= t) {
        HealthStatus::Unhealthy
    } else if response_time_ms >= 500 || (total > 0 && 20 * big >= t) {
        HealthStatus::Degraded
    } else {
        HealthStatus::Healthy
    }
}

} // verus!
