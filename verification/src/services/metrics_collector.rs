//! Collection of tool execution records and their aggregation over a time
//! window. The floating-point rates and the percentiles are computed from the
//! integer summary by the caller.
use vstd::prelude::*;
use crate::models::metrics::{window_secs, MetricStatus, Metrics, TimeWindow};
use crate::services::config_import_export::names_not_in;
use crate::text::{copy_string, str_eq, views_of_strings};
use crate::time::now_millis;

verus! {

/// How many records the collector keeps; the oldest leave first.
pub const MAX_METRICS_BUFFER_SIZE: usize = 10000;

/// The longest window, in seconds, that can be subtracted from the current
/// time without leaving the range of calendar dates.
pub const MAX_WINDOW_SECS: u64 = 8_000_000_000_000;

/// Whether a record was made within `window` before `now_ms`.
pub open spec fn in_window(m: Metrics, window: TimeWindow, now_ms: i64) -> bool {
    m.timestamp_ms >= now_ms - window_secs(window) * 1000
}

/// Whether a record is of `server` and, when given, of `tool`.
pub open spec fn of_server_tool(m: Metrics, server: Seq<char>, tool: Option<Seq<char>>) -> bool {
    m.server_name@ == server && (tool matches Some(t) ==> m.tool_name@ == t)
}

/// Equality of texts.
pub open spec fn str_eq_spec(a: Seq<char>, b: Seq<char>) -> bool {
    a == b
}

/// The view of an optional string slice.
pub open spec fn opt_str_ref(o: Option<&str>) -> Option<Seq<char>> {
    match o {
        Some(t) => Some(t@),
        None => None,
    }
}

/// The records of `s` made within `window` before `now_ms`.
pub open spec fn records_in_window(s: Seq<Metrics>, window: TimeWindow, now_ms: i64) -> Seq<Metrics> {
    s.filter(|m: Metrics| in_window(m, window, now_ms))
}

/// The records selected for an aggregation.
pub open spec fn selected_metrics(s: Seq<Metrics>, window: TimeWindow, now_ms: i64, server: Seq<char>, tool: Option<Seq<char>>) -> Seq<Metrics> {
    s.filter(|m: Metrics| in_window(m, window, now_ms) && of_server_tool(m, server, tool))
}

/// How many records of `s` succeeded.
pub open spec fn count_success(s: Seq<Metrics>) -> nat
    decreases s.len(),
{
    if s.len() == 0 { 0 } else { count_success(s.drop_last()) + if s.last().status == MetricStatus::Success { 1nat } else { 0nat } }
}

/// How many records of `s` were served from the cache.
pub open spec fn count_cache_hits(s: Seq<Metrics>) -> nat
    decreases s.len(),
{
    if s.len() == 0 { 0 } else { count_cache_hits(s.drop_last()) + if s.last().cache_hit { 1nat } else { 0nat } }
}

/// How many records of `s` reused a connection.
pub open spec fn count_reuses(s: Seq<Metrics>) -> nat
    decreases s.len(),
{
    if s.len() == 0 { 0 } else { count_reuses(s.drop_last()) + if s.last().connection_reused { 1nat } else { 0nat } }
}

/// The sum of the response times of `s`.
pub open spec fn sum_times(s: Seq<Metrics>) -> nat
    decreases s.len(),
{
    if s.len() == 0 { 0 } else { sum_times(s.drop_last()) + s.last().response_time_ms as nat }
}

/// The least response time of a non-empty `s`.
pub open spec fn min_time(s: Seq<Metrics>) -> u64
    decreases s.len(),
{
    if s.len() <= 1 {
        s[0].response_time_ms
    } else {
        let m = min_time(s.drop_last());
        if s.last().response_time_ms < m { s.last().response_time_ms } else { m }
    }
}

/// The greatest response time of a non-empty `s`.
pub open spec fn max_time(s: Seq<Metrics>) -> u64
    decreases s.len(),
{
    if s.len() <= 1 {
        s[0].response_time_ms
    } else {
        let m = max_time(s.drop_last());
        if s.last().response_time_ms > m { s.last().response_time_ms } else { m }
    }
}

/// A record is in a window exactly when it was made no earlier than the
/// window's length before now: an hour, a day, a week, or the given number of
/// seconds; a longer window holds every record a shorter one holds. An
/// aggregation selects the records in the window of the server (and tool,
/// when given), and only those.
pub proof fn lemma_window_selection(m: Metrics, now_ms: i64, secs: u64, s: Seq<Metrics>, server: Seq<char>, tool: Option<Seq<char>>, w: TimeWindow)
    ensures
        in_window(m, TimeWindow::LastHour, now_ms) <==> m.timestamp_ms >= now_ms - 3_600_000,
        in_window(m, TimeWindow::Last24Hours, now_ms) <==> m.timestamp_ms >= now_ms - 86_400_000,
        in_window(m, TimeWindow::Last7Days, now_ms) <==> m.timestamp_ms >= now_ms - 604_800_000,
        in_window(m, TimeWindow::Custom(secs), now_ms) <==> m.timestamp_ms >= now_ms - secs * 1000,
        in_window(m, TimeWindow::LastHour, now_ms) ==> in_window(m, TimeWindow::Last24Hours, now_ms),
        in_window(m, TimeWindow::Last24Hours, now_ms) ==> in_window(m, TimeWindow::Last7Days, now_ms),
        forall|i: int| 0 <= i < selected_metrics(s, w, now_ms, server, tool).len() ==> {
            let x = #[trigger] selected_metrics(s, w, now_ms, server, tool)[i];
            &&& s.contains(x)
            &&& in_window(x, w, now_ms)
            &&& x.server_name@ == server
            &&& (tool matches Some(t) ==> x.tool_name@ == t)
        },
{
    let p = |x: Metrics| in_window(x, w, now_ms) && of_server_tool(x, server, tool);
    assert forall|i: int| 0 <= i < s.filter(p).len() implies s.contains(#[trigger] s.filter(p)[i]) && p(s.filter(p)[i]) by {
        s.lemma_filter_contains_rev(p, s.filter(p)[i]);
        assert(s.filter(p).contains(s.filter(p)[i]));
    }
}

/// The least and greatest response times of a non-empty `s` are bounds of
/// every response time in `s`, and each is the response time of some record.
pub proof fn lemma_min_max_times(s: Seq<Metrics>)
    requires
        s.len() > 0,
    ensures
        forall|i: int| 0 <= i < s.len() ==> min_time(s) <= (#[trigger] s[i]).response_time_ms <= max_time(s),
        exists|i: int| 0 <= i < s.len() && min_time(s) == (#[trigger] s[i]).response_time_ms,
        exists|i: int| 0 <= i < s.len() && max_time(s) == (#[trigger] s[i]).response_time_ms,
    decreases s.len(),
{
    if s.len() == 1 {
        assert(min_time(s) == s[0].response_time_ms);
        assert(max_time(s) == s[0].response_time_ms);
    } else {
        let d = s.drop_last();
        lemma_min_max_times(d);
        assert forall|i: int| 0 <= i < s.len() implies min_time(s) <= (#[trigger] s[i]).response_time_ms <= max_time(s) by {
            if i < d.len() {
                assert(s[i] == d[i]);
            }
        }
        let a = choose|i: int| 0 <= i < d.len() && min_time(d) == (#[trigger] d[i]).response_time_ms;
        let b = choose|i: int| 0 <= i < d.len() && max_time(d) == (#[trigger] d[i]).response_time_ms;
        assert(s[a] == d[a]);
        assert(s[b] == d[b]);
        let last = s.len() - 1;
        if s.last().response_time_ms < min_time(d) {
            assert(min_time(s) == s[last].response_time_ms);
        } else {
            assert(min_time(s) == s[a].response_time_ms);
        }
        if s.last().response_time_ms > max_time(d) {
            assert(max_time(s) == s[last].response_time_ms);
        } else {
            assert(max_time(s) == s[b].response_time_ms);
        }
    }
}

/// The counts of a summary count records: the successful ones, those served
/// from the cache, and those that reused a connection.
pub proof fn lemma_counts_count_records(s: Seq<Metrics>)
    ensures
        count_success(s) == s.filter(|m: Metrics| m.status == MetricStatus::Success).len(),
        count_cache_hits(s) == s.filter(|m: Metrics| m.cache_hit).len(),
        count_reuses(s) == s.filter(|m: Metrics| m.connection_reused).len(),
    decreases s.len(),
{
    let p1 = |m: Metrics| m.status == MetricStatus::Success;
    let p2 = |m: Metrics| m.cache_hit;
    let p3 = |m: Metrics| m.connection_reused;
    if s.len() == 0 {
        reveal(Seq::filter);
        assert(s.filter(p1) =~= Seq::<Metrics>::empty());
        assert(s.filter(p2) =~= Seq::<Metrics>::empty());
        assert(s.filter(p3) =~= Seq::<Metrics>::empty());
    } else {
        let d = s.drop_last();
        lemma_counts_count_records(d);
        assert(s =~= d.push(s.last()));
        d.lemma_filter_push(s.last(), p1);
        d.lemma_filter_push(s.last(), p2);
        d.lemma_filter_push(s.last(), p3);
    }
}

/// The integer part of an aggregation of records.
pub struct MetricsSummary {
    pub server_name: String,
    pub tool_name: Option<String>,
    pub time_window: TimeWindow,
    pub total_requests: u64,
    pub successful_requests: u64,
    pub failed_requests: u64,
    pub cache_hits: u64,
    pub connection_reuses: u64,
    /// Least and greatest response time (0 when there is no record).
    pub min_ms: u64,
    pub max_ms: u64,
    pub sum_ms: u128,
    /// The response times, in the order of the records.
    pub response_times: Vec<u64>,
}

/// Whether `r` summarises the records `s`.
pub open spec fn summarises(r: MetricsSummary, s: Seq<Metrics>) -> bool {
    &&& r.total_requests == s.len()
    &&& r.successful_requests == count_success(s)
    &&& r.failed_requests == s.len() - count_success(s)
    &&& r.cache_hits == count_cache_hits(s)
    &&& r.connection_reuses == count_reuses(s)
    &&& r.sum_ms == sum_times(s)
    &&& (s.len() == 0 ==> r.min_ms == 0 && r.max_ms == 0)
    &&& (s.len() > 0 ==> r.min_ms == min_time(s) && r.max_ms == max_time(s))
    &&& r.response_times@ == Seq::new(s.len(), |i: int| s[i].response_time_ms)
}

proof fn lemma_counts_bounded(s: Seq<Metrics>)
    ensures
        count_success(s) <= s.len(),
        count_cache_hits(s) <= s.len(),
        count_reuses(s) <= s.len(),
        sum_times(s) <= s.len() * 0xFFFF_FFFF_FFFF_FFFF,
    decreases s.len(),
{
    if s.len() > 0 {
        lemma_counts_bounded(s.drop_last());
    }
}

fn copy_metrics(m: &Metrics) -> (r: Metrics)
    ensures
        r == *m,
{
    Metrics {
        server_name: m.server_name.clone(),
        tool_name: m.tool_name.clone(),
        timestamp_ms: m.timestamp_ms,
        response_time_ms: m.response_time_ms,
        status: m.status,
        cache_hit: m.cache_hit,
        connection_reused: m.connection_reused,
    }
}

/// Records of tool executions, at most [`MAX_METRICS_BUFFER_SIZE`] of them.
pub struct MetricsCollector {
    buffer: Vec<Metrics>,
}

impl MetricsCollector {
    /// The records held, oldest first.
    pub closed spec fn records(&self) -> Seq<Metrics> {
        self.buffer@
    }

    /// An empty collector.
    pub fn new() -> (r: MetricsCollector)
        ensures
            r.records().len() == 0,
    {
        MetricsCollector { buffer: Vec::new() }
    }

    /// Records one execution, stamped now; when the collector is full the
    /// oldest record leaves first.
    pub fn record_metric(
        &mut self,
        server_name: String,
        tool_name: String,
        response_time_ms: u64,
        status: MetricStatus,
        cache_hit: bool,
        connection_reused: bool,
    )
        ensures
            final(self).records().len() > 0,
            final(self).records().drop_last() == (if old(self).records().len() >= MAX_METRICS_BUFFER_SIZE {
                old(self).records().drop_first()
            } else {
                old(self).records()
            }),
            ({
                let m = final(self).records().last();
                &&& m.server_name == server_name
                &&& m.tool_name == tool_name
                &&& m.response_time_ms == response_time_ms
                &&& m.status == status
                &&& m.cache_hit == cache_hit
                &&& m.connection_reused == connection_reused
            }),
    {
        let metric = Metrics::new(server_name, tool_name, response_time_ms, status, cache_hit, connection_reused);
        if self.buffer.len() >= MAX_METRICS_BUFFER_SIZE {
            let _oldest = self.buffer.remove(0);
        }
        let ghost before = self.buffer@;
        self.buffer.push(metric);
        assert(self.buffer@.drop_last() =~= before);
    }

    /// How many records are held.
    pub fn total_metrics(&self) -> (r: usize)
        ensures
            r == self.records().len(),
    {
        self.buffer.len()
    }

    /// Copies of the records made within `window` before `now_ms`, oldest first.
    pub fn metrics_in_window(&self, window: TimeWindow, now_ms: i64) -> (r: Vec<Metrics>)
        ensures
            r@ == records_in_window(self.records(), window, now_ms),
    {
        let ghost p = |m: Metrics| in_window(m, window, now_ms);
        let cutoff: i128 = now_ms as i128 - (window.duration_secs() as i128) * 1000;
        let mut out: Vec<Metrics> = Vec::new();
        let mut i: usize = 0;
        while i < self.buffer.len()
            invariant
                i <= self.buffer@.len(),
                p == (|m: Metrics| in_window(m, window, now_ms)),
                cutoff == now_ms - window_secs(window) * 1000,
                out@ == self.buffer@.take(i as int).filter(p),
            decreases self.buffer@.len() - i,
        {
            let m = &self.buffer[i];
            proof {
                assert(self.buffer@.take(i + 1) =~= self.buffer@.take(i as int).push(*m));
                self.buffer@.take(i as int).lemma_filter_push(*m, p);
            }
            if m.timestamp_ms as i128 >= cutoff {
                out.push(copy_metrics(m));
            }
            i = i + 1;
        }
        assert(self.buffer@.take(self.buffer@.len() as int) =~= self.buffer@);
        out
    }

    /// Copies of the records made within `window` before now.
    pub fn get_metrics(&self, window: TimeWindow) -> (r: Vec<Metrics>)
        requires
            window_secs(window) <= MAX_WINDOW_SECS,
        ensures
            exists|now_ms: i64| r@ == #[trigger] records_in_window(self.records(), window, now_ms),
    {
        let now = now_millis();
        self.metrics_in_window(window, now)
    }

    /// The summary of the records of `server_name` (and of `tool_name`, when
    /// given) made within `window` before `now_ms`.
    pub fn summarize(&self, server_name: &str, tool_name: Option<&str>, window: TimeWindow, now_ms: i64) -> (r: MetricsSummary)
        ensures
            r.server_name@ == server_name@,
            r.tool_name matches Some(t) ==> tool_name matches Some(u) && t@ == u@,
            r.tool_name is None ==> tool_name is None,
            r.time_window == window,
            summarises(r, selected_metrics(self.records(), window, now_ms, server_name@,
                opt_str_ref(tool_name))),
    {
        let ghost tool = opt_str_ref(tool_name);
        let ghost p = |m: Metrics| in_window(m, window, now_ms) && of_server_tool(m, server_name@, tool);
        let ghost s = selected_metrics(self.records(), window, now_ms, server_name@, tool);
        let cutoff: i128 = now_ms as i128 - (window.duration_secs() as i128) * 1000;
        let mut total: u64 = 0;
        let mut success: u64 = 0;
        let mut hits: u64 = 0;
        let mut reuses: u64 = 0;
        let mut min: u64 = 0;
        let mut max: u64 = 0;
        let mut sum: u128 = 0;
        let mut times: Vec<u64> = Vec::new();
        let n = self.buffer.len();
        let mut i: usize = 0;
        while i < self.buffer.len()
            invariant
                i <= self.buffer@.len(),
                self.buffer@.len() == n,
                success <= total,
                p == (|m: Metrics| in_window(m, window, now_ms) && of_server_tool(m, server_name@, tool)),
                cutoff == now_ms - window_secs(window) * 1000,
                ({
                    let t = self.buffer@.take(i as int).filter(p);
                    &&& total == t.len()
                    &&& success == count_success(t)
                    &&& hits == count_cache_hits(t)
                    &&& reuses == count_reuses(t)
                    &&& sum == sum_times(t)
                    &&& (t.len() == 0 ==> min == 0 && max == 0)
                    &&& (t.len() > 0 ==> min == min_time(t) && max == max_time(t))
                    &&& times@ == Seq::new(t.len(), |k: int| t[k].response_time_ms)
                    &&& t.len() <= i
                    &&& tool == opt_str_ref(tool_name)
                }),
            decreases self.buffer@.len() - i,
        {
            let m = &self.buffer[i];
            let ghost t = self.buffer@.take(i as int).filter(p);
            proof {
                assert(self.buffer@.take(i + 1) =~= self.buffer@.take(i as int).push(*m));
                self.buffer@.take(i as int).lemma_filter_push(*m, p);
                lemma_counts_bounded(t);
                assert(t.len() * 0xFFFF_FFFF_FFFF_FFFFnat <= usize::MAX * 0xFFFF_FFFF_FFFF_FFFFnat) by (nonlinear_arith)
                    requires t.len() <= usize::MAX;
            }
            let keep = (m.timestamp_ms as i128 >= cutoff)
                && str_eq(m.server_name.as_str(), server_name)
                && match tool_name {
                    Some(tn) => str_eq(m.tool_name.as_str(), tn),
                    None => true,
                };
            proof {
                assert(in_window(*m, window, now_ms) == (m.timestamp_ms as i128 >= cutoff));
                assert(of_server_tool(*m, server_name@, tool) == (str_eq_spec(m.server_name@, server_name@) && match tool_name {
                    Some(tn) => m.tool_name@ == tn@,
                    None => true,
                }));
                assert(keep == p(*m));
            }
            if keep {
                let rt = m.response_time_ms;
                proof {
                    let u = t.push(*m);
                    assert(u.drop_last() =~= t);
                }
                if total == 0 {
                    min = rt;
                    max = rt;
                } else {
                    if rt < min {
                        min = rt;
                    }
                    if rt > max {
                        max = rt;
                    }
                }
                total = total + 1;
                if m.status == MetricStatus::Success {
                    success = success + 1;
                }
                if m.cache_hit {
                    hits = hits + 1;
                }
                if m.connection_reused {
                    reuses = reuses + 1;
                }
                sum = sum + rt as u128;
                times.push(rt);
                proof {
                    let u = t.push(*m);
                    assert(times@ =~= Seq::new(u.len(), |k: int| u[k].response_time_ms));
                }
            }
            i = i + 1;
        }
        assert(self.buffer@.take(self.buffer@.len() as int) =~= self.buffer@);
        MetricsSummary {
            server_name: String::from_str(server_name),
            tool_name: match tool_name {
                Some(t) => Some(String::from_str(t)),
                None => None,
            },
            time_window: window,
            total_requests: total,
            successful_requests: success,
            failed_requests: total - success,
            cache_hits: hits,
            connection_reuses: reuses,
            min_ms: min,
            max_ms: max,
            sum_ms: sum,
            response_times: times,
        }
    }

    /// The summary of the records of `server_name` (and of `tool_name`, when
    /// given) made within `window` before now.
    pub fn aggregate_metrics(&self, server_name: &str, tool_name: Option<&str>, window: TimeWindow) -> (r: MetricsSummary)
        requires
            window_secs(window) <= MAX_WINDOW_SECS,
        ensures
            r.server_name@ == server_name@,
            r.time_window == window,
            exists|now_ms: i64| summarises(r, #[trigger] selected_metrics(self.records(), window, now_ms, server_name@,
                opt_str_ref(tool_name))),
    {
        let now = now_millis();
        self.summarize(server_name, tool_name, window, now)
    }

    /// The servers of the records made within `window` before `now_ms`, each
    /// once, in the order they first appear.
    pub fn servers_in_window(&self, window: TimeWindow, now_ms: i64) -> (r: Vec<String>)
        ensures
            views_of_strings(r@) == names_not_in(Seq::empty(),
                Seq::new(self.records().filter(|m: Metrics| in_window(m, window, now_ms)).len(),
                    |k: int| self.records().filter(|m: Metrics| in_window(m, window, now_ms))[k].server_name@)),
    {
        let ms = self.metrics_in_window(window, now_ms);
        let mut names: Vec<String> = Vec::new();
        let mut i: usize = 0;
        while i < ms.len()
            invariant
                i <= ms@.len(),
                names@.len() == i,
                forall|k: int| 0 <= k < i ==> (#[trigger] names@[k])@ == ms@[k].server_name@,
            decreases ms@.len() - i,
        {
            names.push(copy_string(&ms[i].server_name));
            i = i + 1;
        }
        assert(views_of_strings(names@) =~= Seq::new(ms@.len(), |k: int| ms@[k].server_name@));
        distinct_strings(&names)
    }

    /// The tools of `server_name` in the records made within `window` before
    /// `now_ms`, each once, in the order they first appear.
    pub fn tools_in_window(&self, server_name: &str, window: TimeWindow, now_ms: i64) -> (r: Vec<String>)
        ensures
            ({
                let s = self.records().filter(|m: Metrics| in_window(m, window, now_ms)).filter(|m: Metrics| m.server_name@ == server_name@);
                views_of_strings(r@) == names_not_in(Seq::empty(), Seq::new(s.len(), |k: int| s[k].tool_name@))
            }),
    {
        let ms = self.metrics_in_window(window, now_ms);
        let ghost p = |m: Metrics| m.server_name@ == server_name@;
        let mut names: Vec<String> = Vec::new();
        let mut i: usize = 0;
        while i < ms.len()
            invariant
                i <= ms@.len(),
                p == (|m: Metrics| m.server_name@ == server_name@),
                names@.len() == ms@.take(i as int).filter(p).len(),
                forall|k: int| 0 <= k < names@.len() ==> (#[trigger] names@[k])@ == ms@.take(i as int).filter(p)[k].tool_name@,
            decreases ms@.len() - i,
        {
            proof {
                assert(ms@.take(i + 1) =~= ms@.take(i as int).push(ms@[i as int]));
                ms@.take(i as int).lemma_filter_push(ms@[i as int], p);
            }
            if str_eq(ms[i].server_name.as_str(), server_name) {
                names.push(copy_string(&ms[i].tool_name));
            }
            i = i + 1;
        }
        assert(ms@.take(ms@.len() as int) =~= ms@);
        let ghost t = ms@.filter(p);
        assert(views_of_strings(names@) =~= Seq::new(t.len(), |k: int| t[k].tool_name@));
        distinct_strings(&names)
    }
}

/// The strings of `v`, each once, in the order they first appear.
pub fn distinct_strings(v: &Vec<String>) -> (r: Vec<String>)
    ensures
        views_of_strings(r@) == names_not_in(Seq::empty(), views_of_strings(v@)),
{
    let ghost s = views_of_strings(v@);
    let mut out: Vec<String> = Vec::new();
    let mut j: usize = 0;
    while j < v.len()
        invariant
            j <= v@.len(),
            s == views_of_strings(v@),
            views_of_strings(out@) == names_not_in(Seq::empty(), s.take(j as int)),
        decreases v@.len() - j,
    {
        let mut seen = false;
        let mut i: usize = 0;
        while i < j
            invariant
                i <= j < v@.len(),
                s == views_of_strings(v@),
                seen == s.take(i as int).contains(s[j as int]),
            decreases j - i,
        {
            proof {
                assert(s.take(i + 1) =~= s.take(i as int).push(s[i as int]));
            }
            if str_eq(v[i].as_str(), v[j].as_str()) {
                assert(s.take(i + 1)[i as int] == s[j as int]);
                seen = true;
            }
            i = i + 1;
        }
        proof {
            let t = s.take(j + 1);
            assert(t.drop_last() =~= s.take(j as int));
            assert(t.last() == s[j as int]);
            assert(!Seq::<Seq<char>>::empty().contains(s[j as int]));
        }
        if !seen {
            let ghost before = out@;
            out.push(copy_string(&v[j]));
            assert(views_of_strings(out@) =~= views_of_strings(before).push(s[j as int]));
        }
        j = j + 1;
    }
    assert(s.take(v@.len() as int) =~= s);
    out
}

} // verus!
