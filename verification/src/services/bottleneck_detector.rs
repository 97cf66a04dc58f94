//! Kinds and severities of performance bottlenecks, and what to do about them.
use vstd::prelude::*;

verus! {

/// What kind of bottleneck was found.
#[derive(PartialEq, Eq, Structural, Clone, Copy, Debug)]
pub enum BottleneckType {
    HighResponseTime,
    HighErrorRate,
    LowThroughput,
    HighMemoryUsage,
}

/// How serious a bottleneck is.
#[derive(PartialEq, Eq, Structural, Clone, Copy, Debug)]
pub enum Severity {
    Warning,
    Critical,
}

/// The advice given for a kind of bottleneck.
pub open spec fn recommendation_text(t: BottleneckType) -> Seq<char> {
    match t {
        BottleneckType::HighResponseTime => "- Check server logs for errors or slow operations\n- Consider increasing timeout settings\n- Review tool implementation for performance issues\n- Monitor system resources (CPU, memory, disk I/O)"@,
        BottleneckType::HighErrorRate => "- Review error logs for common error patterns\n- Check network connectivity and server availability\n- Verify input parameters and request format\n- Consider implementing retry logic with backoff"@,
        BottleneckType::LowThroughput => "- Consider parallel processing implementation\n- Adjust batch sizes for better efficiency\n- Review caching strategy\n- Increase resource pool sizes"@,
        BottleneckType::HighMemoryUsage => "- Check for memory leaks\n- Optimize large data structures\n- Tune garbage collection settings\n- Consider streaming processing approach"@,
    }
}

/// The advice for a kind of bottleneck.
pub fn generate_recommendation(t: BottleneckType) -> (r: String)
    ensures
        r@ == recommendation_text(t),
{
    match t {
        BottleneckType::HighResponseTime => String::from_str("- Check server logs for errors or slow operations\n- Consider increasing timeout settings\n- Review tool implementation for performance issues\n- Monitor system resources (CPU, memory, disk I/O)"),
        BottleneckType::HighErrorRate => String::from_str("- Review error logs for common error patterns\n- Check network connectivity and server availability\n- Verify input parameters and request format\n- Consider implementing retry logic with backoff"),
        BottleneckType::LowThroughput => String::from_str("- Consider parallel processing implementation\n- Adjust batch sizes for better efficiency\n- Review caching strategy\n- Increase resource pool sizes"),
        BottleneckType::HighMemoryUsage => String::from_str("- Check for memory leaks\n- Optimize large data structures\n- Tune garbage collection settings\n- Consider streaming processing approach"),
    }
}

/// Whether the 99th percentile of response times exceeds the threshold.
pub fn response_time_exceeds(p99_ms: u64, threshold_ms: u64) -> (r: bool)
    ensures
        r == (p99_ms > threshold_ms),
{
    p99_ms > threshold_ms
}

} // verus!
