//! Verbose logging of requests and responses: payload truncation on UTF-8
//! boundaries and the separator line.
use vstd::prelude::*;
use crate::text::{chars_of, push_char, push_str};

verus! {

/// Default largest payload printed whole, in bytes.
pub const DEFAULT_MAX_PAYLOAD_SIZE: usize = 4096;

/// Settings of the verbose logger.
#[derive(Clone, Copy, Debug)]
pub struct DebugLoggerConfig {
    pub color_output: bool,
    pub max_payload_size: usize,
    pub truncate_large_payloads: bool,
}

impl Default for DebugLoggerConfig {
    /// Colours on, payloads over 4096 bytes truncated.
    fn default() -> (r: DebugLoggerConfig)
        ensures
            r.color_output,
            r.max_payload_size == 4096,
            r.truncate_large_payloads,
    {
        DebugLoggerConfig { color_output: true, max_payload_size: DEFAULT_MAX_PAYLOAD_SIZE, truncate_large_payloads: true }
    }
}

/// How many bytes the UTF-8 encoding of `c` takes.
pub open spec fn utf8_width(c: char) -> nat {
    if (c as u32) < 0x80 {
        1
    } else if (c as u32) < 0x800 {
        2
    } else if (c as u32) < 0x10000 {
        3
    } else {
        4
    }
}

/// How many bytes the UTF-8 encoding of `s` takes.
pub open spec fn utf8_len(s: Seq<char>) -> nat
    decreases s.len(),
{
    if s.len() == 0 {
        0
    } else {
        utf8_len(s.drop_last()) + utf8_width(s.last())
    }
}

/// The longest prefix of `s` whose encoding takes at most `max` bytes.
pub open spec fn prefix_within(s: Seq<char>, max: nat) -> Seq<char>
    decreases s.len(),
{
    if utf8_len(s) <= max {
        s
    } else {
        prefix_within(s.drop_last(), max)
    }
}

/// What follows a truncated payload.
pub open spec fn truncation_marker() -> Seq<char> {
    "\n... (truncated)"@
}

/// `text` when its encoding takes at most `max` bytes; otherwise its longest
/// prefix that leaves room for the marker, then the marker.
pub open spec fn truncated(text: Seq<char>, max: nat) -> Seq<char> {
    if utf8_len(text) <= max {
        text
    } else {
        prefix_within(text, if max >= 16 { (max - 16) as nat } else { 0 }) + truncation_marker()
    }
}

fn char_width(c: char) -> (r: usize)
    ensures
        r == utf8_width(c),
{
    let u = c as u32;
    if u < 0x80 {
        1
    } else if u < 0x800 {
        2
    } else if u < 0x10000 {
        3
    } else {
        4
    }
}

proof fn lemma_prefix_within(s: Seq<char>, max: nat, k: int)
    requires
        0 <= k <= s.len(),
        utf8_len(s.take(k)) <= max,
        k == s.len() || utf8_len(s.take(k + 1)) > max,
    ensures
        prefix_within(s, max) == s.take(k),
    decreases s.len(),
{
    lemma_utf8_len_grows(s, k);
    if k < s.len() {
        assert(utf8_len(s) > max) by {
            lemma_utf8_len_grows(s, k + 1);
        }
        assert(s.drop_last().take(k) =~= s.take(k));
        if k + 1 <= s.drop_last().len() {
            assert(s.drop_last().take(k + 1) =~= s.take(k + 1));
        }
        lemma_prefix_within(s.drop_last(), max, k);
    } else {
        assert(s.take(k) =~= s);
    }
}

proof fn lemma_utf8_len_grows(s: Seq<char>, k: int)
    requires
        0 <= k <= s.len(),
    ensures
        utf8_len(s.take(k)) <= utf8_len(s),
    decreases s.len() - k,
{
    if k < s.len() {
        lemma_utf8_len_grows(s, k + 1);
        assert(s.take(k + 1).drop_last() =~= s.take(k));
    } else {
        assert(s.take(k) =~= s);
    }
}

proof fn lemma_utf8_len_concat(a: Seq<char>, b: Seq<char>)
    ensures
        utf8_len(a + b) == utf8_len(a) + utf8_len(b),
    decreases b.len(),
{
    if b.len() > 0 {
        lemma_utf8_len_concat(a, b.drop_last());
        assert((a + b).drop_last() =~= a + b.drop_last());
    } else {
        assert(a + b =~= a);
    }
}

proof fn lemma_prefix_within_fits(s: Seq<char>, max: nat)
    ensures
        utf8_len(prefix_within(s, max)) <= max,
    decreases s.len(),
{
    if utf8_len(s) > max && s.len() > 0 {
        lemma_prefix_within_fits(s.drop_last(), max);
    }
}

/// A truncated payload, marker included, takes at most `max` bytes whenever
/// `max` leaves room for the marker.
pub proof fn lemma_truncated_fits(text: Seq<char>, max: nat)
    requires
        max >= 16,
    ensures
        utf8_len(truncated(text, max)) <= max,
{
    if utf8_len(text) > max {
        let p = prefix_within(text, (max - 16) as nat);
        lemma_prefix_within_fits(text, (max - 16) as nat);
        lemma_utf8_len_concat(p, truncation_marker());
        reveal_strlit("\n... (truncated)");
        reveal_with_fuel(utf8_len, 17);
        assert(utf8_len(truncation_marker()) == 16);
    }
}

/// Prints requests and responses in full when verbose mode is on.
pub struct DebugLogger {
    pub config: DebugLoggerConfig,
}

impl DebugLogger {
    /// A logger with the given settings.
    pub fn new(config: DebugLoggerConfig) -> (r: DebugLogger)
        ensures
            r.config == config,
    {
        DebugLogger { config }
    }

    /// A logger with the default settings.
    pub fn with_defaults() -> (r: DebugLogger)
        ensures
            r.config.color_output,
            r.config.max_payload_size == 4096,
            r.config.truncate_large_payloads,
    {
        DebugLogger::new(DebugLoggerConfig::default())
    }

    /// `text` cut, on a character boundary, so that with the marker
    /// `... (truncated)` it takes at most `max_size` bytes; unchanged when it
    /// already fits.
    pub fn truncate(&self, text: &str, max_size: usize) -> (r: String)
        ensures
            r@ == truncated(text@, max_size as nat),
    {
        let cs = chars_of(text);
        let mut total: u128 = 0;
        let mut k: usize = 0;
        while k < cs.len()
            invariant
                k <= cs@.len(),
                cs@ == text@,
                total == utf8_len(text@.take(k as int)),
                total <= 4 * k,
            decreases cs@.len() - k,
        {
            assert(text@.take(k + 1).drop_last() =~= text@.take(k as int));
            total = total + char_width(cs[k]) as u128;
            k = k + 1;
        }
        assert(text@.take(cs@.len() as int) =~= text@);
        if total <= max_size as u128 {
            return String::from_str(text);
        }
        let available: usize = if max_size >= 16 { max_size - 16 } else { 0 };
        let mut used: u128 = 0;
        let mut j: usize = 0;
        let mut done = false;
        while j < cs.len() && !done
            invariant
                j <= cs@.len(),
                cs@ == text@,
                used == utf8_len(text@.take(j as int)),
                used <= available,
                done ==> j < cs@.len() && utf8_len(text@.take(j + 1)) > available,
            decreases cs@.len() - j + (if done { 0int } else { 1int }),
        {
            let w = char_width(cs[j]);
            assert(text@.take(j + 1).drop_last() =~= text@.take(j as int));
            if used + w as u128 > available as u128 {
                done = true;
            } else {
                used = used + w as u128;
                j = j + 1;
            }
        }
        proof {
            lemma_prefix_within(text@, available as nat, j as int);
        }
        let mut out = String::new();
        let mut i: usize = 0;
        while i < j
            invariant
                i <= j <= cs@.len(),
                cs@ == text@,
                out@ == text@.take(i as int),
            decreases j - i,
        {
            push_char(&mut out, cs[i]);
            assert(text@.take(i + 1) =~= text@.take(i as int).push(cs@[i as int]));
            i = i + 1;
        }
        push_str(&mut out, "\n... (truncated)");
        out
    }

    /// Whether the payload text `text` is printed whole, or cut to the
    /// configured size.
    pub fn format_payload(&self, text: &str) -> (r: String)
        ensures
            r@ == (if self.config.truncate_large_payloads && utf8_len(text@) > self.config.max_payload_size {
                truncated(text@, self.config.max_payload_size as nat)
            } else {
                text@
            }),
    {
        if self.config.truncate_large_payloads {
            self.truncate(text, self.config.max_payload_size)
        } else {
            String::from_str(text)
        }
    }

    /// The separator line: seventy `━`.
    pub fn make_separator(&self) -> (r: String)
        ensures
            r@ == Seq::new(70, |i: int| '━'),
    {
        let mut out = String::new();
        let mut i: usize = 0;
        while i < 70
            invariant
                i <= 70,
                out@ == Seq::new(i as nat, |k: int| '━'),
            decreases 70 - i,
        {
            push_char(&mut out, '━');
            assert(out@ =~= Seq::new((i + 1) as nat, |k: int| '━'));
            i = i + 1;
        }
        out
    }
}

} // verus!
