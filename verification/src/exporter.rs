//! The computational core of the exporters: content-type selection,
//! scrape-body composition, and the decisions of the push-gateway loop.
//! The I/O around these functions (sockets, HTTP, timers) lives outside
//! the library and hands plain values in and out.

use vstd::prelude::*;
use vstd::string::StrSliceExecFns;

use crate::format::{open_metrics_content_type, prometheus_content_type, Format};
use crate::text::push_char;

verus! {

/// Minimum interval between error logs of the push loop, in
/// milliseconds. Prevents flooding the log when the remote endpoint
/// fails persistently and the push interval is low.
pub const ERROR_LOG_INTERVAL_MS: u64 = 60_000;

/// The content type reported for a scrape response in the given format.
pub fn scrape_content_type(format: Format) -> (r: &'static str)
    ensures
        format == Format::Prometheus ==> r@ == "text/plain; version=0.0.4; charset=utf-8"@,
        format != Format::Prometheus ==> r@
            == "application/openmetrics-text; version=1.0.0; charset=utf-8"@,
{
    match format {
        Format::Prometheus => prometheus_content_type(),
        _ => open_metrics_content_type(),
    }
}

/// The content type sent with pushes to a gateway: always the strict
/// format's content type, whatever format the body uses.
pub fn push_content_type() -> (r: &'static str)
    ensures
        r@ == "application/openmetrics-text; version=1.0.0; charset=utf-8"@,
{
    open_metrics_content_type()
}

/// Index of the first newline from position `i` on.
pub open spec fn spec_find_nl(s: Seq<char>, i: int) -> Option<int>
    decreases s.len() - i,
    when 0 <= i
{
    if i >= s.len() {
        None
    } else if s[i] == '\n' {
        Some(i)
    } else {
        spec_find_nl(s, i + 1)
    }
}

/// The text with every blank line removed; a non-empty final line
/// without a newline is kept.
pub open spec fn spec_strip_blank_lines(text: Seq<char>) -> Seq<char>
    decreases text.len(),
{
    match spec_find_nl(text, 0) {
        None => text,
        Some(j) => {
            // The found index is always in range; the bound is restated
            // here so that the recursion visibly terminates.
            if 0 <= j < text.len() {
                let line = text.take(j);
                let rest = text.skip(j + 1);
                (if j == 0 {
                    Seq::<char>::empty()
                } else {
                    line + seq!['\n']
                }) + spec_strip_blank_lines(rest)
            } else {
                text
            }
        },
    }
}

/// A sequence with a newline at `p` and none before starts its first
/// line there.
proof fn lemma_find_nl_first(s: Seq<char>, p: int, i: int)
    requires
        0 <= i <= p < s.len(),
        s[p] == '\n',
        forall|k: int| 0 <= k < p ==> s[k] != '\n',
    ensures
        spec_find_nl(s, i) == Some(p),
    decreases p - i,
{
    if i < p {
        lemma_find_nl_first(s, p, i + 1);
    }
}

/// A sequence without newlines has none to find.
proof fn lemma_find_nl_none(s: Seq<char>, i: int)
    requires
        0 <= i,
        forall|k: int| 0 <= k < s.len() ==> s[k] != '\n',
    ensures
        spec_find_nl(s, i) is None,
    decreases s.len() - i,
{
    if i < s.len() {
        lemma_find_nl_none(s, i + 1);
    }
}

/// Strips blank lines from `text`, appending the result to `out`.
pub fn append_stripped_blank_lines(out: &mut String, text: &str)
    ensures
        final(out)@ == old(out)@ + spec_strip_blank_lines(text@),
{
    let n = text.unicode_len();
    let mut line = String::new();
    let mut i: usize = 0;
    proof {
        assert(text@.skip(0) =~= text@);
        assert(Seq::<char>::empty() + text@ =~= text@);
    }
    while i < n
        invariant
            n == text@.len(),
            0 <= i <= n,
            forall|k: int| 0 <= k < line@.len() ==> line@[k] != '\n',
            old(out)@ + spec_strip_blank_lines(text@) == out@ + spec_strip_blank_lines(
                line@ + text@.skip(i as int),
            ),
        decreases n - i,
    {
        let ghost line0 = line@;
        let c = text.get_char(i);
        proof {
            assert((line@ + text@.skip(i as int))[line@.len() as int] == c);
        }
        if c == '\n' {
            proof {
                let whole = line@ + text@.skip(i as int);
                lemma_find_nl_first(whole, line@.len() as int, 0);
                assert(whole.take(line@.len() as int) =~= line@);
                assert(whole.skip(line@.len() as int + 1) =~= text@.skip(i + 1));
            }
            if line.as_str().unicode_len() > 0 {
                out.append(line.as_str());
                out.append("\n");
                line = String::new();
                proof {
                    reveal_strlit("\n");
                    assert("\n"@ =~= seq!['\n']);
                    assert(line@ + text@.skip(i + 1) =~= text@.skip(i + 1));
                    assert(old(out)@ + spec_strip_blank_lines(text@) =~= out@
                        + spec_strip_blank_lines(line@ + text@.skip(i + 1)));
                }
            } else {
                proof {
                    assert(line@ + text@.skip(i + 1) =~= text@.skip(i + 1));
                    assert(old(out)@ + spec_strip_blank_lines(text@) =~= out@
                        + spec_strip_blank_lines(line@ + text@.skip(i + 1)));
                }
            }
        } else {
            push_char(&mut line, c);
            proof {
                assert(line@ + text@.skip(i + 1) =~= line0 + text@.skip(i as int));
            }
        }
        i += 1;
    }
    proof {
        assert(line@ + text@.skip(n as int) =~= line@);
        lemma_find_nl_none(line@, 0);
        assert(spec_strip_blank_lines(line@) == line@);
    }
    out.append(line.as_str());
}

/// Composes the body of one scrape response: the already rendered text
/// of a legacy metrics facade, if any, stripped of blank lines, followed
/// by this library's own encoded text.
pub fn compose_scrape_body(legacy: Option<&str>, own: &str) -> (r: String)
    ensures
        match legacy {
            Some(l) => r@ == spec_strip_blank_lines(l@) + own@,
            None => r@ == own@,
        },
{
    let mut out = String::new();
    match legacy {
        Some(l) => {
            append_stripped_blank_lines(&mut out, l);
        },
        None => {},
    }
    out.append(own);
    out
}

/// The outcome of one push to the gateway.
#[derive(Debug, Clone, Copy, PartialEq, Eq, Structural)]
pub enum PushOutcome {
    /// The gateway answered with a success status.
    Success,
    /// The gateway answered with a non-success status.
    ErrorStatus,
    /// The request failed in transport.
    TransportError,
}

/// Whether the push loop performs another round after an outcome: it
/// continues unless shutdown was requested - a failed push never stops
/// the loop.
pub fn push_loop_continues(outcome: PushOutcome, shutdown_requested: bool) -> (r: bool)
    ensures
        r == !shutdown_requested,
{
    !shutdown_requested
}

/// Rate limiter shared by all error logs of the push loop: after a
/// message is logged, further messages within the minimum interval are
/// suppressed.
pub struct ErrorLogRateLimiter {
    /// Timestamp of the last logged message, in milliseconds.
    pub last_log_ms: Option<u64>,
    /// Minimum interval between logged messages, in milliseconds.
    pub min_interval_ms: u64,
}

/// Whether a failure at `now_ms` is logged in state `st`.
pub open spec fn spec_should_log(st: ErrorLogRateLimiter, now_ms: u64) -> bool {
    match st.last_log_ms {
        None => true,
        Some(t) => now_ms >= t && now_ms - t >= st.min_interval_ms,
    }
}

impl ErrorLogRateLimiter {
    /// A limiter that will log the first failure immediately.
    pub fn new(min_interval_ms: u64) -> (r: Self)
        ensures
            r.last_log_ms is None,
            r.min_interval_ms == min_interval_ms,
    {
        ErrorLogRateLimiter { last_log_ms: None, min_interval_ms }
    }

    /// Decides whether a failure observed at `now_ms` is logged, and
    /// records the timestamp when it is.
    pub fn should_log(&mut self, now_ms: u64) -> (r: bool)
        ensures
            r == spec_should_log(*old(self), now_ms),
            final(self).min_interval_ms == old(self).min_interval_ms,
            final(self).last_log_ms == if r {
                Some(now_ms)
            } else {
                old(self).last_log_ms
            },
    {
        let log = match self.last_log_ms {
            None => true,
            Some(t) => now_ms >= t && now_ms - t >= self.min_interval_ms,
        };
        if log {
            self.last_log_ms = Some(now_ms);
        }
        log
    }
}

/// After a failure is logged, every further failure within the minimum
/// interval is suppressed: at most one message is logged per interval,
/// however many failures occur.
pub proof fn lemma_error_logs_rate_limited(
    st: ErrorLogRateLimiter,
    logged_at: u64,
    later: u64,
)
    requires
        st.last_log_ms == Some(logged_at),
        later >= logged_at,
        later - logged_at < st.min_interval_ms,
    ensures
        !spec_should_log(st, later),
{
}

} // verus!
