//! Counters of processed candles, pens and segments, and of latency.

use vstd::prelude::*;
use std::time::Duration;
use std::time::Instant;
use crate::fixed::SCALE;

verus! {

/// A reading of the monotonic clock.
#[verifier::external_type_specification]
#[verifier::external_body]
pub struct ExInstant(std::time::Instant);

/// `std::time::Instant::now`: a reading of the monotonic clock. Nothing is
/// claimed of the reading.
#[verifier::external_body]
fn clock_reading() -> (now: Instant) {
    Instant::now()
}

/// `std::time::Instant::elapsed`: the time that has passed since the
/// reading `since`. Nothing is claimed of it.
#[verifier::external_body]
fn time_since(since: &Instant) -> (passed: Duration) {
    since.elapsed()
}

/// `std::time::Duration::as_secs`: the whole seconds of a duration. Nothing
/// is claimed of the number.
#[verifier::external_body]
fn whole_seconds(d: &Duration) -> (secs: u64) {
    d.as_secs()
}

/// `std::time::Duration::as_millis`: the whole milliseconds of a duration.
/// Nothing is claimed of the number.
#[verifier::external_body]
fn whole_millis(d: &Duration) -> (millis: u128) {
    d.as_millis()
}

/// A snapshot of the counters.
#[derive(Debug, Clone, Copy, PartialEq, Eq, Structural)]
pub struct TradingMetrics {
    /// Candles processed.
    pub klines_processed: u64,
    /// Pens identified.
    pub pens_identified: u64,
    /// Segments identified.
    pub segments_identified: u64,
    /// Mean latency in milliseconds, as a fixed-point value.
    pub avg_latency_ms: u64,
    /// Time of the snapshot, in milliseconds since the Unix epoch.
    pub last_update: i64,
    /// Seconds since the collector was started.
    pub uptime_secs: u64,
}

/// The counters of a collector, as mathematical values.
pub struct MetricsState {
    /// Candles processed.
    pub klines: u64,
    /// Pens identified.
    pub pens: u64,
    /// Segments identified.
    pub segments: u64,
    /// Sum of the latencies recorded, in milliseconds.
    pub total_latency_ms: u64,
    /// Number of latencies recorded.
    pub latency_count: u64,
    /// Errors recorded.
    pub errors: u32,
}

/// The sum `a + b` as a 64-bit counter holds it: counters wrap around.
pub open spec fn wrapped_sum(a: u64, b: int) -> u64 {
    ((a + b) % 0x1_0000_0000_0000_0000) as u64
}

/// The mean latency in fixed-point milliseconds, rounded down and capped
/// at the largest value a counter holds; zero where nothing was recorded.
pub open spec fn mean_latency(total: u64, count: u64) -> int {
    if count == 0 {
        0
    } else if (total * SCALE) / (count as int) > u64::MAX {
        u64::MAX as int
    } else {
        (total * SCALE) / (count as int)
    }
}

/// Collects counts of the work done.
#[derive(Debug, Clone, Copy)]
pub struct MetricsCollector {
    start_time: Instant,
    klines_processed: u64,
    pens_identified: u64,
    segments_identified: u64,
    total_latency_ms: u64,
    latency_count: u64,
    errors_count: u32,
}

impl Default for MetricsCollector {
    fn default() -> (c: Self)
        ensures
            c.state() == (MetricsState {
                klines: 0,
                pens: 0,
                segments: 0,
                total_latency_ms: 0,
                latency_count: 0,
                errors: 0,
            }),
    {
        MetricsCollector::new()
    }
}

impl MetricsCollector {
    /// The counters.
    pub closed spec fn state(&self) -> MetricsState {
        MetricsState {
            klines: self.klines_processed,
            pens: self.pens_identified,
            segments: self.segments_identified,
            total_latency_ms: self.total_latency_ms,
            latency_count: self.latency_count,
            errors: self.errors_count,
        }
    }

    /// The snapshot of the counters `state` with the given time stamps.
    pub open spec fn snapshot(state: MetricsState, now_ms: i64, uptime_secs: u64) -> TradingMetrics {
        TradingMetrics {
            klines_processed: state.klines,
            pens_identified: state.pens,
            segments_identified: state.segments,
            avg_latency_ms: mean_latency(state.total_latency_ms, state.latency_count) as u64,
            last_update: now_ms,
            uptime_secs,
        }
    }

    /// A collector with all counters at zero, started now.
    pub fn new() -> (c: Self)
        ensures
            c.state() == (MetricsState {
                klines: 0,
                pens: 0,
                segments: 0,
                total_latency_ms: 0,
                latency_count: 0,
                errors: 0,
            }),
    {
        MetricsCollector {
            start_time: clock_reading(),
            klines_processed: 0,
            pens_identified: 0,
            segments_identified: 0,
            total_latency_ms: 0,
            latency_count: 0,
            errors_count: 0,
        }
    }

    /// Counts `count` candles.
    pub fn record_klines(&mut self, count: usize)
        ensures
            final(self).state() == (MetricsState {
                klines: wrapped_sum(old(self).state().klines, count as int),
                ..old(self).state()
            }),
    {
        self.klines_processed = add_wrapping(self.klines_processed, count as u64);
    }

    /// Counts `count` pens.
    pub fn record_pens(&mut self, count: usize)
        ensures
            final(self).state() == (MetricsState {
                pens: wrapped_sum(old(self).state().pens, count as int),
                ..old(self).state()
            }),
    {
        self.pens_identified = add_wrapping(self.pens_identified, count as u64);
    }

    /// Counts `count` segments.
    pub fn record_segments(&mut self, count: usize)
        ensures
            final(self).state() == (MetricsState {
                segments: wrapped_sum(old(self).state().segments, count as int),
                ..old(self).state()
            }),
    {
        self.segments_identified = add_wrapping(self.segments_identified, count as u64);
    }

    /// Records one latency, in milliseconds.
    pub fn record_latency(&mut self, latency_ms: u64)
        ensures
            final(self).state() == (MetricsState {
                total_latency_ms: wrapped_sum(old(self).state().total_latency_ms, latency_ms as int),
                latency_count: wrapped_sum(old(self).state().latency_count, 1),
                ..old(self).state()
            }),
    {
        self.total_latency_ms = add_wrapping(self.total_latency_ms, latency_ms);
        self.latency_count = add_wrapping(self.latency_count, 1);
    }

    /// Counts one error.
    pub fn record_error(&mut self)
        ensures
            final(self).state() == (MetricsState {
                errors: if old(self).state().errors == u32::MAX {
                    0u32
                } else {
                    (old(self).state().errors + 1) as u32
                },
                ..old(self).state()
            }),
    {
        self.errors_count = if self.errors_count == u32::MAX {
            0
        } else {
            self.errors_count + 1
        };
    }

    /// A snapshot of the counters, stamped with the time `now_ms`, which the
    /// caller read from the wall clock, and with the seconds since the
    /// collector was started. The uptime is whatever the monotonic clock
    /// says; the rest is determined by the counters and `now_ms`.
    pub fn get_metrics(&self, now_ms: i64) -> (m: TradingMetrics)
        ensures
            m == Self::snapshot(self.state(), now_ms, m.uptime_secs),
    {
        let uptime = whole_seconds(&time_since(&self.start_time));
        self.get_metrics_at(now_ms, uptime)
    }

    /// A snapshot of the counters, stamped with the time `now_ms` and the
    /// uptime `uptime_secs`.
    pub fn get_metrics_at(&self, now_ms: i64, uptime_secs: u64) -> (m: TradingMetrics)
        ensures
            m == Self::snapshot(self.state(), now_ms, uptime_secs),
    {
        let avg: u64 = if self.latency_count > 0 {
            assert(self.total_latency_ms * SCALE <= 0xffff_ffff_ffff_ffff * 1_000_000)
                by (nonlinear_arith)
                requires
                    0 <= self.total_latency_ms <= 0xffff_ffff_ffff_ffff,
                    SCALE == 1_000_000,
            ;
            let q: u128 = (self.total_latency_ms as u128 * SCALE as u128) / (self.latency_count as u128);
            if q > u64::MAX as u128 {
                u64::MAX
            } else {
                q as u64
            }
        } else {
            0
        };
        TradingMetrics {
            klines_processed: self.klines_processed,
            pens_identified: self.pens_identified,
            segments_identified: self.segments_identified,
            avg_latency_ms: avg,
            last_update: now_ms,
            uptime_secs,
        }
    }

    /// Errors recorded.
    pub fn error_count(&self) -> (n: u32)
        ensures
            n == self.state().errors,
    {
        self.errors_count
    }

    /// Sets all counters to zero. The start of the collector stays.
    pub fn reset(&mut self)
        ensures
            final(self).state() == (MetricsState {
                klines: 0,
                pens: 0,
                segments: 0,
                total_latency_ms: 0,
                latency_count: 0,
                errors: 0,
            }),
    {
        self.klines_processed = 0;
        self.pens_identified = 0;
        self.segments_identified = 0;
        self.total_latency_ms = 0;
        self.latency_count = 0;
        self.errors_count = 0;
    }
}

/// Measures the time since it was started.
#[derive(Debug, Clone, Copy)]
pub struct LatencyTracker {
    start: Instant,
}

impl LatencyTracker {
    /// A tracker started now.
    pub fn start() -> (t: Self) {
        LatencyTracker { start: clock_reading() }
    }

    /// Milliseconds since the tracker was started, as far as 64 bits hold
    /// them.
    pub fn elapsed_ms(&self) -> (ms: u64) {
        let millis = whole_millis(&time_since(&self.start));
        Self::capped_millis(millis)
    }

    /// A count of milliseconds as 64 bits hold it: the count itself, or the
    /// largest 64-bit value where the count exceeds it.
    pub fn capped_millis(millis: u128) -> (ms: u64)
        ensures
            ms == (if millis > u64::MAX {
                u64::MAX as u128
            } else {
                millis
            }),
    {
        if millis > u64::MAX as u128 {
            u64::MAX
        } else {
            millis as u64
        }
    }
}

/// `a + b` on a counter that wraps around.
fn add_wrapping(a: u64, b: u64) -> (r: u64)
    ensures
        r == wrapped_sum(a, b as int),
{
    let sum: u128 = a as u128 + b as u128;
    if sum > u64::MAX as u128 {
        (sum - 0x1_0000_0000_0000_0000) as u64
    } else {
        sum as u64
    }
}

} // verus!
