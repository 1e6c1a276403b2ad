//! MACD over fixed-point closes.
//!
//! Every division rounds toward negative infinity, so each value is an
//! exact function of the input integers.

use vstd::prelude::*;
use vstd::arithmetic::div_mod::lemma_div_is_ordered;
use vstd::arithmetic::div_mod::lemma_div_multiples_vanish;
use vstd::arithmetic::div_mod::lemma_fundamental_div_mod;
use crate::fixed::PRICE_LIMIT;
use crate::fixed::div_floor;
use crate::fixed::greater;
use crate::fixed::lesser;
use crate::fixed::magnitude;
use crate::kline::Kline;

verus! {

/// Periods of the three moving averages.
#[derive(Debug, Clone, Copy, PartialEq, Eq, Structural)]
pub struct MACDConfig {
    /// Period of the fast average.
    pub fast_period: usize,
    /// Period of the slow average.
    pub slow_period: usize,
    /// Period of the signal average.
    pub signal_period: usize,
}

impl Default for MACDConfig {
    fn default() -> (c: Self)
        ensures
            c == (MACDConfig { fast_period: 12, slow_period: 26, signal_period: 9 }),
    {
        MACDConfig { fast_period: 12, slow_period: 26, signal_period: 9 }
    }
}

/// MACD line, signal line and their difference at one candle.
#[derive(Debug, Clone, Copy, PartialEq, Eq, Structural)]
pub struct MACDValue {
    /// Fast average minus slow average.
    pub macd_line: i64,
    /// Average of the MACD line.
    pub signal_line: i64,
    /// MACD line minus signal line.
    pub histogram: i64,
}

impl MACDValue {
    /// The histogram is the difference of the two lines.
    pub open spec fn consistent(&self) -> bool {
        self.histogram == self.macd_line - self.signal_line
    }

    /// Builds a value from the two lines.
    pub fn new(macd_line: i64, signal_line: i64) -> (v: Self)
        requires
            i64::MIN <= macd_line - signal_line <= i64::MAX,
        ensures
            v.macd_line == macd_line,
            v.signal_line == signal_line,
            v.histogram == macd_line - signal_line,
    {
        MACDValue { macd_line, signal_line, histogram: macd_line - signal_line }
    }
}

/// The integers of `s`, as mathematical integers.
pub open spec fn widen(s: Seq<i64>) -> Seq<int> {
    Seq::new(s.len(), |i: int| s[i] as int)
}

/// Sum of the first `n` elements of `s`.
pub open spec fn prefix_sum(s: Seq<int>, n: int) -> int
    decreases n,
{
    if n <= 0 {
        0
    } else {
        prefix_sum(s, n - 1) + s[n - 1]
    }
}

/// One step of the exponential average with smoothing `2 / (period + 1)`.
pub open spec fn ema_next(prev: int, x: int, period: int) -> int {
    prev + ((x - prev) * 2) / (period + 1)
}

/// The exponential average of `data` at index `i`: the mean of the first
/// `period` elements up to index `period - 1`, the recurrence after it.
pub open spec fn ema_at(data: Seq<int>, period: int, i: int) -> int
    decreases i,
{
    if period < 1 || i < period {
        prefix_sum(data, period) / period
    } else {
        ema_next(ema_at(data, period, i - 1), data[i], period)
    }
}

/// Whether an average of `period` can be taken over `n` elements.
pub open spec fn period_fits(period: int, n: int) -> bool {
    1 <= period <= n
}

/// The closes of a candle sequence.
pub open spec fn closes_of(klines: Seq<Kline>) -> Seq<int> {
    Seq::new(klines.len(), |i: int| klines[i].close as int)
}

/// Fast average minus slow average, index by index.
pub open spec fn macd_line_of(closes: Seq<int>, config: MACDConfig) -> Seq<int> {
    Seq::new(
        closes.len(),
        |i: int|
            ema_at(closes, config.fast_period as int, i) - ema_at(
                closes,
                config.slow_period as int,
                i,
            ),
    )
}

/// Signal line at index `i`.
pub open spec fn signal_at(closes: Seq<int>, config: MACDConfig, i: int) -> int {
    ema_at(macd_line_of(closes, config), config.signal_period as int, i)
}

/// Whether all three averages can be taken over `n` closes.
pub open spec fn macd_defined(config: MACDConfig, n: int) -> bool {
    &&& period_fits(config.fast_period as int, n)
    &&& period_fits(config.slow_period as int, n)
    &&& period_fits(config.signal_period as int, n)
}

/// What `calculate` returns for the given closes: nothing where an average
/// cannot be taken, else one value per close.
pub open spec fn macd_matches(closes: Seq<int>, config: MACDConfig, out: Seq<MACDValue>) -> bool {
    if macd_defined(config, closes.len() as int) {
        &&& out.len() == closes.len()
        &&& forall|i: int|
            0 <= i < out.len() ==> {
                &&& (#[trigger] out[i]).macd_line == macd_line_of(closes, config)[i]
                &&& out[i].signal_line == signal_at(closes, config, i)
                &&& out[i].histogram == out[i].macd_line - out[i].signal_line
            }
    } else {
        out.len() == 0
    }
}

/// The MACD value at index `i`.
pub open spec fn macd_value_at(closes: Seq<int>, config: MACDConfig, i: int) -> MACDValue {
    let m = macd_line_of(closes, config)[i];
    let s = signal_at(closes, config, i);
    MACDValue { macd_line: m as i64, signal_line: s as i64, histogram: (m - s) as i64 }
}

/// The MACD values of the given closes.
pub open spec fn macd_values_of(closes: Seq<int>, config: MACDConfig) -> Seq<MACDValue> {
    if macd_defined(config, closes.len() as int) {
        Seq::new(closes.len(), |i: int| macd_value_at(closes, config, i))
    } else {
        Seq::empty()
    }
}

/// Sum of the histogram magnitudes over `[start, end)`.
pub open spec fn area_of(values: Seq<MACDValue>, start: int, end: int) -> int
    decreases end - start,
{
    if start >= end {
        0
    } else {
        area_of(values, start, end - 1) + magnitude(values[end - 1].histogram as int)
    }
}

/// A sum of `n` elements that all lie in `[lo, hi]` lies in `[n * lo, n * hi]`.
pub proof fn lemma_prefix_sum_bounded(s: Seq<int>, n: int, lo: int, hi: int)
    requires
        0 <= n <= s.len(),
        forall|j: int| 0 <= j < n ==> lo <= #[trigger] s[j] <= hi,
    ensures
        n * lo <= prefix_sum(s, n) <= n * hi,
    decreases n,
{
    if n > 0 {
        lemma_prefix_sum_bounded(s, n - 1, lo, hi);
        assert(n * lo == (n - 1) * lo + lo) by (nonlinear_arith);
        assert(n * hi == (n - 1) * hi + hi) by (nonlinear_arith);
    } else {
        assert(n * lo == 0) by (nonlinear_arith)
            requires
                n == 0,
        ;
        assert(n * hi == 0) by (nonlinear_arith)
            requires
                n == 0,
        ;
    }
}

/// A step of the average lands between the previous average and the new
/// element.
pub proof fn lemma_ema_next_between(prev: int, x: int, period: int)
    requires
        period >= 1,
    ensures
        lesser(prev, x) <= ema_next(prev, x, period) <= greater(prev, x),
{
    let d = x - prev;
    let m = period + 1;
    let q = (d * 2) / m;
    let r = (d * 2) % m;
    lemma_fundamental_div_mod(d * 2, m);
    assert(0 <= r < m);
    if d >= 0 {
        assert(0 <= q <= d) by (nonlinear_arith)
            requires
                d * 2 == m * q + r,
                0 <= r < m,
                m >= 2,
                d >= 0,
        ;
    } else {
        assert(d <= q <= 0) by (nonlinear_arith)
            requires
                d * 2 == m * q + r,
                0 <= r < m,
                m >= 2,
                d < 0,
        ;
    }
}

/// The average of elements that all lie in `[lo, hi]` lies in `[lo, hi]`.
pub proof fn lemma_ema_bounded(data: Seq<int>, period: int, i: int, lo: int, hi: int)
    requires
        period_fits(period, data.len() as int),
        0 <= i < data.len(),
        forall|j: int| 0 <= j < data.len() ==> lo <= #[trigger] data[j] <= hi,
    ensures
        lo <= ema_at(data, period, i) <= hi,
    decreases i,
{
    if i < period {
        lemma_prefix_sum_bounded(data, period, lo, hi);
        let sum = prefix_sum(data, period);
        lemma_div_is_ordered(period * lo, sum, period);
        lemma_div_is_ordered(sum, period * hi, period);
        lemma_div_multiples_vanish(lo, period);
        lemma_div_multiples_vanish(hi, period);
    } else {
        lemma_ema_bounded(data, period, i - 1, lo, hi);
        lemma_ema_next_between(ema_at(data, period, i - 1), data[i], period);
    }
}

/// Computes MACD values with fixed periods.
#[derive(Debug, Clone, Copy)]
pub struct MACDCalculator {
    config: MACDConfig,
}

impl MACDCalculator {
    /// The periods this calculator uses.
    pub closed spec fn config(&self) -> MACDConfig {
        self.config
    }

    /// A calculator with the given periods.
    pub fn new(config: MACDConfig) -> (c: Self)
        ensures
            c.config() == config,
    {
        MACDCalculator { config }
    }

    /// A calculator with periods 12, 26 and 9.
    pub fn with_defaults() -> (c: Self)
        ensures
            c.config() == (MACDConfig { fast_period: 12, slow_period: 26, signal_period: 9 }),
    {
        MACDCalculator { config: MACDConfig { fast_period: 12, slow_period: 26, signal_period: 9 } }
    }

    /// The periods this calculator uses.
    pub fn get_config(&self) -> (c: MACDConfig)
        ensures
            c == self.config(),
    {
        self.config
    }

    /// Exponential average of `data`, one value per element; empty where
    /// `period` is zero or exceeds the number of elements.
    pub fn calculate_ema(&self, data: &[i64], period: usize) -> (out: Vec<i64>)
        ensures
            period_fits(period as int, data@.len() as int) ==> out@.len() == data@.len(),
            !period_fits(period as int, data@.len() as int) ==> out@.len() == 0,
            forall|i: int|
                0 <= i < out@.len() ==> #[trigger] out@[i] == ema_at(widen(data@), period as int, i),
    {
        let n = data.len();
        if period == 0 || period > n {
            return Vec::new();
        }
        let ghost wide = widen(data@);
        let mut sum: i128 = 0;
        let mut j: usize = 0;
        while j < period
            invariant
                j <= period <= n,
                n == data@.len(),
                wide == widen(data@),
                sum == prefix_sum(wide, j as int),
                j * (i64::MIN as int) <= sum <= j * (i64::MAX as int),
            decreases period - j,
        {
            proof {
                lemma_prefix_sum_bounded(wide, j + 1, i64::MIN as int, i64::MAX as int);
                lemma_prefix_sum_bounded(wide, j as int, i64::MIN as int, i64::MAX as int);
                assert(wide[j as int] == data@[j as int]);
                assert((j + 1) * (i64::MIN as int) >= i128::MIN) by (nonlinear_arith)
                    requires
                        1 <= j + 1 <= 0xffff_ffff_ffff_ffff,
                ;
                assert((j + 1) * (i64::MAX as int) <= i128::MAX) by (nonlinear_arith)
                    requires
                        1 <= j + 1 <= 0xffff_ffff_ffff_ffff,
                ;
            }
            sum = sum + data[j] as i128;
            j = j + 1;
        }
        proof {
            lemma_ema_bounded(wide, period as int, 0, i64::MIN as int, i64::MAX as int);
            assert(sum > i128::MIN) by (nonlinear_arith)
                requires
                    j * (i64::MIN as int) <= sum,
                    0 <= j <= 0xffff_ffff_ffff_ffff,
            ;
        }
        let sma: i64 = div_floor(sum, period as i128) as i64;
        let mut out: Vec<i64> = Vec::new();
        let mut i: usize = 0;
        while i < period
            invariant
                i <= period <= n,
                out@.len() == i,
                sma == ema_at(wide, period as int, 0),
                forall|k: int| 0 <= k < i ==> #[trigger] out@[k] == ema_at(wide, period as int, k),
            decreases period - i,
        {
            out.push(sma);
            i = i + 1;
        }
        while i < n
            invariant
                1 <= period <= i <= n,
                n == data@.len(),
                wide == widen(data@),
                out@.len() == i,
                forall|k: int| 0 <= k < i ==> #[trigger] out@[k] == ema_at(wide, period as int, k),
            decreases n - i,
        {
            let prev: i64 = out[i - 1];
            let d: i128 = data[i] as i128 - prev as i128;
            let step: i128 = div_floor(d * 2, period as i128 + 1);
            proof {
                lemma_ema_next_between(prev as int, data@[i as int] as int, period as int);
                assert(wide[i as int] == data@[i as int]);
                assert(ema_at(wide, period as int, i as int) == ema_next(
                    ema_at(wide, period as int, i - 1),
                    wide[i as int],
                    period as int,
                ));
            }
            let cur: i64 = (prev as i128 + step) as i64;
            out.push(cur);
            i = i + 1;
        }
        out
    }

    /// MACD of `closes`, one value per close. Indices below the longest
    /// period minus one hold warm-up values. Empty where a period is zero
    /// or there are fewer closes than a period asks for.
    pub fn calculate_from_closes(&self, closes: &[i64]) -> (out: Vec<MACDValue>)
        requires
            forall|i: int| 0 <= i < closes@.len() ==> Kline::price_in_range(#[trigger] closes@[i]),
        ensures
            out@ == macd_values_of(widen(closes@), self.config()),
            macd_matches(widen(closes@), self.config(), out@),
            forall|i: int| 0 <= i < out@.len() ==> (#[trigger] out@[i]).consistent(),
    {
        let n = closes.len();
        let cfg = self.config;
        let ghost wide = widen(closes@);
        if cfg.fast_period == 0 || cfg.fast_period > n || cfg.slow_period == 0 || cfg.slow_period
            > n || cfg.signal_period == 0 || cfg.signal_period > n {
            let none: Vec<MACDValue> = Vec::new();
            assert(none@ =~= macd_values_of(wide, cfg));
            return none;
        }
        let fast = self.calculate_ema(closes, cfg.fast_period);
        let slow = self.calculate_ema(closes, cfg.slow_period);
        let ghost line = macd_line_of(wide, cfg);
        let mut macd_line: Vec<i64> = Vec::new();
        let mut i: usize = 0;
        while i < n
            invariant
                i <= n,
                n == closes@.len(),
                n == wide.len(),
                wide == widen(closes@),
                line == macd_line_of(wide, cfg),
                period_fits(cfg.fast_period as int, n as int),
                period_fits(cfg.slow_period as int, n as int),
                forall|k: int| 0 <= k < closes@.len() ==> Kline::price_in_range(#[trigger] closes@[k]),
                fast@.len() == n,
                slow@.len() == n,
                forall|k: int| 0 <= k < n ==> #[trigger] fast@[k] == ema_at(wide, cfg.fast_period as int, k),
                forall|k: int| 0 <= k < n ==> #[trigger] slow@[k] == ema_at(wide, cfg.slow_period as int, k),
                macd_line@.len() == i,
                forall|k: int| 0 <= k < i ==> #[trigger] macd_line@[k] == line[k],
                forall|k: int| 0 <= k < i ==> -2 * PRICE_LIMIT <= #[trigger] macd_line@[k] <= 2 * PRICE_LIMIT,
            decreases n - i,
        {
            proof {
                assert forall|j: int| 0 <= j < wide.len() implies -PRICE_LIMIT <= #[trigger] wide[j]
                    <= PRICE_LIMIT by {
                    assert(Kline::price_in_range(closes@[j]));
                }
                lemma_ema_bounded(
                    wide,
                    cfg.fast_period as int,
                    i as int,
                    -PRICE_LIMIT as int,
                    PRICE_LIMIT as int,
                );
                lemma_ema_bounded(
                    wide,
                    cfg.slow_period as int,
                    i as int,
                    -PRICE_LIMIT as int,
                    PRICE_LIMIT as int,
                );
            }
            macd_line.push(fast[i] - slow[i]);
            i = i + 1;
        }
        assert(widen(macd_line@) =~= line);
        let signal = self.calculate_ema(macd_line.as_slice(), cfg.signal_period);
        let mut out: Vec<MACDValue> = Vec::new();
        i = 0;
        while i < n
            invariant
                i <= n,
                n == line.len(),
                line == macd_line_of(wide, cfg),
                line == widen(macd_line@),
                period_fits(cfg.signal_period as int, n as int),
                macd_line@.len() == n,
                signal@.len() == n,
                forall|k: int| 0 <= k < n ==> -2 * PRICE_LIMIT <= #[trigger] macd_line@[k] <= 2 * PRICE_LIMIT,
                forall|k: int|
                    0 <= k < n ==> #[trigger] signal@[k] == ema_at(line, cfg.signal_period as int, k),
                out@.len() == i,
                forall|k: int|
                    0 <= k < i ==> {
                        &&& (#[trigger] out@[k]).macd_line == line[k]
                        &&& out@[k].signal_line == signal_at(wide, cfg, k)
                        &&& out@[k].histogram == out@[k].macd_line - out@[k].signal_line
                    },
            decreases n - i,
        {
            proof {
                assert forall|j: int| 0 <= j < line.len() implies -2 * PRICE_LIMIT <= #[trigger] line[j]
                    <= 2 * PRICE_LIMIT by {
                    assert(line[j] == macd_line@[j]);
                }
                lemma_ema_bounded(
                    line,
                    cfg.signal_period as int,
                    i as int,
                    -2 * PRICE_LIMIT,
                    2 * PRICE_LIMIT,
                );
                assert(line[i as int] == macd_line@[i as int]);
            }
            out.push(MACDValue::new(macd_line[i], signal[i]));
            i = i + 1;
        }
        assert(out@ =~= macd_values_of(wide, cfg));
        out
    }

    /// MACD of the closes of `klines`, one value per candle.
    pub fn calculate(&self, klines: &[Kline]) -> (out: Vec<MACDValue>)
        requires
            forall|i: int| 0 <= i < klines@.len() ==> Kline::price_in_range(#[trigger] klines@[i].close),
        ensures
            out@ == macd_values_of(closes_of(klines@), self.config()),
            macd_matches(closes_of(klines@), self.config(), out@),
            forall|i: int| 0 <= i < out@.len() ==> (#[trigger] out@[i]).consistent(),
    {
        let n = klines.len();
        let mut closes: Vec<i64> = Vec::new();
        let mut i: usize = 0;
        while i < n
            invariant
                i <= n,
                n == klines@.len(),
                closes@.len() == i,
                forall|k: int| 0 <= k < i ==> #[trigger] closes@[k] == klines@[k].close,
            decreases n - i,
        {
            closes.push(klines[i].close);
            i = i + 1;
        }
        assert(widen(closes@) =~= closes_of(klines@));
        assert forall|k: int| 0 <= k < closes@.len() implies Kline::price_in_range(
            #[trigger] closes@[k],
        ) by {
            assert(Kline::price_in_range(klines@[k].close));
        }
        self.calculate_from_closes(closes.as_slice())
    }

    /// Sum of the histogram magnitudes over `[start, end)`; zero where the
    /// range is empty or reaches past the values.
    pub fn calculate_area(&self, macd_values: &[MACDValue], start: usize, end: usize) -> (area: u128)
        ensures
            start < end <= macd_values@.len() ==> area == area_of(macd_values@, start as int, end as int),
            !(start < end <= macd_values@.len()) ==> area == 0,
    {
        if start >= end || end > macd_values.len() {
            return 0;
        }
        let mut area: u128 = 0;
        let mut i: usize = start;
        while i < end
            invariant
                start <= i <= end <= macd_values@.len(),
                area == area_of(macd_values@, start as int, i as int),
                area <= (i - start) * 0x8000_0000_0000_0000,
            decreases end - i,
        {
            let h = crate::fixed::abs_diff(macd_values[i].histogram, 0);
            proof {
                assert((i - start) * 0x8000_0000_0000_0000 + 0x8000_0000_0000_0000 == (i + 1 - start)
                    * 0x8000_0000_0000_0000) by (nonlinear_arith);
                assert((i + 1 - start) * 0x8000_0000_0000_0000 <= u128::MAX) by (nonlinear_arith)
                    requires
                        0 <= i + 1 - start <= 0xffff_ffff_ffff_ffff,
                ;
            }
            area = area + h as u128;
            i = i + 1;
        }
        area
    }

    /// Whether the price made a lower low from `a` to `b` while the
    /// histogram made a higher low. False where an index is out of range.
    pub fn is_bullish_divergence(
        &self,
        macd_values: &[MACDValue],
        price_low_a: i64,
        price_low_b: i64,
        macd_idx_a: usize,
        macd_idx_b: usize,
    ) -> (b: bool)
        ensures
            b == (price_low_b < price_low_a && macd_idx_a < macd_values@.len() && macd_idx_b
                < macd_values@.len() && macd_values@[macd_idx_b as int].histogram
                > macd_values@[macd_idx_a as int].histogram),
    {
        if price_low_b >= price_low_a {
            return false;
        }
        if macd_idx_b >= macd_values.len() || macd_idx_a >= macd_values.len() {
            return false;
        }
        macd_values[macd_idx_b].histogram > macd_values[macd_idx_a].histogram
    }

    /// Whether the price made a higher high from `a` to `b` while the
    /// histogram made a lower high. False where an index is out of range.
    pub fn is_bearish_divergence(
        &self,
        macd_values: &[MACDValue],
        price_high_a: i64,
        price_high_b: i64,
        macd_idx_a: usize,
        macd_idx_b: usize,
    ) -> (b: bool)
        ensures
            b == (price_high_b > price_high_a && macd_idx_a < macd_values@.len() && macd_idx_b
                < macd_values@.len() && macd_values@[macd_idx_b as int].histogram
                < macd_values@[macd_idx_a as int].histogram),
    {
        if price_high_b <= price_high_a {
            return false;
        }
        if macd_idx_b >= macd_values.len() || macd_idx_a >= macd_values.len() {
            return false;
        }
        macd_values[macd_idx_b].histogram < macd_values[macd_idx_a].histogram
    }
}

} // verus!
