//! Divergence between price extremes and MACD histogram extremes, at pen
//! level, at segment level, and where both levels agree.

use vstd::prelude::*;
use crate::fixed::SCALE;
use crate::fixed::clamp_unit;
use crate::fixed::magnitude;
use crate::fixed::unit_ratio;
use crate::indicators::MACDCalculator;
use crate::indicators::MACDConfig;
use crate::indicators::MACDValue;
use crate::indicators::closes_of;
use crate::indicators::macd_values_of;
use crate::kline::Kline;
use crate::pen::Pen;
use crate::pen::PenDirection;
use crate::pen::lemma_pens_ascend;
use crate::pen::pen_chain;
use crate::segment::lemma_segments_ascend;
use crate::segment::segments_sound;
use crate::segment::Segment;
use crate::segment::SegmentModel;
use crate::segment::segment_models;

verus! {

/// Which way a divergence points.
#[derive(Debug, Clone, Copy, PartialEq, Eq, Structural)]
pub enum DivergenceType {
    /// Lower low in price, higher low in the histogram.
    Bullish,
    /// Higher high in price, lower high in the histogram.
    Bearish,
}

/// The structural level at which a divergence was found.
#[derive(Debug, Clone, Copy, PartialEq, Eq, Structural)]
pub enum DivergenceLevel {
    /// Between two pens.
    Pen,
    /// Between two segments.
    Segment,
    /// At pen level and at segment level together.
    MultiLevel,
}

/// A divergence between two swings `a` and `b` of one direction.
#[derive(Debug, Clone, Copy, PartialEq, Eq, Structural)]
pub struct DivergenceSignal {
    /// Which way the divergence points.
    pub div_type: DivergenceType,
    /// The level at which it was found.
    pub level: DivergenceLevel,
    /// End price of the earlier swing.
    pub price_a: i64,
    /// End price of the later swing.
    pub price_b: i64,
    /// Histogram at the end of the earlier swing.
    pub macd_a: i64,
    /// Histogram at the end of the later swing.
    pub macd_b: i64,
    /// Position of the end of the later swing.
    pub index: usize,
    /// Strength, between `0` and `1.0`.
    pub strength: i64,
}

/// Strength of a divergence: the mean of the relative price change and of
/// the histogram change, each capped at `1.0`.
pub open spec fn strength_of(price_change: int, base_price: int, macd_change: int) -> int {
    (unit_ratio(magnitude(price_change), magnitude(base_price)) + clamp_unit(macd_change)) / 2
}

impl DivergenceSignal {
    /// Price and histogram moved against each other, in the sense of the
    /// type, and the strength lies between `0` and `1.0`.
    pub open spec fn well_formed(&self) -> bool {
        &&& 0 <= self.strength <= SCALE
        &&& self.div_type == DivergenceType::Bullish ==> self.price_b < self.price_a && self.macd_b
            > self.macd_a
        &&& self.div_type == DivergenceType::Bearish ==> self.price_b > self.price_a && self.macd_b
            < self.macd_a
    }

    /// The mean of a relative price change and of a histogram change, each
    /// taken by magnitude and capped at `1.0`.
    pub fn calculate_strength(price_change: i64, macd_change: i64) -> (s: i64)
        ensures
            s == (clamp_unit(price_change as int) + clamp_unit(macd_change as int)) / 2,
            0 <= s <= SCALE,
    {
        let price_factor = crate::fixed::clamp_to_unit(price_change as i128);
        let macd_factor = crate::fixed::clamp_to_unit(macd_change as i128);
        (price_factor + macd_factor) / 2
    }
}

/// Thresholds of the divergence detector.
#[derive(Debug, Clone, Copy, PartialEq, Eq, Structural)]
pub struct DivergenceConfig {
    /// Smallest price change in percent. The detector does not read it; it
    /// is carried along for callers that filter signals by it.
    pub min_price_change_pct: i64,
    /// Smallest histogram change that counts.
    pub min_macd_change: i64,
    /// Number of pens to look back over. The detector compares pens two
    /// apart and does not read it.
    pub lookback_pens: usize,
    /// Whether segment-level divergence is looked for.
    pub enable_segment_div: bool,
}

impl Default for DivergenceConfig {
    fn default() -> (c: Self)
        ensures
            c == (DivergenceConfig {
                min_price_change_pct: 500_000,
                min_macd_change: 10_000,
                lookback_pens: 5,
                enable_segment_div: true,
            }),
    {
        DivergenceConfig {
            min_price_change_pct: 500_000,
            min_macd_change: 10_000,
            lookback_pens: 5,
            enable_segment_div: true,
        }
    }
}

/// Histogram at `idx`, or at `idx - 1` where `idx` is one past the values.
pub open spec fn histogram_near(macd: Seq<MACDValue>, idx: int) -> Option<i64> {
    if 0 <= idx < macd.len() {
        Some(macd[idx].histogram)
    } else if 0 < idx && idx - 1 < macd.len() {
        Some(macd[idx - 1].histogram)
    } else {
        None
    }
}

/// Histogram at `idx`, where there is one.
pub open spec fn histogram_exact(macd: Seq<MACDValue>, idx: int) -> Option<i64> {
    if 0 <= idx < macd.len() {
        Some(macd[idx].histogram)
    } else {
        None
    }
}

/// The signal, if any, between two swings of direction `direction` that end
/// at `price_a` and `price_b` with histogram values `hist_a` and `hist_b`.
/// A rising pair diverges where the price rose and the histogram fell by
/// more than `eps`; a falling pair where the price fell and the histogram
/// rose by more than `eps`.
pub open spec fn signal_for(
    level: DivergenceLevel,
    direction: PenDirection,
    base_price: i64,
    price_a: i64,
    price_b: i64,
    hist_a: Option<i64>,
    hist_b: Option<i64>,
    index: usize,
    eps: i64,
) -> Option<DivergenceSignal> {
    if hist_a is Some && hist_b is Some {
        let ha = hist_a->0;
        let hb = hist_b->0;
        let bearish = direction == PenDirection::Up && price_b > price_a && hb - ha < -eps;
        let bullish = direction == PenDirection::Down && price_b < price_a && hb - ha > eps;
        if bearish || bullish {
            Some(
                DivergenceSignal {
                    div_type: if bearish {
                        DivergenceType::Bearish
                    } else {
                        DivergenceType::Bullish
                    },
                    level,
                    price_a,
                    price_b,
                    macd_a: ha,
                    macd_b: hb,
                    index,
                    strength: strength_of(price_b - price_a, base_price as int, hb - ha) as i64,
                },
            )
        } else {
            None
        }
    } else {
        None
    }
}

/// The pen-level signal between the pens `earlier` and `later`, read at
/// their end candles.
pub open spec fn pen_signal(eps: i64, earlier: Pen, later: Pen, macd: Seq<MACDValue>) -> Option<
    DivergenceSignal,
> {
    signal_for(
        DivergenceLevel::Pen,
        earlier.direction,
        earlier.start_price,
        earlier.end_price,
        later.end_price,
        histogram_near(macd, earlier.end_idx as int),
        histogram_near(macd, later.end_idx as int),
        later.end_idx,
        eps,
    )
}

/// The segment-level signal between the segments `earlier` and `later`,
/// read at the indices of their last pens.
pub open spec fn segment_signal(
    eps: i64,
    earlier: SegmentModel,
    later: SegmentModel,
    macd: Seq<MACDValue>,
) -> Option<DivergenceSignal> {
    signal_for(
        DivergenceLevel::Segment,
        earlier.direction,
        earlier.start_price,
        earlier.end_price,
        later.end_price,
        histogram_exact(macd, earlier.end_pen_idx as int),
        histogram_exact(macd, later.end_pen_idx as int),
        later.end_pen_idx,
        eps,
    )
}

/// The signal of the pen pair `(i, i + 2)`, if the two share a direction.
pub open spec fn pen_signal_at(eps: i64, pens: Seq<Pen>, macd: Seq<MACDValue>, i: int) -> Option<
    DivergenceSignal,
> {
    if 0 <= i && i + 2 < pens.len() && pens[i].direction == pens[i + 2].direction {
        pen_signal(eps, pens[i], pens[i + 2], macd)
    } else {
        None
    }
}

/// The signal of the segment pair `(k, k + 2)`, if the two share a
/// direction.
pub open spec fn segment_signal_at(
    eps: i64,
    segments: Seq<SegmentModel>,
    macd: Seq<MACDValue>,
    k: int,
) -> Option<DivergenceSignal> {
    if 0 <= k && k + 2 < segments.len() && segments[k].direction == segments[k + 2].direction {
        segment_signal(eps, segments[k], segments[k + 2], macd)
    } else {
        None
    }
}

/// The signals of the pen pairs `(i, i + 2)` with `i < n`, in order.
pub open spec fn pen_signals_upto(eps: i64, pens: Seq<Pen>, macd: Seq<MACDValue>, n: int) -> Seq<
    DivergenceSignal,
>
    decreases n,
{
    if n <= 0 {
        Seq::empty()
    } else {
        let before = pen_signals_upto(eps, pens, macd, n - 1);
        match pen_signal_at(eps, pens, macd, n - 1) {
            Some(s) => before.push(s),
            None => before,
        }
    }
}

/// All pen-level signals of a pen sequence.
pub open spec fn pen_signals(eps: i64, pens: Seq<Pen>, macd: Seq<MACDValue>) -> Seq<DivergenceSignal> {
    pen_signals_upto(eps, pens, macd, pens.len() - 2)
}

/// The signals of the segment pairs `(k, k + 2)` with `k < n`, in order.
pub open spec fn segment_signals_upto(
    eps: i64,
    segments: Seq<SegmentModel>,
    macd: Seq<MACDValue>,
    n: int,
) -> Seq<DivergenceSignal>
    decreases n,
{
    if n <= 0 {
        Seq::empty()
    } else {
        let before = segment_signals_upto(eps, segments, macd, n - 1);
        match segment_signal_at(eps, segments, macd, n - 1) {
            Some(s) => before.push(s),
            None => before,
        }
    }
}

/// All segment-level signals of a segment sequence; none where the level is
/// switched off.
pub open spec fn segment_signals(
    config: DivergenceConfig,
    segments: Seq<SegmentModel>,
    macd: Seq<MACDValue>,
) -> Seq<DivergenceSignal> {
    if config.enable_segment_div {
        segment_signals_upto(config.min_macd_change, segments, macd, segments.len() - 2)
    } else {
        Seq::empty()
    }
}

/// A pen-level signal `a` raised to multi-level by the segment-level signal
/// `b`: the strength is the mean of the two.
pub open spec fn raised(a: DivergenceSignal, b: DivergenceSignal) -> DivergenceSignal {
    DivergenceSignal {
        div_type: a.div_type,
        level: DivergenceLevel::MultiLevel,
        price_a: a.price_a,
        price_b: a.price_b,
        macd_a: a.macd_a,
        macd_b: a.macd_b,
        index: a.index,
        strength: ((a.strength + b.strength) / 2) as i64,
    }
}

/// Whether pen `pen_idx` lies within the segment.
pub open spec fn pen_within(pen_idx: int, segment: SegmentModel) -> bool {
    segment.start_pen_idx <= pen_idx <= segment.end_pen_idx
}

/// The multi-level signals that the pen-level signal `a`, whose later pen is
/// `pen_idx`, forms with the segment pairs `(k, k + 2)`, `k < m`: one for
/// each pair that gives a signal of the same type and whose later segment
/// holds the pen.
pub open spec fn raised_by_segments(
    eps: i64,
    a: DivergenceSignal,
    pen_idx: int,
    segments: Seq<SegmentModel>,
    macd: Seq<MACDValue>,
    m: int,
) -> Seq<DivergenceSignal>
    decreases m,
{
    if m <= 0 {
        Seq::empty()
    } else {
        let before = raised_by_segments(eps, a, pen_idx, segments, macd, m - 1);
        match segment_signal_at(eps, segments, macd, m - 1) {
            Some(b) => if b.div_type == a.div_type && pen_within(pen_idx, segments[m + 1]) {
                before.push(raised(a, b))
            } else {
                before
            },
            None => before,
        }
    }
}

/// The multi-level signals of the pen pairs `(i, i + 2)` with `i < n`.
pub open spec fn multi_signals_upto(
    eps: i64,
    pens: Seq<Pen>,
    segments: Seq<SegmentModel>,
    macd: Seq<MACDValue>,
    n: int,
) -> Seq<DivergenceSignal>
    decreases n,
{
    if n <= 0 {
        Seq::empty()
    } else {
        let before = multi_signals_upto(eps, pens, segments, macd, n - 1);
        match pen_signal_at(eps, pens, macd, n - 1) {
            Some(a) => before + raised_by_segments(
                eps,
                a,
                n + 1,
                segments,
                macd,
                segments.len() - 2,
            ),
            None => before,
        }
    }
}

/// All multi-level signals; none where segment-level divergence is switched
/// off.
pub open spec fn multi_signals(
    config: DivergenceConfig,
    pens: Seq<Pen>,
    segments: Seq<SegmentModel>,
    macd: Seq<MACDValue>,
) -> Seq<DivergenceSignal> {
    if config.enable_segment_div {
        multi_signals_upto(config.min_macd_change, pens, segments, macd, pens.len() - 2)
    } else {
        Seq::empty()
    }
}

/// Every signal of `signals` is well formed.
pub open spec fn all_well_formed(signals: Seq<DivergenceSignal>) -> bool {
    forall|i: int| 0 <= i < signals.len() ==> (#[trigger] signals[i]).well_formed()
}

/// Finds divergences in pen and segment sequences.
#[derive(Debug, Clone, Copy)]
pub struct DivergenceDetector {
    config: DivergenceConfig,
    macd_calculator: MACDCalculator,
}

impl DivergenceDetector {
    /// The thresholds this detector uses.
    pub closed spec fn config(&self) -> DivergenceConfig {
        self.config
    }

    /// The periods of the MACD this detector computes from candles.
    pub closed spec fn macd_config(&self) -> MACDConfig {
        self.macd_calculator.config()
    }

    /// A detector with the given thresholds and the default MACD periods.
    pub fn new(config: DivergenceConfig) -> (d: Self)
        ensures
            d.config() == config,
            d.macd_config() == (MACDConfig { fast_period: 12, slow_period: 26, signal_period: 9 }),
    {
        DivergenceDetector { config, macd_calculator: MACDCalculator::with_defaults() }
    }

    /// A detector with the default thresholds.
    pub fn with_defaults() -> (d: Self)
        ensures
            d.config() == (DivergenceConfig {
                min_price_change_pct: 500_000,
                min_macd_change: 10_000,
                lookback_pens: 5,
                enable_segment_div: true,
            }),
            d.macd_config() == (MACDConfig { fast_period: 12, slow_period: 26, signal_period: 9 }),
    {
        DivergenceDetector {
            config: DivergenceConfig {
                min_price_change_pct: 500_000,
                min_macd_change: 10_000,
                lookback_pens: 5,
                enable_segment_div: true,
            },
            macd_calculator: MACDCalculator::with_defaults(),
        }
    }

    /// The thresholds this detector uses.
    pub fn get_config(&self) -> (c: DivergenceConfig)
        ensures
            c == self.config(),
    {
        self.config
    }

    /// Histogram value at `idx`, or at the index before it where `idx` is
    /// one past the values.
    pub fn get_macd_at_peak(&self, macd_values: &[MACDValue], idx: usize) -> (v: Option<MACDValue>)
        ensures
            v is Some <==> histogram_near(macd_values@, idx as int) is Some,
            v is Some ==> Some(v->0.histogram) == histogram_near(macd_values@, idx as int),
            v is Some ==> v->0 == macd_values@[if idx < macd_values@.len() {
                idx as int
            } else {
                idx - 1
            }],
    {
        if idx < macd_values.len() {
            Some(macd_values[idx])
        } else if idx > 0 && idx - 1 < macd_values.len() {
            Some(macd_values[idx - 1])
        } else {
            None
        }
    }

    /// Decides whether two swings diverge and builds the signal.
    fn evaluate(
        &self,
        level: DivergenceLevel,
        direction: PenDirection,
        base_price: i64,
        price_a: i64,
        price_b: i64,
        hist_a: Option<i64>,
        hist_b: Option<i64>,
        index: usize,
    ) -> (r: Option<DivergenceSignal>)
        ensures
            r == signal_for(
                level,
                direction,
                base_price,
                price_a,
                price_b,
                hist_a,
                hist_b,
                index,
                self.config().min_macd_change,
            ),
            self.config().min_macd_change >= 0 && r is Some ==> r->0.well_formed(),
    {
        let (ha, hb) = match (hist_a, hist_b) {
            (Some(ha), Some(hb)) => (ha, hb),
            _ => { return None; },
        };
        let macd_change: i128 = hb as i128 - ha as i128;
        let eps: i128 = self.config.min_macd_change as i128;
        let bearish = match direction {
            PenDirection::Up => price_b > price_a && macd_change < -eps,
            PenDirection::Down => false,
        };
        let bullish = match direction {
            PenDirection::Up => false,
            PenDirection::Down => price_b < price_a && macd_change > eps,
        };
        if !bearish && !bullish {
            return None;
        }
        let price_factor = crate::fixed::clamped_ratio(
            crate::fixed::abs_diff(price_b, price_a),
            crate::fixed::abs_diff(base_price, 0),
        );
        let macd_factor = crate::fixed::clamp_to_unit(macd_change);
        let strength = DivergenceSignal::calculate_strength(price_factor, macd_factor);
        Some(
            DivergenceSignal {
                div_type: if bearish {
                    DivergenceType::Bearish
                } else {
                    DivergenceType::Bullish
                },
                level,
                price_a,
                price_b,
                macd_a: ha,
                macd_b: hb,
                index,
                strength,
            },
        )
    }

    /// The pen-level signal between two pens of one direction, if they
    /// diverge.
    pub fn check_divergence(&self, pen1: &Pen, pen2: &Pen, macd_values: &[MACDValue]) -> (r: Option<
        DivergenceSignal,
    >)
        ensures
            r == pen_signal(self.config().min_macd_change, *pen1, *pen2, macd_values@),
            self.config().min_macd_change >= 0 && r is Some ==> r->0.well_formed(),
    {
        let macd1 = self.get_macd_at_peak(macd_values, pen1.end_idx);
        let macd2 = self.get_macd_at_peak(macd_values, pen2.end_idx);
        let hist_a = match macd1 {
            Some(v) => Some(v.histogram),
            None => None,
        };
        let hist_b = match macd2 {
            Some(v) => Some(v.histogram),
            None => None,
        };
        self.evaluate(
            DivergenceLevel::Pen,
            pen1.direction,
            pen1.start_price,
            pen1.end_price,
            pen2.end_price,
            hist_a,
            hist_b,
            pen2.end_idx,
        )
    }

    /// The segment-level signal between two segments of one direction, if
    /// they diverge.
    pub fn check_divergence_segments(
        &self,
        seg1: &Segment,
        seg2: &Segment,
        macd_values: &[MACDValue],
    ) -> (r: Option<DivergenceSignal>)
        ensures
            r == segment_signal(self.config().min_macd_change, seg1@, seg2@, macd_values@),
            self.config().min_macd_change >= 0 && r is Some ==> r->0.well_formed(),
    {
        let hist_a = if seg1.end_pen_idx < macd_values.len() {
            Some(macd_values[seg1.end_pen_idx].histogram)
        } else {
            None
        };
        let hist_b = if seg2.end_pen_idx < macd_values.len() {
            Some(macd_values[seg2.end_pen_idx].histogram)
        } else {
            None
        };
        self.evaluate(
            DivergenceLevel::Segment,
            seg1.direction,
            seg1.start_price,
            seg1.end_price,
            seg2.end_price,
            hist_a,
            hist_b,
            seg2.end_pen_idx,
        )
    }

    /// The pen-level signals of `pens` against the given MACD values: one
    /// for each diverging pair of pens two apart, in order.
    pub fn detect_pen_divergence_with(&self, pens: &[Pen], macd_values: &[MACDValue]) -> (out: Vec<
        DivergenceSignal,
    >)
        ensures
            out@ == pen_signals(self.config().min_macd_change, pens@, macd_values@),
            self.config().min_macd_change >= 0 ==> all_well_formed(out@),
    {
        let mut out: Vec<DivergenceSignal> = Vec::new();
        let n = pens.len();
        if n < 3 {
            return out;
        }
        let mut i: usize = 0;
        while i < n - 2
            invariant
                n == pens@.len(),
                n >= 3,
                i <= n - 2,
                out@ == pen_signals_upto(self.config().min_macd_change, pens@, macd_values@, i as int),
                self.config().min_macd_change >= 0 ==> all_well_formed(out@),
            decreases n - i,
        {
            if pens[i].direction == pens[i + 2].direction {
                match self.check_divergence(&pens[i], &pens[i + 2], macd_values) {
                    Some(signal) => {
                        out.push(signal);
                    },
                    None => {},
                }
            }
            i = i + 1;
        }
        out
    }

    /// The segment-level signals of `segments` against the given MACD
    /// values; none where the level is switched off.
    pub fn detect_segment_divergence_with(
        &self,
        segments: &[Segment],
        macd_values: &[MACDValue],
    ) -> (out: Vec<DivergenceSignal>)
        ensures
            out@ == segment_signals(self.config(), segment_models(segments@), macd_values@),
            self.config().min_macd_change >= 0 ==> all_well_formed(out@),
    {
        let mut out: Vec<DivergenceSignal> = Vec::new();
        let n = segments.len();
        if !self.config.enable_segment_div || n < 3 {
            return out;
        }
        let mut i: usize = 0;
        while i < n - 2
            invariant
                n == segments@.len(),
                n >= 3,
                i <= n - 2,
                out@ == segment_signals_upto(
                    self.config().min_macd_change,
                    segment_models(segments@),
                    macd_values@,
                    i as int,
                ),
                self.config().min_macd_change >= 0 ==> all_well_formed(out@),
            decreases n - i,
        {
            if segments[i].direction == segments[i + 2].direction {
                match self.check_divergence_segments(&segments[i], &segments[i + 2], macd_values) {
                    Some(signal) => {
                        out.push(signal);
                    },
                    None => {},
                }
            }
            i = i + 1;
        }
        out
    }

    /// The multi-level signals against the given MACD values: a pen-level
    /// signal becomes one for each segment-level signal of the same type
    /// whose later segment holds the later pen.
    pub fn detect_multi_level_divergence_with(
        &self,
        pens: &[Pen],
        segments: &[Segment],
        macd_values: &[MACDValue],
    ) -> (out: Vec<DivergenceSignal>)
        ensures
            out@ == multi_signals(self.config(), pens@, segment_models(segments@), macd_values@),
            self.config().min_macd_change >= 0 ==> all_well_formed(out@),
    {
        let mut out: Vec<DivergenceSignal> = Vec::new();
        let np = pens.len();
        let ns = segments.len();
        if !self.config.enable_segment_div || np < 3 {
            return out;
        }
        let ghost eps = self.config().min_macd_change;
        let mut i: usize = 0;
        while i < np - 2
            invariant
                np == pens@.len(),
                ns == segments@.len(),
                np >= 3,
                i <= np - 2,
                eps == self.config().min_macd_change,
                out@ == multi_signals_upto(eps, pens@, segment_models(segments@), macd_values@, i as int),
                eps >= 0 ==> all_well_formed(out@),
            decreases np - i,
        {
            if pens[i].direction == pens[i + 2].direction {
                match self.check_divergence(&pens[i], &pens[i + 2], macd_values) {
                    Some(a) => {
                        let ghost before = out@;
                        let mut k: usize = 0;
                        while ns >= 3 && k < ns - 2
                            invariant
                                ns == segments@.len(),
                                ns >= 3 ==> k <= ns - 2,
                                ns < 3 ==> k == 0,
                                i + 2 < np,
                                eps == self.config().min_macd_change,
                                eps >= 0 ==> a.well_formed(),
                                out@ == before + raised_by_segments(
                                    eps,
                                    a,
                                    i + 2,
                                    segment_models(segments@),
                                    macd_values@,
                                    k as int,
                                ),
                                eps >= 0 ==> all_well_formed(out@),
                            decreases ns - k,
                        {
                            let ghost inner = raised_by_segments(
                                eps,
                                a,
                                i + 2,
                                segment_models(segments@),
                                macd_values@,
                                k as int,
                            );
                            if segments[k].direction == segments[k + 2].direction {
                                match self.check_divergence_segments(
                                    &segments[k],
                                    &segments[k + 2],
                                    macd_values,
                                ) {
                                    Some(b) => {
                                        if b.div_type == a.div_type && segments[k + 2].start_pen_idx
                                            <= i + 2 && i + 2 <= segments[k + 2].end_pen_idx {
                                            let strength = crate::fixed::mean_of(a.strength, b.strength);
                                            out.push(
                                                DivergenceSignal {
                                                    div_type: a.div_type,
                                                    level: DivergenceLevel::MultiLevel,
                                                    price_a: a.price_a,
                                                    price_b: a.price_b,
                                                    macd_a: a.macd_a,
                                                    macd_b: a.macd_b,
                                                    index: a.index,
                                                    strength,
                                                },
                                            );
                                            assert(out@ =~= before + inner.push(raised(a, b)));
                                        }
                                    },
                                    None => {},
                                }
                            }
                            k = k + 1;
                        }
                        assert(raised_by_segments(
                            eps,
                            a,
                            i + 2,
                            segment_models(segments@),
                            macd_values@,
                            k as int,
                        ) == raised_by_segments(
                            eps,
                            a,
                            i + 2,
                            segment_models(segments@),
                            macd_values@,
                            segments@.len() - 2,
                        )) by {
                            if ns < 3 {
                                lemma_raised_empty(
                                    eps,
                                    a,
                                    i + 2,
                                    segment_models(segments@),
                                    macd_values@,
                                    ns - 2,
                                );
                            }
                        }
                    },
                    None => {},
                }
            }
            i = i + 1;
        }
        out
    }

    /// Pen-level signals against the MACD of the closes of `klines`.
    pub fn detect_pen_divergence(&self, pens: &[Pen], klines: &[Kline]) -> (out: Vec<DivergenceSignal>)
        requires
            forall|i: int| 0 <= i < klines@.len() ==> Kline::price_in_range(#[trigger] klines@[i].close),
        ensures
            out@ == pen_signals(
                self.config().min_macd_change,
                pens@,
                macd_values_of(closes_of(klines@), self.macd_config()),
            ),
            self.config().min_macd_change >= 0 ==> all_well_formed(out@),
    {
        if pens.len() < 3 {
            return Vec::new();
        }
        let macd_values = self.macd_calculator.calculate(klines);
        self.detect_pen_divergence_with(pens, macd_values.as_slice())
    }

    /// Segment-level signals against the MACD of the closes of `klines`.
    pub fn detect_segment_divergence(&self, segments: &[Segment], klines: &[Kline]) -> (out: Vec<
        DivergenceSignal,
    >)
        requires
            forall|i: int| 0 <= i < klines@.len() ==> Kline::price_in_range(#[trigger] klines@[i].close),
        ensures
            out@ == segment_signals(
                self.config(),
                segment_models(segments@),
                macd_values_of(closes_of(klines@), self.macd_config()),
            ),
            self.config().min_macd_change >= 0 ==> all_well_formed(out@),
    {
        if !self.config.enable_segment_div || segments.len() < 3 {
            return Vec::new();
        }
        let macd_values = self.macd_calculator.calculate(klines);
        self.detect_segment_divergence_with(segments, macd_values.as_slice())
    }

    /// Multi-level signals against the MACD of the closes of `klines`.
    pub fn detect_multi_level_divergence(
        &self,
        pens: &[Pen],
        segments: &[Segment],
        klines: &[Kline],
    ) -> (out: Vec<DivergenceSignal>)
        requires
            forall|i: int| 0 <= i < klines@.len() ==> Kline::price_in_range(#[trigger] klines@[i].close),
        ensures
            out@ == multi_signals(
                self.config(),
                pens@,
                segment_models(segments@),
                macd_values_of(closes_of(klines@), self.macd_config()),
            ),
            self.config().min_macd_change >= 0 ==> all_well_formed(out@),
    {
        let macd_values = self.macd_calculator.calculate(klines);
        self.detect_multi_level_divergence_with(pens, segments, macd_values.as_slice())
    }
}

/// The positions of the signals rise strictly.
pub open spec fn indices_ascend(signals: Seq<DivergenceSignal>) -> bool {
    forall|a: int, b: int|
        0 <= a < b < signals.len() ==> (#[trigger] signals[a]).index < (#[trigger] signals[b]).index
}

/// A strength lies between `0` and `1.0`.
pub proof fn lemma_strength_is_unit(price_change: int, base_price: int, macd_change: int)
    ensures
        0 <= strength_of(price_change, base_price, macd_change) <= SCALE,
{
    let num = magnitude(price_change);
    let den = magnitude(base_price);
    if den != 0 {
        assert(num * SCALE >= 0) by (nonlinear_arith)
            requires
                num >= 0,
                SCALE == 1_000_000,
        ;
        vstd::arithmetic::div_mod::lemma_div_pos_is_pos(num * SCALE, den);
    }
}

/// A signal is well formed where the threshold is not negative.
pub proof fn lemma_signal_is_well_formed(
    level: DivergenceLevel,
    direction: PenDirection,
    base_price: i64,
    price_a: i64,
    price_b: i64,
    hist_a: Option<i64>,
    hist_b: Option<i64>,
    index: usize,
    eps: i64,
)
    requires
        eps >= 0,
    ensures
        signal_for(level, direction, base_price, price_a, price_b, hist_a, hist_b, index, eps)
            matches Some(s) ==> s.well_formed(),
{
    if hist_a is Some && hist_b is Some {
        lemma_strength_is_unit(price_b - price_a, base_price as int, hist_b->0 - hist_a->0);
    }
}

/// The pen-level signals of a pen chain are well formed, and their
/// positions rise strictly.
pub proof fn lemma_pen_signals_sound(
    eps: i64,
    pens: Seq<Pen>,
    min_gap: int,
    macd: Seq<MACDValue>,
    n: int,
)
    requires
        pen_chain(pens, min_gap),
        n <= pens.len() - 2,
    ensures
        indices_ascend(pen_signals_upto(eps, pens, macd, n)),
        forall|a: int|
            0 <= a < pen_signals_upto(eps, pens, macd, n).len() ==> (#[trigger] pen_signals_upto(
                eps,
                pens,
                macd,
                n,
            )[a]).index <= pens[n + 1].end_idx,
        eps >= 0 ==> all_well_formed(pen_signals_upto(eps, pens, macd, n)),
    decreases n,
{
    if n > 0 {
        lemma_pen_signals_sound(eps, pens, min_gap, macd, n - 1);
        lemma_pens_ascend(pens, min_gap, n, n + 1);
        if eps >= 0 {
            lemma_signal_is_well_formed(
                DivergenceLevel::Pen,
                pens[n - 1].direction,
                pens[n - 1].start_price,
                pens[n - 1].end_price,
                pens[n + 1].end_price,
                histogram_near(macd, pens[n - 1].end_idx as int),
                histogram_near(macd, pens[n + 1].end_idx as int),
                pens[n + 1].end_idx,
                eps,
            );
        }
    }
}

/// The segment-level signals of sound segments are well formed, and their
/// positions rise strictly.
pub proof fn lemma_segment_signals_sound(
    eps: i64,
    segments: Seq<SegmentModel>,
    pens: Seq<Pen>,
    macd: Seq<MACDValue>,
    n: int,
)
    requires
        segments_sound(segments, pens, 0),
        n <= segments.len() - 2,
    ensures
        indices_ascend(segment_signals_upto(eps, segments, macd, n)),
        forall|a: int|
            0 <= a < segment_signals_upto(eps, segments, macd, n).len() ==> (
            #[trigger] segment_signals_upto(eps, segments, macd, n)[a]).index <= segments[n
                + 1].end_pen_idx,
        eps >= 0 ==> all_well_formed(segment_signals_upto(eps, segments, macd, n)),
    decreases n,
{
    if n > 0 {
        lemma_segment_signals_sound(eps, segments, pens, macd, n - 1);
        lemma_segments_ascend(segments, pens, 0, n, n + 1);
        if eps >= 0 {
            lemma_signal_is_well_formed(
                DivergenceLevel::Segment,
                segments[n - 1].direction,
                segments[n - 1].start_price,
                segments[n - 1].end_price,
                segments[n + 1].end_price,
                histogram_exact(macd, segments[n - 1].end_pen_idx as int),
                histogram_exact(macd, segments[n + 1].end_pen_idx as int),
                segments[n + 1].end_pen_idx,
                eps,
            );
        }
    }
}

/// A pen-level signal raised to multi-level stays well formed.
pub proof fn lemma_raised_sound(
    eps: i64,
    a: DivergenceSignal,
    pen_idx: int,
    segments: Seq<SegmentModel>,
    macd: Seq<MACDValue>,
    m: int,
)
    requires
        eps >= 0,
        a.well_formed(),
    ensures
        all_well_formed(raised_by_segments(eps, a, pen_idx, segments, macd, m)),
    decreases m,
{
    if m > 0 {
        lemma_raised_sound(eps, a, pen_idx, segments, macd, m - 1);
        if 0 <= m - 1 && m + 1 < segments.len() {
            lemma_signal_is_well_formed(
                DivergenceLevel::Segment,
                segments[m - 1].direction,
                segments[m - 1].start_price,
                segments[m - 1].end_price,
                segments[m + 1].end_price,
                histogram_exact(macd, segments[m - 1].end_pen_idx as int),
                histogram_exact(macd, segments[m + 1].end_pen_idx as int),
                segments[m + 1].end_pen_idx,
                eps,
            );
        }
    }
}

/// Multi-level signals are well formed where the threshold is not
/// negative.
pub proof fn lemma_multi_signals_sound(
    eps: i64,
    pens: Seq<Pen>,
    segments: Seq<SegmentModel>,
    macd: Seq<MACDValue>,
    n: int,
)
    requires
        eps >= 0,
    ensures
        all_well_formed(multi_signals_upto(eps, pens, segments, macd, n)),
    decreases n,
{
    if n > 0 {
        lemma_multi_signals_sound(eps, pens, segments, macd, n - 1);
        let before = multi_signals_upto(eps, pens, segments, macd, n - 1);
        match pen_signal_at(eps, pens, macd, n - 1) {
            Some(a) => {
                lemma_signal_is_well_formed(
                    DivergenceLevel::Pen,
                    pens[n - 1].direction,
                    pens[n - 1].start_price,
                    pens[n - 1].end_price,
                    pens[n + 1].end_price,
                    histogram_near(macd, pens[n - 1].end_idx as int),
                    histogram_near(macd, pens[n + 1].end_idx as int),
                    pens[n + 1].end_idx,
                    eps,
                );
                let more = raised_by_segments(eps, a, n + 1, segments, macd, segments.len() - 2);
                lemma_raised_sound(eps, a, n + 1, segments, macd, segments.len() - 2);
                let all = before + more;
                assert forall|i: int| 0 <= i < all.len() implies (#[trigger] all[i]).well_formed() by {
                    if i < before.len() {
                        assert(all[i] == before[i]);
                    } else {
                        assert(all[i] == more[i - before.len()]);
                    }
                }
            },
            None => {},
        }
    }
}

/// A pen lies within one segment at most, so a pen-level signal is raised
/// to multi-level once at most, and the raised signal keeps its position.
pub proof fn lemma_raised_once(
    eps: i64,
    a: DivergenceSignal,
    pen_idx: int,
    segments: Seq<SegmentModel>,
    pens: Seq<Pen>,
    macd: Seq<MACDValue>,
    m: int,
)
    requires
        segments_sound(segments, pens, 0),
        m <= segments.len() - 2,
    ensures
        raised_by_segments(eps, a, pen_idx, segments, macd, m).len() <= 1,
        raised_by_segments(eps, a, pen_idx, segments, macd, m).len() == 1 ==> m >= 1 && pen_idx
            <= segments[m + 1].end_pen_idx && raised_by_segments(
            eps,
            a,
            pen_idx,
            segments,
            macd,
            m,
        )[0].index == a.index,
    decreases m,
{
    if m > 0 {
        lemma_raised_once(eps, a, pen_idx, segments, pens, macd, m - 1);
        lemma_segments_ascend(segments, pens, 0, m, m + 1);
    }
}

/// The positions of the multi-level signals of a pen chain over sound
/// segments rise strictly.
pub proof fn lemma_multi_signals_ascend(
    eps: i64,
    pens: Seq<Pen>,
    min_gap: int,
    segments: Seq<SegmentModel>,
    segment_pens: Seq<Pen>,
    macd: Seq<MACDValue>,
    n: int,
)
    requires
        pen_chain(pens, min_gap),
        segments_sound(segments, segment_pens, 0),
        n <= pens.len() - 2,
    ensures
        indices_ascend(multi_signals_upto(eps, pens, segments, macd, n)),
        forall|a: int|
            0 <= a < multi_signals_upto(eps, pens, segments, macd, n).len() ==> (
            #[trigger] multi_signals_upto(eps, pens, segments, macd, n)[a]).index <= pens[n
                + 1].end_idx,
    decreases n,
{
    if n > 0 {
        lemma_multi_signals_ascend(eps, pens, min_gap, segments, segment_pens, macd, n - 1);
        lemma_pens_ascend(pens, min_gap, n, n + 1);
        let before = multi_signals_upto(eps, pens, segments, macd, n - 1);
        match pen_signal_at(eps, pens, macd, n - 1) {
            Some(a) => {
                let more = raised_by_segments(eps, a, n + 1, segments, macd, segments.len() - 2);
                if segments.len() >= 2 {
                    lemma_raised_once(
                        eps,
                        a,
                        n + 1,
                        segments,
                        segment_pens,
                        macd,
                        segments.len() - 2,
                    );
                } else {
                    lemma_raised_empty(eps, a, n + 1, segments, macd, segments.len() - 2);
                }
                let all = before + more;
                assert forall|x: int, y: int| 0 <= x < y < all.len() implies (#[trigger] all[x]).index
                    < (#[trigger] all[y]).index by {
                    assert(all[x] == before[x]);
                    if y < before.len() {
                        assert(all[y] == before[y]);
                    } else {
                        assert(all[y] == more[0]);
                    }
                }
                assert forall|x: int| 0 <= x < all.len() implies (#[trigger] all[x]).index <= pens[n
                    + 1].end_idx by {
                    if x < before.len() {
                        assert(all[x] == before[x]);
                    } else {
                        assert(all[x] == more[0]);
                    }
                }
            },
            None => {},
        }
    }
}

/// No segment pair exists below index zero.
proof fn lemma_raised_empty(
    eps: i64,
    a: DivergenceSignal,
    pen_idx: int,
    segments: Seq<SegmentModel>,
    macd: Seq<MACDValue>,
    m: int,
)
    requires
        m <= 0,
    ensures
        raised_by_segments(eps, a, pen_idx, segments, macd, m) == Seq::<DivergenceSignal>::empty(),
{
}

} // verus!
