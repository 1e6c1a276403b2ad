//! The pipeline from raw candles to buy and sell points, and the series
//! store in front of it.

use vstd::prelude::*;
use vstd::slice::slice_subrange;
use vstd::string::StringExecFns;
use crate::bsp::BSPConfig;
use crate::bsp::BSPDetector;
use crate::bsp::BspModel;
use crate::bsp::BuySellPoint;
use crate::bsp::all_confident;
use crate::bsp::all_first_class_diverge;
use crate::bsp::all_points;
use crate::bsp::all_unit_confidence;
use crate::bsp::lemma_all_points_sound;
use crate::bsp::models_of;
use crate::canonical::CanonicalCandle;
use crate::canonical::canonical_of;
use crate::canonical::canonical_prefix;
use crate::canonical::canonical_well_formed;
use crate::canonical::lemma_canonical_carries_on;
use crate::canonical::lemma_canonical_prefix;
use crate::canonical::lemma_canonical_reads_prefix;
use crate::canonical::canonicalize;
use crate::divergence::DivergenceConfig;
use crate::divergence::DivergenceDetector;
use crate::divergence::DivergenceSignal;
use crate::divergence::all_well_formed;
use crate::divergence::indices_ascend;
use crate::divergence::lemma_multi_signals_ascend;
use crate::divergence::lemma_multi_signals_sound;
use crate::divergence::lemma_pen_signals_sound;
use crate::divergence::lemma_segment_signals_sound;
use crate::divergence::multi_signals;
use crate::divergence::pen_signals;
use crate::divergence::segment_signals;
use crate::indicators::MACDCalculator;
use crate::indicators::MACDConfig;
use crate::indicators::MACDValue;
use crate::indicators::macd_values_of;
use crate::indicators::widen;
use crate::kline::Kline;
use crate::pen::Pen;
use crate::pen::PenCalculator;
use crate::pen::PenConfig;
use crate::pen::lemma_pens_stand;
use crate::pen::pen_chain;
use crate::pen::pens_kept;
use crate::pen::pens_linked;
use crate::pen::pens_of;
use crate::segment::Segment;
use crate::segment::SegmentCalculator;
use crate::segment::SegmentConfig;
use crate::segment::SegmentModel;
use crate::segment::lemma_segments_sound;
use crate::segment::lemma_segments_stand;
use crate::segment::pens_in_order;
use crate::segment::pens_prefix;
use crate::segment::segments_kept;
use crate::segment::segment_models;
use crate::segment::segments_of;
use crate::segment::segments_sound;
use crate::window::last_window;
use crate::window::tail_of;
use crate::window::tail_of_points;
use crate::window::tail_of_segments;

verus! {

/// The settings of all components.
#[derive(Debug, Clone, Copy, PartialEq, Eq, Structural)]
pub struct EngineConfig {
    /// Periods of the MACD.
    pub macd: MACDConfig,
    /// Rules of pen formation.
    pub pen: PenConfig,
    /// Rules of segment division.
    pub segment: SegmentConfig,
    /// Thresholds of the divergence detector.
    pub divergence: DivergenceConfig,
    /// Switches and thresholds of the buy and sell point classifier.
    pub bsp: BSPConfig,
}

impl Default for EngineConfig {
    fn default() -> (c: Self)
        ensures
            c == (EngineConfig {
                macd: MACDConfig { fast_period: 12, slow_period: 26, signal_period: 9 },
                pen: PenConfig {
                    use_new_definition: true,
                    strict_validation: true,
                    min_klines_between_turns: 3,
                },
                segment: SegmentConfig {
                    use_feature_sequence: true,
                    handle_inclusion: true,
                    min_features_per_segment: 3,
                    gap_threshold: 0,
                },
                divergence: DivergenceConfig {
                    min_price_change_pct: 500_000,
                    min_macd_change: 10_000,
                    lookback_pens: 5,
                    enable_segment_div: true,
                },
                bsp: BSPConfig {
                    min_confidence: 600_000,
                    enable_bsp1: true,
                    enable_bsp2: true,
                    enable_bsp3: true,
                    pullback_threshold_pct: 382_000,
                },
            }),
    {
        EngineConfig {
            macd: MACDConfig { fast_period: 12, slow_period: 26, signal_period: 9 },
            pen: PenConfig {
                use_new_definition: true,
                strict_validation: true,
                min_klines_between_turns: 3,
            },
            segment: SegmentConfig {
                use_feature_sequence: true,
                handle_inclusion: true,
                min_features_per_segment: 3,
                gap_threshold: 0,
            },
            divergence: DivergenceConfig {
                min_price_change_pct: 500_000,
                min_macd_change: 10_000,
                lookback_pens: 5,
                enable_segment_div: true,
            },
            bsp: BSPConfig {
                min_confidence: 600_000,
                enable_bsp1: true,
                enable_bsp2: true,
                enable_bsp3: true,
                pullback_threshold_pct: 382_000,
            },
        }
    }
}

/// Everything the pipeline derives from a candle series.
#[derive(Debug, Clone)]
pub struct Analysis {
    /// The canonical candles.
    pub canonical: Vec<CanonicalCandle>,
    /// MACD values, one per canonical candle.
    pub macd: Vec<MACDValue>,
    /// The pens; the last one is unconfirmed.
    pub pens: Vec<Pen>,
    /// The segments over the confirmed pens.
    pub segments: Vec<Segment>,
    /// Pen-level, then segment-level, then multi-level divergences.
    pub divergences: Vec<DivergenceSignal>,
    /// The buy and sell points.
    pub bsps: Vec<BuySellPoint>,
}

/// What an analysis holds, as mathematical values.
pub struct AnalysisModel {
    /// The canonical candles.
    pub canonical: Seq<CanonicalCandle>,
    /// MACD values, one per canonical candle.
    pub macd: Seq<MACDValue>,
    /// The pens.
    pub pens: Seq<Pen>,
    /// The segments over the confirmed pens.
    pub segments: Seq<SegmentModel>,
    /// The divergences.
    pub divergences: Seq<DivergenceSignal>,
    /// The buy and sell points.
    pub bsps: Seq<BspModel>,
}

impl View for Analysis {
    type V = AnalysisModel;

    open spec fn view(&self) -> AnalysisModel {
        AnalysisModel {
            canonical: self.canonical@,
            macd: self.macd@,
            pens: self.pens@,
            segments: segment_models(self.segments@),
            divergences: self.divergences@,
            bsps: models_of(self.bsps@),
        }
    }
}

impl Analysis {
    /// The last `n` pens, or all of them where `n` is zero.
    pub fn latest_pens(&self, n: usize) -> (out: Vec<Pen>)
        ensures
            out@ == last_window(self@.pens, n as int),
    {
        tail_of(&self.pens, n)
    }

    /// The last `n` MACD values, or all of them where `n` is zero.
    pub fn latest_macd(&self, n: usize) -> (out: Vec<MACDValue>)
        ensures
            out@ == last_window(self@.macd, n as int),
    {
        tail_of(&self.macd, n)
    }

    /// The last `n` divergences, or all of them where `n` is zero.
    pub fn latest_divergences(&self, n: usize) -> (out: Vec<DivergenceSignal>)
        ensures
            out@ == last_window(self@.divergences, n as int),
    {
        tail_of(&self.divergences, n)
    }

    /// The last `n` segments, or all of them where `n` is zero.
    pub fn latest_segments(&self, n: usize) -> (out: Vec<Segment>)
        ensures
            segment_models(out@) == last_window(self@.segments, n as int),
    {
        tail_of_segments(&self.segments, n)
    }

    /// The last `n` buy and sell points, or all of them where `n` is zero.
    pub fn latest_bsps(&self, n: usize) -> (out: Vec<BuySellPoint>)
        ensures
            models_of(out@) == last_window(self@.bsps, n as int),
    {
        tail_of_points(&self.bsps, n)
    }
}

/// The close of each canonical candle: that of its last member.
pub open spec fn canonical_closes(klines: Seq<Kline>, canonical: Seq<CanonicalCandle>) -> Seq<i64> {
    Seq::new(canonical.len(), |i: int| klines[canonical[i].last_member as int].close)
}

/// The pens that are confirmed: all but the last.
pub open spec fn confirmed_pens(pens: Seq<Pen>) -> Seq<Pen> {
    if pens.len() == 0 {
        pens
    } else {
        pens.drop_last()
    }
}

/// The divergences of all levels, pen level first.
pub open spec fn divergences_of(
    config: DivergenceConfig,
    pens: Seq<Pen>,
    segments: Seq<SegmentModel>,
    macd: Seq<MACDValue>,
) -> Seq<DivergenceSignal> {
    pen_signals(config.min_macd_change, pens, macd) + segment_signals(config, segments, macd)
        + multi_signals(config, pens, segments, macd)
}

/// What the pipeline derives from a candle series: canonical candles, MACD
/// over their closes, pens over the canonical candles, segments over the
/// confirmed pens, divergences over pens and segments, and buy and sell
/// points over pens and divergences.
pub open spec fn analysis_of(config: EngineConfig, klines: Seq<Kline>) -> AnalysisModel {
    let canonical = canonical_of(klines);
    let macd = macd_values_of(widen(canonical_closes(klines, canonical)), config.macd);
    let pens = pens_of(config.pen, canonical);
    let segments = segments_of(config.segment, confirmed_pens(pens));
    let divergences = divergences_of(config.divergence, pens, segments, macd);
    AnalysisModel {
        canonical,
        macd,
        pens,
        segments,
        divergences,
        bsps: all_points(config.bsp, pens, divergences),
    }
}

/// Every candle satisfies the candle invariant.
pub open spec fn all_candles_well_formed(klines: Seq<Kline>) -> bool {
    forall|i: int| 0 <= i < klines.len() ==> (#[trigger] klines[i]).well_formed()
}

/// The pens of a chain, without the last, are pens as the segment builder
/// takes them.
pub proof fn lemma_confirmed_pens_in_order(pens: Seq<Pen>, min_gap: int)
    requires
        pen_chain(pens, min_gap),
    ensures
        pens_in_order(confirmed_pens(pens)),
{
    let confirmed = confirmed_pens(pens);
    assert forall|i: int| 0 <= i < confirmed.len() implies (#[trigger] confirmed[i]).start_idx
        <= confirmed[i].end_idx by {
        assert(crate::pen::pen_sound(pens[i], min_gap));
    }
    assert forall|i: int, j: int| 0 <= i && j == i + 1 && j < confirmed.len() implies (
    #[trigger] confirmed[i]).direction != (#[trigger] confirmed[j]).direction && confirmed[i].end_idx
        <= confirmed[j].start_idx by {
        assert(pens_linked(pens[i], pens[j]));
    }
}

/// Confirmation is final: every confirmed pen and every confirmed segment
/// of the analysis of a series is, with all its fields and at the same
/// place, among the pens and segments of the analysis of any series that
/// continues it.
pub proof fn lemma_confirmed_records_stand(config: EngineConfig, klines: Seq<Kline>, more: Seq<Kline>)
    requires
        klines.len() + more.len() <= usize::MAX,
    ensures
        pens_kept(analysis_of(config, klines).pens, analysis_of(config, klines + more).pens),
        forall|i: int|
            0 <= i < analysis_of(config, klines).pens.len() && (#[trigger] analysis_of(
                config,
                klines,
            ).pens[i]).confirmed ==> i < analysis_of(config, klines + more).pens.len()
                && analysis_of(config, klines + more).pens[i] == analysis_of(config, klines).pens[i],
        segments_kept(analysis_of(config, klines).segments, analysis_of(config, klines + more).segments),
{
    let longer = klines + more;
    let before = canonical_of(klines);
    let after = canonical_of(longer);
    let n = klines.len() as int;
    lemma_canonical_reads_prefix(klines, longer, n);
    lemma_canonical_carries_on(longer, n, longer.len() as int);
    lemma_canonical_prefix(klines, n);
    lemma_canonical_prefix(longer, longer.len() as int);
    lemma_pens_stand(config.pen, before, after);
    let pens = pens_of(config.pen, before);
    let later = pens_of(config.pen, after);
    if config.pen.use_new_definition {
        crate::pen::lemma_pen_scan_well_formed(config.pen, before, before.len() as int);
    }
    assert(pen_chain(pens, config.pen.min_klines_between_turns as int));
    if pens.len() > 0 {
        crate::pen::lemma_chain_ends_rise(
            pens,
            config.pen.min_klines_between_turns as int,
            pens.len() - 1,
        );
    }
    assert(pens_prefix(confirmed_pens(pens), confirmed_pens(later)));
    lemma_segments_stand(config.segment, confirmed_pens(pens), confirmed_pens(later), 0);
}

/// What holds of every analysis. The canonical candles are well formed and
/// no more than the raw candles. The pens form a chain. The segments are
/// sound and linked. The positions of the divergences of each level rise
/// strictly. Every buy or sell point has a
/// confidence of at least the threshold. Where the histogram threshold is
/// not negative, every divergence is well formed, every confidence lies
/// between `0` and `1.0`, and every first-class point carries a divergence
/// of its side.
pub proof fn lemma_analysis_sound(config: EngineConfig, klines: Seq<Kline>)
    requires
        klines.len() <= usize::MAX,
    ensures
        ({
            let a = analysis_of(config, klines);
            let eps = config.divergence.min_macd_change;
            &&& canonical_well_formed(a.canonical)
            &&& a.canonical.len() <= klines.len()
            &&& pen_chain(a.pens, config.pen.min_klines_between_turns as int)
            &&& segments_sound(a.segments, confirmed_pens(a.pens), 0)
            &&& indices_ascend(pen_signals(eps, a.pens, a.macd))
            &&& indices_ascend(segment_signals(config.divergence, a.segments, a.macd))
            &&& indices_ascend(multi_signals(config.divergence, a.pens, a.segments, a.macd))
            &&& all_confident(a.bsps, config.bsp.min_confidence)
            &&& eps >= 0 ==> all_well_formed(a.divergences) && all_unit_confidence(a.bsps)
                && all_first_class_diverge(a.bsps)
        }),
{
    let a = analysis_of(config, klines);
    let eps = config.divergence.min_macd_change;
    let gap = config.pen.min_klines_between_turns as int;
    lemma_canonical_prefix(klines, klines.len() as int);
    if config.pen.use_new_definition {
        crate::pen::lemma_pen_scan_well_formed(config.pen, a.canonical, a.canonical.len() as int);
    }
    assert(pen_chain(a.pens, gap));
    lemma_confirmed_pens_in_order(a.pens, gap);
    if a.pens.len() > 0 {
        crate::pen::lemma_chain_ends_rise(a.pens, gap, a.pens.len() - 1);
    }
    lemma_segments_sound(config.segment, confirmed_pens(a.pens), 0);
    lemma_pen_signals_sound(eps, a.pens, gap, a.macd, a.pens.len() - 2);
    if config.divergence.enable_segment_div {
        lemma_segment_signals_sound(
            eps,
            a.segments,
            confirmed_pens(a.pens),
            a.macd,
            a.segments.len() - 2,
        );
        lemma_multi_signals_ascend(
            eps,
            a.pens,
            gap,
            a.segments,
            confirmed_pens(a.pens),
            a.macd,
            a.pens.len() - 2,
        );
    }
    lemma_all_points_sound(config.bsp, a.pens, a.divergences);
    if eps >= 0 {
        let by_pen = pen_signals(eps, a.pens, a.macd);
        let by_segment = segment_signals(config.divergence, a.segments, a.macd);
        let by_both = multi_signals(config.divergence, a.pens, a.segments, a.macd);
        if config.divergence.enable_segment_div {
            lemma_multi_signals_sound(eps, a.pens, a.segments, a.macd, a.pens.len() - 2);
        }
        let all = a.divergences;
        assert(all == by_pen + by_segment + by_both);
        assert forall|i: int| 0 <= i < all.len() implies (#[trigger] all[i]).well_formed() by {
            if i < by_pen.len() {
                assert(all[i] == by_pen[i]);
            } else if i < by_pen.len() + by_segment.len() {
                assert(all[i] == by_segment[i - by_pen.len()]);
            } else {
                assert(all[i] == by_both[i - by_pen.len() - by_segment.len()]);
            }
        }
    }
}

/// The analysis is determined by the candles and the settings: whatever two
/// runs of the pipeline over the same series return, it is the same.
pub proof fn lemma_analysis_is_determined(
    config: EngineConfig,
    klines: Seq<Kline>,
    first: AnalysisModel,
    second: AnalysisModel,
)
    requires
        first == analysis_of(config, klines),
        second == analysis_of(config, klines),
    ensures
        first == second,
{
}

/// Appends the elements of `more` to `out`.
fn extend_signals(out: &mut Vec<DivergenceSignal>, more: &Vec<DivergenceSignal>)
    ensures
        final(out)@ == old(out)@ + more@,
{
    let n = more.len();
    let mut i: usize = 0;
    let ghost start = out@;
    assert(out@ =~= start + more@.take(0));
    while i < n
        invariant
            i <= n,
            n == more@.len(),
            out@ == start + more@.take(i as int),
        decreases n - i,
    {
        out.push(more[i]);
        assert(out@ =~= start + more@.take(i + 1));
        i = i + 1;
    }
    assert(more@.take(n as int) =~= more@);
}

/// Runs the pipeline over a candle series. Each component reads what the
/// components before it produced and nothing else, so the result is a
/// function of the series and the settings alone.
pub fn analyze(config: &EngineConfig, klines: &[Kline]) -> (out: Analysis)
    requires
        all_candles_well_formed(klines@),
    ensures
        out@ == analysis_of(*config, klines@),
        canonical_well_formed(out@.canonical),
        out@.canonical.len() <= klines@.len(),
        pen_chain(out@.pens, config.pen.min_klines_between_turns as int),
        segments_sound(out@.segments, confirmed_pens(out@.pens), 0),
        forall|i: int| 0 <= i < out@.macd.len() ==> (#[trigger] out@.macd[i]).consistent(),
        all_confident(out@.bsps, config.bsp.min_confidence),
        config.divergence.min_macd_change >= 0 ==> all_well_formed(out@.divergences)
            && all_unit_confidence(out@.bsps) && all_first_class_diverge(out@.bsps),
{
    let total = klines.len();
    proof {
        lemma_analysis_sound(*config, klines@);
    }
    let canonical = canonicalize(klines);
    let count = canonical.len();
    let mut closes: Vec<i64> = Vec::new();
    let mut i: usize = 0;
    while i < count
        invariant
            i <= count,
            count == canonical@.len(),
            all_candles_well_formed(klines@),
            forall|k: int| 0 <= k < canonical@.len() ==> (#[trigger] canonical@[k]).last_member < klines@.len(),
            closes@.len() == i,
            forall|k: int|
                0 <= k < i ==> #[trigger] closes@[k] == klines@[canonical@[k].last_member as int].close,
            forall|k: int| 0 <= k < i ==> Kline::price_in_range(#[trigger] closes@[k]),
        decreases count - i,
    {
        let member = canonical[i].last_member;
        assert(klines@[member as int].well_formed());
        closes.push(klines[member].close);
        i = i + 1;
    }
    assert(closes@ =~= canonical_closes(klines@, canonical@));
    let macd = MACDCalculator::new(config.macd).calculate_from_closes(closes.as_slice());
    let pens = PenCalculator::new(config.pen).identify_pens_on(canonical.as_slice());
    let confirmed_count = if pens.len() == 0 {
        0
    } else {
        pens.len() - 1
    };
    let confirmed = slice_subrange(pens.as_slice(), 0, confirmed_count);
    proof {
        assert(confirmed@ =~= confirmed_pens(pens@));
        lemma_confirmed_pens_in_order(pens@, config.pen.min_klines_between_turns as int);
    }
    let segments = SegmentCalculator::new(config.segment).divide_segments(confirmed);
    let detector = DivergenceDetector::new(config.divergence);
    let mut divergences = detector.detect_pen_divergence_with(pens.as_slice(), macd.as_slice());
    let by_segment = detector.detect_segment_divergence_with(segments.as_slice(), macd.as_slice());
    let by_both = detector.detect_multi_level_divergence_with(
        pens.as_slice(),
        segments.as_slice(),
        macd.as_slice(),
    );
    extend_signals(&mut divergences, &by_segment);
    extend_signals(&mut divergences, &by_both);
    let bsps = BSPDetector::new(config.bsp).detect_all(
        pens.as_slice(),
        segments.as_slice(),
        divergences.as_slice(),
    );
    Analysis { canonical, macd, pens, segments, divergences, bsps }
}

} // verus!
