use trading_core::bsp::{BSPConfig, BSPDetector, BSPType, BuySellPoint, Center};
use trading_core::divergence::{
    DivergenceConfig, DivergenceDetector, DivergenceLevel, DivergenceSignal, DivergenceType,
};
use trading_core::engine::{validate_batch, Engine, InputError};
use trading_core::fixed::{abs_diff, clamp_to_unit, clamped_ratio, div_floor, max_of, mean_of, min_of};
use trading_core::health::{ActiveEngine, EngineHealth, HealthConfig, HealthMonitor, MonitorAction};
use trading_core::indicators::{MACDCalculator, MACDConfig, MACDValue};
use trading_core::kline::{Kline, KlineSeries, TimeFrame};
use trading_core::metrics::{LatencyTracker, MetricsCollector};
use trading_core::pen::{Fractal, FractalKind, Pen, PenCalculator, PenConfig, PenDirection};
use trading_core::pipeline::EngineConfig;
use trading_core::segment::{BuilderState, Segment, SegmentCalculator, SegmentConfig};
use trading_core::window::{tail_of, tail_of_points, tail_of_segments};
use trading_core::service::TradingServiceImpl;
use trading_core::text::{render_decimal, render_percent, render_two_decimals};

/// Fixed-point form of a decimal number.
fn px(x: f64) -> i64 {
    (x * 1_000_000.0).round() as i64
}

fn candle(t: i64, open: f64, high: f64, low: f64, close: f64) -> Kline {
    Kline::new(t, px(open), px(high), px(low), px(close), px(10.0))
}

fn closing_at(closes: &[i64]) -> Vec<Kline> {
    closes.iter().enumerate().map(|(i, &c)| Kline::new(i as i64, c, c, c, c, 0)).collect()
}

#[test]
fn floor_division_rounds_toward_negative_infinity() {
    assert_eq!(div_floor(7, 2), 3);
    assert_eq!(div_floor(-7, 2), -4);
    assert_eq!(div_floor(-8, 2), -4);
    assert_eq!(div_floor(0, 5), 0);
    assert_eq!(div_floor(-1, 3), -1);
}

#[test]
fn fixed_point_helpers() {
    assert_eq!(abs_diff(i64::MIN, i64::MAX), u64::MAX);
    assert_eq!(abs_diff(5, -3), 8);
    assert_eq!(min_of(3, -4), -4);
    assert_eq!(max_of(3, -4), 3);
    assert_eq!(mean_of(3, 4), 3);
    assert_eq!(mean_of(-3, -4), -4);
    assert_eq!(clamp_to_unit(-250_000), 250_000);
    assert_eq!(clamp_to_unit(7_000_000), 1_000_000);
    assert_eq!(clamped_ratio(3, 100), 30_000);
    assert_eq!(clamped_ratio(1, 3), 333_333);
    assert_eq!(clamped_ratio(5, 2), 1_000_000);
    assert_eq!(clamped_ratio(5, 0), 1_000_000);
    assert_eq!(clamped_ratio(0, 0), 1_000_000);
}

#[test]
fn candle_measures() {
    let k = candle(0, 100.0, 105.0, 99.0, 103.0);
    assert!(k.is_well_formed());
    assert_eq!(k.range(), px(6.0));
    assert_eq!(k.body_size(), px(3.0));
    assert_eq!(k.upper_shadow(), px(2.0));
    assert_eq!(k.lower_shadow(), px(1.0));
    assert_eq!(k.turnover, None);

    let falling = candle(0, 103.0, 105.0, 99.0, 100.0);
    assert_eq!(falling.body_size(), px(3.0));
    assert_eq!(falling.upper_shadow(), px(2.0));
    assert_eq!(falling.lower_shadow(), px(1.0));

    let flat = candle(0, 100.0, 100.0, 100.0, 100.0);
    assert!(!flat.is_bullish());
    assert!(!flat.is_bearish());
}

#[test]
fn candle_invariant_is_checked() {
    assert!(!candle(0, 100.0, 99.0, 98.0, 98.5).is_well_formed());
    assert!(!candle(0, 100.0, 105.0, 101.0, 103.0).is_well_formed());
    assert!(!candle(0, 100.0, 105.0, 99.0, 106.0).is_well_formed());
    assert!(!Kline::new(0, 10, 12, 9, 11, -1).is_well_formed());
    assert!(!Kline::new(0, 10, 2_000_000_000_000_000_000, 9, 11, 1).is_well_formed());
    assert!(Kline::new(0, -10, -8, -12, -9, 0).is_well_formed());
}

#[test]
fn timeframe_lengths_and_codes() {
    let all = [
        (TimeFrame::M1, 1, "1m"),
        (TimeFrame::M3, 3, "3m"),
        (TimeFrame::M5, 5, "5m"),
        (TimeFrame::M15, 15, "15m"),
        (TimeFrame::M30, 30, "30m"),
        (TimeFrame::H1, 60, "1h"),
        (TimeFrame::H4, 240, "4h"),
        (TimeFrame::D1, 1440, "1d"),
        (TimeFrame::W1, 10080, "1w"),
        (TimeFrame::MN, 43200, "1M"),
    ];
    for (frame, minutes, code) in all {
        assert_eq!(frame.minutes(), minutes);
        assert_eq!(frame.seconds(), minutes as u64 * 60);
        assert_eq!(frame.to_string(), code);
    }
}

#[test]
fn timeframe_codes_are_read_either_way_round() {
    assert_eq!(TimeFrame::from_str("M1"), Some(TimeFrame::M1));
    assert_eq!(TimeFrame::from_str("3m"), Some(TimeFrame::M3));
    assert_eq!(TimeFrame::from_str("m3"), Some(TimeFrame::M3));
    assert_eq!(TimeFrame::from_str("15m"), Some(TimeFrame::M15));
    assert_eq!(TimeFrame::from_str("M15"), Some(TimeFrame::M15));
    assert_eq!(TimeFrame::from_str("30M"), Some(TimeFrame::M30));
    assert_eq!(TimeFrame::from_str("m30"), Some(TimeFrame::M30));
    assert_eq!(TimeFrame::from_str("h1"), Some(TimeFrame::H1));
    assert_eq!(TimeFrame::from_str("h4"), Some(TimeFrame::H4));
    assert_eq!(TimeFrame::from_str("1d"), Some(TimeFrame::D1));
    assert_eq!(TimeFrame::from_str("D1"), Some(TimeFrame::D1));
    assert_eq!(TimeFrame::from_str("1W"), Some(TimeFrame::W1));
    assert_eq!(TimeFrame::from_str("w1"), Some(TimeFrame::W1));
    assert_eq!(TimeFrame::from_str("1mn"), Some(TimeFrame::MN));
    assert_eq!(TimeFrame::from_str("Mn"), Some(TimeFrame::MN));
    // Letter case aside, the month code `1M` reads as the minute.
    assert_eq!(TimeFrame::from_str("1M"), Some(TimeFrame::M1));
    assert_eq!(TimeFrame::from_str(""), None);
    assert_eq!(TimeFrame::from_str("1"), None);
    assert_eq!(TimeFrame::from_str("2m"), None);
    assert_eq!(TimeFrame::from_str("mn1"), None);
    assert_eq!(TimeFrame::from_str("1h "), None);
    assert_eq!(TimeFrame::from_str("1\u{b5}"), None);
}

#[test]
fn series_positions() {
    let mut series = KlineSeries::new("BTCUSDT".to_string(), TimeFrame::H1);
    assert!(series.is_empty());
    assert!(series.latest().is_none());
    assert!(series.get(0).is_none());
    assert!(series.get(-1).is_none());
    for t in 0..3 {
        series.push(candle(t, 1.0, 2.0, 0.5, 1.5));
    }
    assert_eq!(series.len(), 3);
    assert!(!series.is_empty());
    assert_eq!(series.symbol, "BTCUSDT");
    assert_eq!(series.timeframe, TimeFrame::H1);
    assert_eq!(series.latest().unwrap().timestamp, 2);
    assert_eq!(series.get(0).unwrap().timestamp, 0);
    assert_eq!(series.get(2).unwrap().timestamp, 2);
    assert!(series.get(3).is_none());
    assert_eq!(series.get(-1).unwrap().timestamp, 2);
    assert_eq!(series.get(-3).unwrap().timestamp, 0);
    assert!(series.get(-4).is_none());
    assert!(series.get(isize::MIN).is_none());
}

#[test]
fn exponential_average_values() {
    let calc = MACDCalculator::with_defaults();
    assert_eq!(calc.calculate_ema(&[10, 20, 30, 40], 2), vec![15, 15, 25, 35]);
    // A falling step rounds down: 35 + floor(-50 / 3) = 18.
    assert_eq!(calc.calculate_ema(&[40, 30, 10], 2), vec![35, 35, 18]);
    assert_eq!(calc.calculate_ema(&[7, 9, 11], 1), vec![7, 9, 11]);
    assert_eq!(calc.calculate_ema(&[7, 9, 12], 3), vec![9, 9, 9]);
    assert_eq!(calc.calculate_ema(&[7, 9], 3), Vec::<i64>::new());
    assert_eq!(calc.calculate_ema(&[7, 9], 0), Vec::<i64>::new());
    assert_eq!(calc.calculate_ema(&[], 1), Vec::<i64>::new());
    // The step from the largest to the smallest value: two thirds of the way.
    assert_eq!(
        calc.calculate_ema(&[i64::MAX, i64::MAX, i64::MIN], 2),
        vec![i64::MAX, i64::MAX, -3074457345618258603]
    );
}

#[test]
fn macd_values_of_a_short_series() {
    let calc = MACDCalculator::new(MACDConfig { fast_period: 1, slow_period: 2, signal_period: 2 });
    let values = calc.calculate(&closing_at(&[10, 20, 30]));
    // fast: 10 20 30; slow: 15 15 25; line: -5 5 5; signal: 0 0 3.
    assert_eq!(
        values,
        vec![
            MACDValue { macd_line: -5, signal_line: 0, histogram: -5 },
            MACDValue { macd_line: 5, signal_line: 0, histogram: 5 },
            MACDValue { macd_line: 5, signal_line: 3, histogram: 2 },
        ]
    );
    assert_eq!(calc.calculate_from_closes(&[10, 20, 30]), values);
    assert_eq!(calc.calculate_area(&values, 0, 3), 12);
    assert_eq!(calc.calculate_area(&values, 1, 2), 5);
    assert_eq!(calc.calculate_area(&values, 2, 2), 0);
    assert_eq!(calc.calculate_area(&values, 1, 4), 0);
    assert!(calc.is_bullish_divergence(&values, 10, 9, 0, 1));
    assert!(!calc.is_bullish_divergence(&values, 10, 10, 0, 1));
    assert!(!calc.is_bullish_divergence(&values, 10, 9, 1, 2));
    assert!(!calc.is_bullish_divergence(&values, 10, 9, 0, 3));
    assert!(calc.is_bearish_divergence(&values, 10, 11, 1, 2));
    assert!(!calc.is_bearish_divergence(&values, 10, 10, 1, 2));
    assert!(!calc.is_bearish_divergence(&values, 10, 11, 0, 1));
    assert!(!calc.is_bearish_divergence(&values, 10, 11, 3, 1));
}

#[test]
fn macd_needs_enough_candles() {
    let calc = MACDCalculator::with_defaults();
    assert!(calc.calculate(&closing_at(&[5; 25])).is_empty());
    assert_eq!(calc.calculate(&closing_at(&[5; 26])).len(), 26);
    assert_eq!(calc.get_config(), MACDConfig::default());
    let no_period = MACDCalculator::new(MACDConfig { fast_period: 0, slow_period: 2, signal_period: 2 });
    assert!(no_period.calculate(&closing_at(&[5; 10])).is_empty());
    let long_signal =
        MACDCalculator::new(MACDConfig { fast_period: 2, slow_period: 3, signal_period: 11 });
    assert!(long_signal.calculate(&closing_at(&[5; 10])).is_empty());
}

#[test]
fn macd_of_a_constant_series_is_zero() {
    let values = MACDCalculator::with_defaults().calculate(&closing_at(&[px(100.0); 40]));
    assert_eq!(values.len(), 40);
    for v in values {
        assert_eq!(v, MACDValue { macd_line: 0, signal_line: 0, histogram: 0 });
    }
}

#[test]
fn macd_value_holds_the_difference() {
    let v = MACDValue::new(px(1.5), px(-0.25));
    assert_eq!(v.histogram, px(1.75));
}

#[test]
fn strength_is_the_mean_of_two_capped_magnitudes() {
    assert_eq!(DivergenceSignal::calculate_strength(px(0.03), px(-0.5)), px(0.265));
    assert_eq!(DivergenceSignal::calculate_strength(px(-3.0), px(0.2)), px(0.6));
    assert_eq!(DivergenceSignal::calculate_strength(px(7.0), px(-9.0)), px(1.0));
    assert_eq!(DivergenceSignal::calculate_strength(0, 0), 0);
}

fn histogram(values: &[(usize, f64)], len: usize) -> Vec<MACDValue> {
    let mut out = vec![MACDValue::new(0, 0); len];
    for &(i, h) in values {
        out[i] = MACDValue::new(px(h), 0);
    }
    out
}

#[test]
fn bullish_divergence_between_two_down_pens() {
    let detector = DivergenceDetector::with_defaults();
    let first = Pen::down(0, 3, px(50.0), px(40.0));
    let second = Pen::down(6, 9, px(45.0), px(30.0));
    let macd = histogram(&[(3, -2.0), (9, -1.5)], 10);
    let signal = detector.check_divergence(&first, &second, &macd).unwrap();
    assert_eq!(signal.div_type, DivergenceType::Bullish);
    assert_eq!((signal.price_a, signal.price_b), (px(40.0), px(30.0)));
    assert_eq!((signal.macd_a, signal.macd_b), (px(-2.0), px(-1.5)));
    assert_eq!(signal.index, 9);
    // (10 / 50 + 0.5) / 2
    assert_eq!(signal.strength, px(0.35));
}

#[test]
fn no_divergence_without_both_moves() {
    let detector = DivergenceDetector::with_defaults();
    let first = Pen::up(0, 2, px(100.0), px(105.0));
    let higher = Pen::up(4, 6, px(102.0), px(108.0));
    let lower = Pen::up(4, 6, px(102.0), px(104.0));
    let equal = Pen::up(4, 6, px(102.0), px(105.0));
    let falling = histogram(&[(2, 1.2), (6, 0.7)], 8);
    let rising = histogram(&[(2, 0.7), (6, 1.2)], 8);
    let barely = histogram(&[(2, 1.2), (6, 1.19)], 8);
    assert!(detector.check_divergence(&first, &higher, &falling).is_some());
    assert!(detector.check_divergence(&first, &lower, &falling).is_none());
    assert!(detector.check_divergence(&first, &equal, &falling).is_none());
    assert!(detector.check_divergence(&first, &higher, &rising).is_none());
    // A fall by exactly the threshold does not count.
    assert!(detector.check_divergence(&first, &higher, &barely).is_none());
    // No histogram at either end: nothing to compare.
    assert!(detector.check_divergence(&first, &higher, &falling[0..2]).is_none());
    assert!(detector.check_divergence(&first, &higher, &[]).is_none());
}

#[test]
fn histogram_falls_back_to_the_index_before() {
    let detector = DivergenceDetector::with_defaults();
    let macd = histogram(&[(0, 0.1), (1, 0.2), (2, 0.3)], 3);
    assert_eq!(detector.get_macd_at_peak(&macd, 2), Some(macd[2]));
    assert_eq!(detector.get_macd_at_peak(&macd, 3), Some(macd[2]));
    assert_eq!(detector.get_macd_at_peak(&macd, 4), None);
    assert_eq!(detector.get_macd_at_peak(&[], 0), None);

    let first = Pen::up(0, 1, px(100.0), px(105.0));
    let second = Pen::up(2, 3, px(102.0), px(108.0));
    let signal = detector.check_divergence(&first, &second, &histogram(&[(1, 1.2), (2, 0.7)], 3));
    assert_eq!(signal.map(|s| (s.macd_a, s.macd_b, s.index)), Some((px(1.2), px(0.7), 3)));
}

#[test]
fn strength_with_a_zero_base_price_counts_the_price_in_full() {
    let detector = DivergenceDetector::with_defaults();
    let first = Pen::up(0, 2, 0, px(105.0));
    let second = Pen::up(4, 6, px(102.0), px(108.0));
    let signal = detector.check_divergence(&first, &second, &histogram(&[(2, 1.2), (6, 0.7)], 8));
    assert_eq!(signal.unwrap().strength, px(0.75));
}

fn up_segment(start: usize, end: usize, from: f64, to: f64) -> Segment {
    Segment::new(PenDirection::Up, start, end, px(from), px(to))
}

fn down_segment(start: usize, end: usize, from: f64, to: f64) -> Segment {
    Segment::new(PenDirection::Down, start, end, px(from), px(to))
}

#[test]
fn segment_level_divergence_reads_the_last_pen_index() {
    let detector = DivergenceDetector::with_defaults();
    let segments = vec![
        up_segment(0, 2, 100.0, 120.0),
        down_segment(3, 5, 120.0, 110.0),
        up_segment(6, 8, 110.0, 130.0),
    ];
    let macd = histogram(&[(2, 2.0), (8, 1.0)], 9);
    let signals = detector.detect_segment_divergence_with(&segments, &macd);
    assert_eq!(signals.len(), 1);
    assert_eq!(signals[0].level, DivergenceLevel::Segment);
    assert_eq!(signals[0].div_type, DivergenceType::Bearish);
    assert_eq!(signals[0].index, 8);
    // (10 / 100 + 1) / 2
    assert_eq!(signals[0].strength, px(0.55));
    // No fallback at segment level.
    assert!(detector.detect_segment_divergence_with(&segments, &macd[0..8]).is_empty());
    assert!(detector.check_divergence_segments(&segments[0], &segments[2], &macd).is_some());

    let off = DivergenceDetector::new(DivergenceConfig {
        enable_segment_div: false,
        ..DivergenceConfig::default()
    });
    assert!(off.detect_segment_divergence_with(&segments, &macd).is_empty());
    assert!(off.detect_multi_level_divergence_with(&[], &segments, &macd).is_empty());
    assert_eq!(off.get_config().enable_segment_div, false);
}

#[test]
fn multi_level_divergence_needs_the_pen_inside_the_segment() {
    let detector = DivergenceDetector::with_defaults();
    let pens = vec![
        Pen::up(0, 2, px(100.0), px(120.0)),
        Pen::down(2, 4, px(120.0), px(110.0)),
        Pen::up(4, 6, px(110.0), px(130.0)),
    ];
    // Histogram by candle for the pens (2 and 6), by pen index for the
    // segments (0 and 2).
    let macd = histogram(&[(0, 3.0), (2, 2.0), (6, 1.0)], 8);
    let pen_signals = detector.detect_pen_divergence_with(&pens, &macd);
    assert_eq!(pen_signals.len(), 1);
    // (10 / 100 + 1) / 2
    assert_eq!(pen_signals[0].strength, px(0.55));

    let around = vec![
        up_segment(0, 0, 50.0, 120.0),
        down_segment(1, 1, 120.0, 110.0),
        up_segment(2, 2, 110.0, 130.0),
    ];
    let segment_signals = detector.detect_segment_divergence_with(&around, &macd);
    assert_eq!(segment_signals.len(), 1);
    // (10 / 50 + 1) / 2
    assert_eq!(segment_signals[0].strength, px(0.6));
    let both = detector.detect_multi_level_divergence_with(&pens, &around, &macd);
    assert_eq!(both.len(), 1);
    assert_eq!(both[0].level, DivergenceLevel::MultiLevel);
    assert_eq!(both[0].div_type, DivergenceType::Bearish);
    assert_eq!(both[0].index, 6);
    assert_eq!(both[0].strength, px(0.575));

    // The later segment ends before the later pen: no overlap.
    let elsewhere = vec![
        up_segment(0, 0, 100.0, 120.0),
        down_segment(1, 1, 120.0, 110.0),
        up_segment(1, 1, 110.0, 130.0),
    ];
    let shifted = histogram(&[(0, 3.0), (1, 1.0), (2, 2.0), (6, 1.0)], 8);
    assert_eq!(detector.detect_segment_divergence_with(&elsewhere, &shifted).len(), 1);
    assert!(detector.detect_multi_level_divergence_with(&pens, &elsewhere, &shifted).is_empty());
}

#[test]
fn first_class_confidence() {
    let detector = BSPDetector::with_defaults();
    let alternating = vec![
        Pen::down(0, 2, px(105.0), px(100.0)),
        Pen::up(2, 4, px(100.0), px(103.0)),
        Pen::down(4, 6, px(103.0), px(95.0)),
    ];
    let mut div = DivergenceSignal {
        div_type: DivergenceType::Bearish,
        level: DivergenceLevel::MultiLevel,
        price_a: px(100.0),
        price_b: px(105.0),
        macd_a: px(0.5),
        macd_b: px(0.3),
        index: 2,
        strength: px(0.4),
    };
    assert_eq!(detector.count_consecutive_pens_same_direction(&alternating, 2), 1);
    assert_eq!(detector.count_consecutive_pens_same_direction(&alternating, 3), 0);
    assert_eq!(detector.count_consecutive_pens_same_direction(&[], 0), 0);
    // (0.4 + 1) / 2
    assert_eq!(detector.calculate_bsp1_confidence(&div, &alternating), px(0.7));
    let points = detector.detect_bsp1(&alternating, &[div]);
    assert_eq!(points.len(), 1);
    assert_eq!(points[0].bsp_type, BSPType::Sell1);
    assert_eq!(points[0].notes, "1st sell point - multi-level divergence (strength: 0.40)");

    div.level = DivergenceLevel::Segment;
    div.strength = px(0.599999);
    assert!(detector.detect_bsp1(&alternating, &[div]).is_empty());
    div.strength = px(0.6);
    let kept = detector.detect_bsp1(&alternating, &[div]);
    assert_eq!(kept.len(), 1);
    assert_eq!(kept[0].confidence, px(0.6));
    assert_eq!(kept[0].notes, "1st sell point - segment-level divergence (strength: 0.60)");

    let five_up: Vec<Pen> =
        (0..5).map(|i| Pen::up(i * 2, i * 2 + 2, px(100.0 + i as f64), px(101.0 + i as f64))).collect();
    div.level = DivergenceLevel::MultiLevel;
    div.index = 4;
    div.strength = px(1.0);
    // ((1 + 1) / 2 + 0.8) / 2
    assert_eq!(detector.calculate_bsp1_confidence(&div, &five_up), px(0.9));
}

fn first_point(kind: BSPType, price: f64, index: usize) -> BuySellPoint {
    BuySellPoint {
        bsp_type: kind,
        price: px(price),
        index,
        confidence: px(0.8),
        divergence: None,
        notes: String::new(),
    }
}

#[test]
fn second_buy_point_behind_a_first() {
    let detector = BSPDetector::with_defaults();
    let pens = vec![
        Pen::down(0, 3, px(120.0), px(100.0)),
        Pen::up(3, 6, px(100.0), px(112.0)),
        Pen::down(6, 9, px(112.0), px(105.0)),
    ];
    let firsts = vec![first_point(BSPType::Buy1, 100.0, 3)];
    let points = detector.detect_bsp2(&pens, &firsts);
    assert_eq!(points.len(), 1);
    assert_eq!(points[0].bsp_type, BSPType::Buy2);
    assert_eq!(points[0].price, px(105.0));
    assert_eq!(points[0].index, 9);
    assert_eq!(points[0].confidence, px(0.7));
    assert_eq!(points[0].divergence, None);
    // |105 - 100| / |100 - 120| = 25 %
    assert_eq!(points[0].notes, "2nd buy point - pullback without new low (retracement: 25.0%)");
    assert_eq!(detector.calculate_pullback_ratio(&pens[0], &pens[2]), 250_000);
}

#[test]
fn second_sell_point_behind_a_first() {
    let detector = BSPDetector::with_defaults();
    let pens = vec![
        Pen::up(0, 3, px(100.0), px(130.0)),
        Pen::down(3, 6, px(130.0), px(110.0)),
        Pen::up(6, 9, px(110.0), px(131.0)),
        Pen::down(9, 12, px(131.0), px(115.0)),
        Pen::up(12, 15, px(115.0), px(120.0)),
    ];
    // The pen that ends at 131 makes a new high and is passed over; the pen
    // that ends at 120 is the next one that stays below 130.
    let firsts = vec![first_point(BSPType::Sell1, 130.0, 3)];
    let points = detector.detect_bsp2(&pens, &firsts);
    assert_eq!(points.len(), 1);
    assert_eq!(points[0].bsp_type, BSPType::Sell2);
    assert_eq!((points[0].price, points[0].index), (px(120.0), 15));
    // |120 - 130| / |130 - 100| = 33.33.. %
    assert_eq!(points[0].notes, "2nd sell point - rally without new high (retracement: 33.3%)");
}

#[test]
fn second_point_needs_a_first_and_a_shallow_retracement() {
    let detector = BSPDetector::with_defaults();
    let pens = vec![
        Pen::down(0, 3, px(120.0), px(100.0)),
        Pen::up(3, 6, px(100.0), px(112.0)),
        Pen::down(6, 9, px(112.0), px(108.0)),
    ];
    assert!(detector.detect_bsp2(&pens, &[]).is_empty());
    // 8 / 20 = 40 % exceeds 38.2 %.
    assert!(detector.detect_bsp2(&pens, &[first_point(BSPType::Buy1, 100.0, 3)]).is_empty());
    // A point that sits on no pen, on a pen of the wrong direction, or of
    // another class anchors nothing.
    let shallow = vec![pens[0], pens[1], Pen::down(6, 9, px(112.0), px(105.0))];
    assert_eq!(detector.detect_bsp2(&shallow, &[first_point(BSPType::Buy1, 100.0, 3)]).len(), 1);
    assert!(detector.detect_bsp2(&shallow, &[first_point(BSPType::Buy1, 100.0, 4)]).is_empty());
    assert!(detector.detect_bsp2(&shallow, &[first_point(BSPType::Buy1, 101.0, 3)]).is_empty());
    assert!(detector.detect_bsp2(&shallow, &[first_point(BSPType::Sell1, 100.0, 3)]).is_empty());
    assert!(detector.detect_bsp2(&shallow, &[first_point(BSPType::Buy2, 100.0, 3)]).is_empty());
    // Exactly at the threshold the point is taken.
    let exact = vec![pens[0], pens[1], Pen::down(6, 9, px(112.0), px(107.64))];
    assert_eq!(detector.detect_bsp2(&exact, &[first_point(BSPType::Buy1, 100.0, 3)]).len(), 1);
}

#[test]
fn pullback_ratio_of_a_pen_without_range_is_one() {
    let detector = BSPDetector::with_defaults();
    let flat = Pen::down(0, 3, px(100.0), px(100.0));
    let next = Pen::down(6, 9, px(112.0), px(105.0));
    assert_eq!(detector.calculate_pullback_ratio(&flat, &next), 1_000_000);
}

#[test]
fn centers_and_third_class_points() {
    let detector = BSPDetector::with_defaults();
    let pens = vec![
        Pen::up(0, 3, px(100.0), px(110.0)),
        Pen::down(3, 6, px(110.0), px(104.0)),
        Pen::up(6, 9, px(104.0), px(108.0)),
        Pen::up(9, 12, px(108.0), px(120.0)),
        Pen::down(12, 15, px(120.0), px(112.0)),
    ];
    let centers = detector.find_centers(&pens);
    assert_eq!(
        centers[0],
        Center { start_pen_idx: 0, end_pen_idx: 2, top: px(108.0), bottom: px(104.0) }
    );
    let points = detector.detect_bsp3(&pens, &[]);
    assert_eq!(points.len(), 1);
    assert_eq!(points[0].bsp_type, BSPType::Buy3);
    assert_eq!((points[0].price, points[0].index), (px(112.0), 15));
    assert_eq!(points[0].confidence, px(0.7));
    assert_eq!(points[0].notes, "3rd buy point - pullback holds above the center");

    // A pullback that touches the top of the center gives no point.
    let mut touching = pens.clone();
    touching[4] = Pen::down(12, 15, px(120.0), px(108.0));
    assert!(detector.detect_bsp3(&touching, &[]).is_empty());

    let mirrored = vec![
        Pen::down(0, 3, px(110.0), px(100.0)),
        Pen::up(3, 6, px(100.0), px(106.0)),
        Pen::down(6, 9, px(106.0), px(102.0)),
        Pen::down(9, 12, px(102.0), px(90.0)),
        Pen::up(12, 15, px(90.0), px(98.0)),
    ];
    let sells = detector.detect_bsp3(&mirrored, &[]);
    assert_eq!(sells.len(), 1);
    assert_eq!(sells[0].bsp_type, BSPType::Sell3);
    assert_eq!((sells[0].price, sells[0].index), (px(98.0), 15));
    assert_eq!(sells[0].notes, "3rd sell point - rally holds below the center");

    // Three pens that share no more than a single price form no center.
    let apart = vec![
        Pen::up(0, 3, px(100.0), px(110.0)),
        Pen::up(3, 6, px(110.0), px(120.0)),
        Pen::up(6, 9, px(120.0), px(130.0)),
    ];
    assert!(detector.find_centers(&apart).is_empty());
    assert!(detector.find_centers(&pens[0..2]).is_empty());
}

#[test]
fn all_classes_are_filtered_by_confidence() {
    let pens = vec![
        Pen::down(0, 3, px(120.0), px(100.0)),
        Pen::up(3, 6, px(100.0), px(112.0)),
        Pen::down(6, 9, px(112.0), px(105.0)),
    ];
    let div = DivergenceSignal {
        div_type: DivergenceType::Bullish,
        level: DivergenceLevel::Pen,
        price_a: px(110.0),
        price_b: px(100.0),
        macd_a: px(-0.5),
        macd_b: px(-0.3),
        index: 3,
        strength: px(0.8),
    };
    let all = BSPDetector::with_defaults().detect_all(&pens, &[], &[div]);
    assert_eq!(all.iter().map(|p| p.bsp_type).collect::<Vec<_>>(), vec![BSPType::Buy1, BSPType::Buy2]);
    assert_eq!(all[1].duplicate().notes, all[1].notes);

    let strict = BSPDetector::new(BSPConfig { min_confidence: px(0.75), ..BSPConfig::default() });
    let kept = strict.detect_all(&pens, &[], &[div]);
    // The second-class point, at 0.7, falls below the threshold.
    assert_eq!(kept.iter().map(|p| p.bsp_type).collect::<Vec<_>>(), vec![BSPType::Buy1]);

    let only_second = BSPDetector::new(BSPConfig { enable_bsp1: false, ..BSPConfig::default() });
    let seconds = only_second.detect_all(&pens, &[], &[div]);
    assert_eq!(seconds.iter().map(|p| p.bsp_type).collect::<Vec<_>>(), vec![BSPType::Buy2]);

    let none = BSPDetector::new(BSPConfig {
        enable_bsp1: false,
        enable_bsp2: false,
        enable_bsp3: false,
        ..BSPConfig::default()
    });
    assert!(none.detect_all(&pens, &[], &[div]).is_empty());
    assert_eq!(none.get_config().enable_bsp3, false);
}

#[test]
fn decimal_text() {
    assert_eq!(render_decimal(0), "0");
    assert_eq!(render_decimal(7), "7");
    assert_eq!(render_decimal(1203), "1203");
    assert_eq!(render_decimal(u128::MAX), u128::MAX.to_string());
    assert_eq!(render_two_decimals(0), "0.00");
    assert_eq!(render_two_decimals(px(0.5) as u64), "0.50");
    assert_eq!(render_two_decimals(px(0.654999) as u64), "0.65");
    assert_eq!(render_two_decimals(px(0.655) as u64), "0.66");
    assert_eq!(render_two_decimals(px(0.999) as u64), "1.00");
    assert_eq!(render_two_decimals(px(12.345) as u64), "12.35");
    assert_eq!(render_percent(px(0.25) as u64), "25.0");
    assert_eq!(render_percent(px(0.38249) as u64), "38.2");
    assert_eq!(render_percent(px(0.3825) as u64), "38.3");
    assert_eq!(render_percent(0), "0.0");
    assert_eq!(render_percent(px(1.0) as u64), "100.0");
}

#[test]
fn negative_strength_is_written_with_its_sign() {
    let detector = BSPDetector::new(BSPConfig { min_confidence: px(-1.0), ..BSPConfig::default() });
    let div = DivergenceSignal {
        div_type: DivergenceType::Bullish,
        level: DivergenceLevel::Pen,
        price_a: px(110.0),
        price_b: px(100.0),
        macd_a: px(-0.5),
        macd_b: px(-0.3),
        index: 0,
        strength: px(-0.25),
    };
    let points = detector.detect_bsp1(&[], &[div]);
    assert_eq!(points.len(), 1);
    assert_eq!(points[0].confidence, px(-0.25));
    assert_eq!(points[0].notes, "1st buy point - pen-level divergence (strength: -0.25)");
}

#[test]
fn pens_under_other_rules() {
    let candles = trading_core::canonical::canonicalize(&[
        candle(0, 8.0, 10.0, 8.0, 10.0),
        candle(1, 7.0, 9.0, 7.0, 9.0),
        candle(2, 8.0, 10.0, 8.0, 10.0),
        candle(3, 9.0, 11.0, 9.0, 11.0),
        candle(4, 8.5, 10.5, 8.5, 10.5),
    ]);
    // Bottom at 1, top at 3: two candles apart.
    let strict = PenCalculator::with_defaults();
    assert!(strict.identify_pens_on(&candles).is_empty());
    let close = PenCalculator::new(PenConfig { min_klines_between_turns: 2, ..PenConfig::default() });
    assert_eq!(close.identify_pens_on(&candles), vec![Pen::up(1, 3, px(7.0), px(11.0))]);
    assert_eq!(close.identify_pens_new_definition(&candles).len(), 1);
    let old = PenCalculator::new(PenConfig { use_new_definition: false, ..PenConfig::default() });
    assert!(old.identify_pens_on(&candles).is_empty());
    assert!(old.identify_pens_traditional(&candles).is_empty());
}

#[test]
fn forming_a_pen_checks_distance_price_and_containment() {
    let candles = trading_core::canonical::canonicalize(&[
        candle(0, 8.0, 10.0, 8.0, 10.0),
        candle(1, 7.0, 9.0, 7.0, 9.0),
        candle(2, 8.0, 10.0, 8.0, 10.0),
        candle(3, 9.0, 11.0, 9.0, 11.0),
        candle(4, 10.0, 12.0, 10.0, 12.0),
        candle(5, 9.0, 11.0, 9.0, 11.0),
    ]);
    let calc = PenCalculator::with_defaults();
    let bottom = Fractal { kind: FractalKind::Bottom, idx: 1, price: px(7.0) };
    let top = Fractal { kind: FractalKind::Top, idx: 4, price: px(12.0) };
    assert_eq!(PenCalculator::fractal_of(&candles, 1), Some(bottom));
    assert_eq!(PenCalculator::fractal_of(&candles, 4), Some(top));
    assert_eq!(PenCalculator::fractal_of(&candles, 0), None);
    assert_eq!(PenCalculator::fractal_of(&candles, 5), None);
    assert_eq!(PenCalculator::fractal_of(&candles, 2), None);
    assert_eq!(calc.try_form_pen(&candles, &bottom, &top), Some(Pen::up(1, 4, px(7.0), px(12.0))));
    // Same kind, wrong order, too close, wrong side, out of range.
    assert_eq!(calc.try_form_pen(&candles, &bottom, &bottom), None);
    assert_eq!(calc.try_form_pen(&candles, &top, &bottom), None);
    let near = Fractal { kind: FractalKind::Top, idx: 3, price: px(11.0) };
    assert_eq!(calc.try_form_pen(&candles, &bottom, &near), None);
    let low_top = Fractal { kind: FractalKind::Top, idx: 4, price: px(7.0) };
    assert_eq!(calc.try_form_pen(&candles, &bottom, &low_top), None);
    let beyond = Fractal { kind: FractalKind::Top, idx: 6, price: px(12.0) };
    assert_eq!(calc.try_form_pen(&candles, &bottom, &beyond), None);
    // A down pen from the top to a later bottom.
    let later = Fractal { kind: FractalKind::Bottom, idx: 5, price: px(9.0) };
    let loose = PenCalculator::new(PenConfig { min_klines_between_turns: 1, ..PenConfig::default() });
    assert_eq!(loose.try_form_pen(&candles, &top, &later), Some(Pen::down(4, 5, px(12.0), px(9.0))));
}

#[test]
fn strict_validation_refuses_an_end_candle_that_contains_the_start_candle() {
    // Candle 4 spans 6.5 to 12 and so contains candle 1, which spans 7 to 9.
    // Neighbours stand in no inclusion.
    let candles = trading_core::canonical::canonicalize(&[
        candle(0, 8.0, 10.0, 8.0, 10.0),
        candle(1, 7.0, 9.0, 7.0, 9.0),
        candle(2, 7.5, 9.5, 7.5, 9.5),
        candle(3, 6.0, 9.2, 6.0, 9.2),
        candle(4, 6.5, 12.0, 6.5, 12.0),
        candle(5, 6.2, 11.0, 6.2, 11.0),
    ]);
    assert_eq!(candles.len(), 6);
    let bottom = Fractal { kind: FractalKind::Bottom, idx: 1, price: px(7.0) };
    let top = Fractal { kind: FractalKind::Top, idx: 4, price: px(12.0) };
    assert_eq!(PenCalculator::with_defaults().try_form_pen(&candles, &bottom, &top), None);
    let lenient = PenCalculator::new(PenConfig { strict_validation: false, ..PenConfig::default() });
    assert_eq!(lenient.try_form_pen(&candles, &bottom, &top), Some(Pen::up(1, 4, px(7.0), px(12.0))));
}

#[test]
fn strict_validation_of_a_pen_list() {
    let calc = PenCalculator::with_defaults();
    let pens = vec![
        Pen::up(0, 3, px(100.0), px(110.0)),
        Pen::down(3, 6, px(109.0), px(104.0)),
        Pen::down(3, 6, px(110.0), px(104.0)),
        Pen::up(6, 9, px(105.0), px(108.0)),
        Pen::up(6, 9, px(104.0), px(103.0)),
        Pen::up(6, 9, px(104.0), px(108.0)),
    ];
    // Dropped: the down pen that starts below 110, the up pen that starts
    // above 104, and the up pen that does not rise.
    assert_eq!(calc.validate_pens_strict(pens.clone()), vec![pens[0], pens[2], pens[5]]);
    let lenient = PenCalculator::new(PenConfig { strict_validation: false, ..PenConfig::default() });
    assert_eq!(
        lenient.validate_pens_strict(pens.clone()),
        vec![pens[0], pens[1], pens[2], pens[3], pens[5]]
    );
}

#[test]
fn fractal_windows_on_raw_candles() {
    let calc = PenCalculator::with_defaults();
    let klines = vec![
        candle(0, 100.0, 105.0, 99.0, 103.0),
        candle(1, 103.0, 110.0, 102.0, 108.0),
        candle(2, 108.0, 109.0, 104.0, 105.0),
        candle(3, 104.0, 106.0, 98.0, 99.0),
        candle(4, 99.0, 107.0, 99.0, 106.0),
    ];
    assert_eq!(calc.find_fractal(&klines, 0), Some((1, PenDirection::Down)));
    assert_eq!(calc.find_fractal(&klines, 1), None);
    assert_eq!(calc.find_fractal(&klines, 2), Some((3, PenDirection::Up)));
    assert_eq!(calc.find_fractal(&klines, 3), None);
    assert_eq!(calc.find_fractal(&klines, usize::MAX), None);
    assert!(!calc.is_top_fractal(&klines, 0));
    assert!(!calc.is_top_fractal(&klines, 4));
    assert!(!calc.is_bottom_fractal(&[], 0));
    assert_eq!(PenDirection::Up.opposite(), PenDirection::Down);
    assert_eq!(PenDirection::Down.opposite(), PenDirection::Up);
}

#[test]
fn features_merge_along_the_trend() {
    let calc = SegmentCalculator::with_defaults();
    let f = |low: f64, high: f64, pen_idx: usize| SegmentCalculator::feature(
        &Pen::down(0, 1, px(high), px(low)),
        pen_idx,
    );
    // The second feature lies inside the first: merged upward at the start.
    let merged = calc.process_feature_inclusion(vec![f(100.0, 110.0, 1), f(102.0, 108.0, 3)]);
    assert_eq!(merged.len(), 1);
    assert_eq!((merged[0].low, merged[0].high, merged[0].pen_idx), (px(102.0), px(110.0), 3));
    // Behind a lower high the trend descends: the lower high and lower low.
    let falling = calc.process_feature_inclusion(vec![
        f(100.0, 110.0, 1),
        f(95.0, 105.0, 3),
        f(96.0, 104.0, 5),
    ]);
    assert_eq!(falling.len(), 2);
    assert_eq!((falling[1].low, falling[1].high, falling[1].pen_idx), (px(95.0), px(104.0), 5));
    // Without inclusion handling every feature stays.
    let raw = SegmentCalculator::new(SegmentConfig { handle_inclusion: false, ..SegmentConfig::default() });
    assert_eq!(raw.process_feature_inclusion(vec![f(100.0, 110.0, 1), f(102.0, 108.0, 3)]).len(), 2);
    assert_eq!(raw.get_config().handle_inclusion, false);
}

#[test]
fn gaps_lie_above_or_below_and_respect_the_threshold() {
    let calc = SegmentCalculator::with_defaults();
    let f = |low: f64, high: f64| SegmentCalculator::feature(&Pen::down(0, 1, px(high), px(low)), 1);
    // In an ascending trend, as at the start, a gap lies above.
    assert!(calc.has_gap(&f(100.0, 105.0), &f(106.0, 110.0)));
    assert!(!calc.has_gap(&f(106.0, 110.0), &f(100.0, 105.0)));
    assert!(!calc.has_gap(&f(100.0, 105.0), &f(105.0, 110.0)));
    assert!(!calc.has_gap(&f(100.0, 105.0), &f(103.0, 110.0)));
    assert!(calc.has_gap_in(&f(100.0, 105.0), &f(106.0, 110.0), true));
    assert!(!calc.has_gap_in(&f(106.0, 110.0), &f(100.0, 105.0), true));
    // In a descending trend a gap lies below.
    assert!(calc.has_gap_in(&f(106.0, 110.0), &f(100.0, 105.0), false));
    assert!(!calc.has_gap_in(&f(100.0, 105.0), &f(106.0, 110.0), false));
    assert!(!calc.has_gap_in(&f(106.0, 110.0), &f(100.0, 106.0), false));
    let wide = SegmentCalculator::new(SegmentConfig { gap_threshold: px(2.0), ..SegmentConfig::default() });
    assert!(!wide.has_gap(&f(100.0, 105.0), &f(107.0, 110.0)));
    assert!(wide.has_gap(&f(100.0, 105.0), &f(107.5, 110.0)));
    assert!(!wide.has_gap_in(&f(107.0, 110.0), &f(100.0, 105.0), false));
    assert!(wide.has_gap_in(&f(107.5, 110.0), &f(100.0, 105.0), false));
}

#[test]
fn gap_flags_follow_the_trend_of_the_sequence() {
    let calc = SegmentCalculator::with_defaults();
    let f = |low: f64, high: f64, pen_idx: usize| SegmentCalculator::feature(
        &Pen::down(0, 1, px(high), px(low)),
        pen_idx,
    );
    // At the start the trend is ascending: a feature that lies below the
    // first one is separated from it by no gap.
    let below = calc.process_feature_inclusion(vec![f(106.0, 110.0, 1), f(100.0, 105.0, 3)]);
    assert_eq!(below.iter().map(|x| x.has_gap).collect::<Vec<_>>(), vec![false, false]);
    let above = calc.process_feature_inclusion(vec![f(100.0, 105.0, 1), f(106.0, 110.0, 3)]);
    assert_eq!(above.iter().map(|x| x.has_gap).collect::<Vec<_>>(), vec![false, true]);
    // The second feature made a lower high, so the trend descends: the
    // third feature lies below it with a gap, the other third lies above it
    // and gets no flag.
    let falling = calc.process_feature_inclusion(vec![
        f(110.0, 120.0, 1),
        f(100.0, 108.0, 3),
        f(90.0, 95.0, 5),
    ]);
    assert_eq!(falling.iter().map(|x| x.has_gap).collect::<Vec<_>>(), vec![false, false, true]);
    let turning = calc.process_feature_inclusion(vec![
        f(110.0, 120.0, 1),
        f(100.0, 108.0, 3),
        f(109.0, 115.0, 5),
    ]);
    assert_eq!(turning.iter().map(|x| x.has_gap).collect::<Vec<_>>(), vec![false, false, false]);
    // The second feature made a higher high, so the trend ascends: the
    // third feature lies above it with a gap.
    let rising = calc.process_feature_inclusion(vec![
        f(100.0, 105.0, 1),
        f(103.0, 107.0, 3),
        f(108.0, 112.0, 5),
    ]);
    assert_eq!(rising.iter().map(|x| x.has_gap).collect::<Vec<_>>(), vec![false, false, true]);
}

#[test]
fn segments_need_three_pens_and_pens_in_order() {
    let calc = SegmentCalculator::with_defaults();
    let two = vec![Pen::up(0, 2, px(100.0), px(105.0)), Pen::down(2, 4, px(105.0), px(102.0))];
    assert!(calc.divide_segments(&two).is_empty());
    assert!(calc.divide_segments(&[]).is_empty());
    let four = vec![
        Pen::up(0, 2, px(100.0), px(105.0)),
        Pen::down(2, 4, px(105.0), px(102.0)),
        Pen::up(4, 6, px(102.0), px(108.0)),
        Pen::down(6, 8, px(108.0), px(104.0)),
    ];
    let segments = calc.divide_segments(&four);
    assert_eq!(segments.len(), 1);
    assert_eq!((segments[0].start_pen_idx, segments[0].end_pen_idx), (0, 2));
    assert_eq!(calc.create_segment(&four, 1, 3).contained_pens, four[1..4].to_vec());

    assert!(SegmentCalculator::pens_are_in_order(&four));
    assert!(!SegmentCalculator::pens_are_in_order(&[four[0], four[2]]));
    assert!(!SegmentCalculator::pens_are_in_order(&[four[1], four[0]]));
    assert!(!SegmentCalculator::pens_are_in_order(&[Pen::up(3, 2, 0, 1)]));

    let long = SegmentCalculator::new(SegmentConfig {
        min_features_per_segment: 5,
        ..SegmentConfig::default()
    });
    assert!(long.divide_segments(&four).is_empty());
}

#[test]
fn health_monitor_switches_after_the_limit() {
    let mut monitor = HealthMonitor::new(HealthConfig { max_failures_before_switch: 2, ..HealthConfig::default() });
    assert_eq!(monitor.get_config().max_failures_before_switch, 2);
    assert_eq!(monitor.observe(EngineHealth::Degraded), MonitorAction::FailureCounted);
    assert_eq!(monitor.status().rust_failures, 1);
    assert_eq!(monitor.observe(EngineHealth::Healthy), MonitorAction::Recovered);
    assert_eq!(monitor.status().rust_failures, 0);
    assert_eq!(monitor.observe(EngineHealth::Unhealthy), MonitorAction::FailureCounted);
    assert_eq!(monitor.observe(EngineHealth::Unknown), MonitorAction::FailedOver);
    let status = monitor.status();
    assert_eq!(status.active_engine, ActiveEngine::Python);
    assert_eq!((status.rust_failures, status.python_failures), (0, 0));
    assert!(status.failover_enabled);
    // Failures of the backup engine are counted on its own counter.
    monitor.record_failure(ActiveEngine::Python);
    monitor.record_failure(ActiveEngine::Rust);
    assert_eq!((monitor.status().rust_failures, monitor.status().python_failures), (1, 1));
    monitor.record_success(ActiveEngine::Python);
    assert_eq!((monitor.status().rust_failures, monitor.status().python_failures), (1, 0));
    assert_eq!(monitor.perform_failover(), ActiveEngine::Rust);
    assert_eq!(ActiveEngine::Rust.backup(), ActiveEngine::Python);
    assert_eq!(ActiveEngine::Python.backup(), ActiveEngine::Rust);
    assert_eq!((ActiveEngine::Rust.port(), ActiveEngine::Python.port()), (50051, 50052));
    assert_eq!(ActiveEngine::default(), ActiveEngine::Rust);
}

#[test]
fn health_monitor_without_failover_stays() {
    let mut monitor = HealthMonitor::new(HealthConfig { failover_enabled: false, ..HealthConfig::default() });
    for _ in 0..5 {
        assert_eq!(monitor.observe(EngineHealth::Unhealthy), MonitorAction::FailureCounted);
    }
    assert!(!monitor.should_failover());
    assert_eq!(monitor.active_engine(), ActiveEngine::Rust);
    assert_eq!(monitor.status().rust_failures, 5);
    assert!(!monitor.status().failover_enabled);
}

#[test]
fn metrics_counters() {
    let mut collector = MetricsCollector::default();
    assert_eq!(collector.get_metrics_at(7, 9).avg_latency_ms, 0);
    collector.record_latency(1);
    collector.record_latency(2);
    collector.record_latency(2);
    let m = collector.get_metrics_at(1_700_000_000_000, 42);
    // 5 / 3 rounded down
    assert_eq!(m.avg_latency_ms, 1_666_666);
    assert_eq!(m.last_update, 1_700_000_000_000);
    assert_eq!(m.uptime_secs, 42);
    collector.record_error();
    collector.record_error();
    assert_eq!(collector.error_count(), 2);
    collector.record_klines(usize::MAX);
    collector.record_klines(2);
    // Counters wrap around.
    assert_eq!(collector.get_metrics_at(0, 0).klines_processed, (usize::MAX as u64).wrapping_add(2));
    collector.reset();
    assert_eq!(collector.error_count(), 0);
    let zero = collector.get_metrics_at(0, 0);
    assert_eq!((zero.klines_processed, zero.pens_identified, zero.segments_identified), (0, 0, 0));
    assert_eq!(zero.avg_latency_ms, 0);
}

#[test]
fn clocks_are_read() {
    let tracker = LatencyTracker::start();
    let mut collector = MetricsCollector::new();
    collector.record_pens(3);
    let first = tracker.elapsed_ms();
    let now = chrono::Utc::now().timestamp_millis();
    let m = collector.get_metrics(now);
    let second = tracker.elapsed_ms();
    assert!(first <= second);
    assert!(second < 60_000);
    assert_eq!(m.pens_identified, 3);
    assert!(m.uptime_secs < 60);
    assert_eq!(m.last_update, now);
    assert_eq!(collector.get_metrics_at(m.last_update, m.uptime_secs), m);
}

#[test]
fn batches_are_checked_as_a_whole() {
    let good = vec![candle(10, 1.0, 2.0, 0.5, 1.5), candle(10, 1.5, 2.5, 1.0, 2.0), candle(11, 2.0, 3.0, 1.5, 2.5)];
    assert_eq!(validate_batch(None, &good), Ok(()));
    assert_eq!(validate_batch(Some(10), &good), Ok(()));
    assert_eq!(
        validate_batch(Some(11), &good),
        Err(InputError { first_index: 0, malformed: 0, out_of_order: 1 })
    );
    let bad = vec![
        candle(10, 1.0, 2.0, 0.5, 1.5),
        candle(12, 1.0, 0.9, 0.5, 0.8),
        candle(11, 1.5, 2.5, 1.0, 2.0),
        candle(9, 1.5, 1.0, 1.0, 2.0),
    ];
    let e = validate_batch(None, &bad).unwrap_err();
    assert_eq!(e, InputError { first_index: 1, malformed: 2, out_of_order: 2 });
    assert_eq!(e.message(), "batch rejected: 2 malformed, 2 out of order, first at index 1");
    assert_eq!(validate_batch(Some(5), &[]), Ok(()));
}

#[test]
fn engine_refuses_a_bad_batch_and_keeps_its_series() {
    let mut engine = Engine::new(EngineConfig::default());
    assert_eq!(engine.len(), 0);
    assert_eq!(engine.submit(&[candle(5, 1.0, 2.0, 0.5, 1.5), candle(6, 1.0, 2.0, 0.5, 1.5)]), Ok(2));
    assert_eq!(engine.len(), 2);
    let stale = engine.submit(&[candle(7, 1.0, 2.0, 0.5, 1.5), candle(4, 1.0, 2.0, 0.5, 1.5)]);
    assert_eq!(stale, Err(InputError { first_index: 1, malformed: 0, out_of_order: 1 }));
    assert_eq!(engine.len(), 2);
    let older = engine.submit(&[candle(5, 1.0, 2.0, 0.5, 1.5)]);
    assert_eq!(older, Err(InputError { first_index: 0, malformed: 0, out_of_order: 1 }));
    let broken = engine.submit(&[candle(8, 1.0, 0.5, 2.0, 1.5)]);
    assert_eq!(broken, Err(InputError { first_index: 0, malformed: 1, out_of_order: 0 }));
    assert_eq!(engine.len(), 2);
    assert_eq!(engine.submit(&[candle(6, 1.0, 2.0, 0.5, 1.5)]), Ok(1));
    assert_eq!(engine.len(), 3);
    assert_eq!(engine.analyze().canonical.len(), 1);
}

#[test]
fn service_answers() {
    let mut monitor = HealthMonitor::with_defaults();
    monitor.record_failure(ActiveEngine::Rust);
    let service = TradingServiceImpl::new(monitor);

    let status = service.get_status();
    assert!(status.success);
    assert_eq!(status.active_engine, ActiveEngine::Rust);
    assert_eq!(status.health, EngineHealth::Healthy);
    assert!(status.failover_enabled);
    assert_eq!((status.rust_failures, status.python_failures), (1, 0));

    let mut switched = HealthMonitor::with_defaults();
    switched.perform_failover();
    let backup = TradingServiceImpl::new(switched).get_status();
    assert_eq!((backup.active_engine, backup.health), (ActiveEngine::Python, EngineHealth::Degraded));

    let rust = service.health_check("rust");
    assert_eq!((rust.status, rust.message.as_str()), (EngineHealth::Healthy, "rust service healthy"));
    let python = service.health_check("python");
    assert_eq!((python.status, python.message.as_str()), (EngineHealth::Degraded, "python service healthy"));
    let other = service.health_check("Rust");
    assert_eq!((other.status, other.message.as_str()), (EngineHealth::Unhealthy, "Rust service healthy"));

    let good = vec![candle(1, 1.0, 2.0, 0.5, 1.5), candle(2, 1.0, 2.0, 0.5, 1.5)];
    let taken = service.submit_klines(&good);
    assert!(taken.success);
    assert_eq!(taken.processed_count, 2);
    assert_eq!(taken.error_message, "");
    let refused = service.submit_klines(&[good[1], good[0]]);
    assert!(!refused.success);
    assert_eq!(refused.processed_count, 0);
    assert_eq!(refused.error_message, "batch rejected: 0 malformed, 1 out of order, first at index 1");
    let empty = service.submit_klines(&[]);
    assert!(empty.success);
    assert_eq!(empty.processed_count, 0);

    let macd = service.get_macd(
        &closing_at(&[10, 20, 30]),
        MACDConfig { fast_period: 1, slow_period: 2, signal_period: 2 },
        2,
    );
    assert_eq!(macd.current, Some(MACDValue { macd_line: 5, signal_line: 3, histogram: 2 }));
    assert_eq!(macd.history.len(), 2);
    assert_eq!(macd.history[0], MACDValue { macd_line: 5, signal_line: 0, histogram: 5 });
    let none = service.get_macd(&closing_at(&[10]), MACDConfig::default(), 0);
    assert_eq!(none.current, None);
    assert!(none.history.is_empty());
}

#[test]
fn builder_states() {
    let calc = SegmentCalculator::with_defaults();
    let pens = vec![
        Pen::up(0, 3, px(95.0), px(105.0)),
        Pen::down(3, 6, px(105.0), px(100.0)),
        Pen::up(6, 9, px(100.0), px(110.0)),
        Pen::down(9, 12, px(110.0), px(106.0)),
        Pen::up(12, 15, px(106.0), px(109.0)),
        Pen::down(15, 18, px(109.0), px(98.0)),
        Pen::up(18, 21, px(98.0), px(108.0)),
        Pen::down(21, 24, px(108.0), px(95.0)),
    ];
    assert_eq!(calc.state(&[]), BuilderState::Seeking);
    assert_eq!(calc.state(&pens[..2]), BuilderState::Seeking);
    assert_eq!(calc.state(&pens[..3]), BuilderState::Building(PenDirection::Up));
    assert_eq!(calc.state(&pens[..5]), BuilderState::Building(PenDirection::Up));
    // The second feature lies above the first with a gap: with the third
    // feature the window waits for a fourth.
    assert_eq!(calc.state(&pens[..6]), BuilderState::GapPending(PenDirection::Up, 3));
    assert_eq!(calc.state(&pens[..7]), BuilderState::GapPending(PenDirection::Up, 3));
    // The fourth feature confirms: the segment ends, the next one runs down.
    assert_eq!(calc.state(&pens), BuilderState::Building(PenDirection::Down));
}

#[test]
fn windows_of_records() {
    assert_eq!(tail_of(&vec![1, 2, 3, 4], 2), vec![3, 4]);
    assert_eq!(tail_of(&vec![1, 2, 3, 4], 0), vec![1, 2, 3, 4]);
    assert_eq!(tail_of(&vec![1, 2, 3, 4], 4), vec![1, 2, 3, 4]);
    assert_eq!(tail_of(&vec![1, 2, 3, 4], 9), vec![1, 2, 3, 4]);
    assert_eq!(tail_of(&Vec::<i64>::new(), 3), Vec::<i64>::new());

    let segments = vec![
        up_segment(0, 2, 100.0, 120.0),
        down_segment(3, 5, 120.0, 110.0),
        up_segment(6, 8, 110.0, 130.0),
    ];
    let last = tail_of_segments(&segments, 1);
    assert_eq!(last.len(), 1);
    assert_eq!((last[0].start_pen_idx, last[0].end_pen_idx), (6, 8));
    assert_eq!(tail_of_segments(&segments, 0).len(), 3);
    let copy = segments[1].duplicate();
    assert_eq!((copy.direction, copy.start_price, copy.end_price), (PenDirection::Down, px(120.0), px(110.0)));

    let points = vec![
        first_point(BSPType::Buy1, 100.0, 3),
        first_point(BSPType::Sell1, 130.0, 9),
        first_point(BSPType::Buy2, 105.0, 12),
    ];
    let tail = tail_of_points(&points, 2);
    assert_eq!(tail.iter().map(|p| p.bsp_type).collect::<Vec<_>>(), vec![BSPType::Sell1, BSPType::Buy2]);
}

#[test]
fn service_windows_pens_and_segments() {
    let service = TradingServiceImpl::new(HealthMonitor::with_defaults());
    let klines: Vec<Kline> = [
        (10.0, 8.0), (9.0, 7.0), (10.0, 8.0), (11.0, 9.0), (12.0, 10.0), (11.0, 9.0),
        (10.0, 8.0), (9.0, 7.5), (10.0, 8.0), (11.0, 9.0), (10.0, 8.0),
    ]
    .iter()
    .enumerate()
    .map(|(i, &(h, l))| candle(i as i64, l, h, l, h))
    .collect();
    let all = service.calculate_pens(&klines, 0);
    assert_eq!(all, vec![
        Pen { confirmed: true, ..Pen::up(1, 4, px(7.0), px(12.0)) },
        Pen::down(4, 7, px(12.0), px(7.5)),
    ]);
    assert_eq!(service.calculate_pens(&klines, 1), vec![all[1]]);
    assert_eq!(service.calculate_pens(&klines, 5), all);
    assert!(service.calculate_segments(&klines, 0).is_empty());
}

#[test]
fn detection_from_candles_uses_the_default_macd() {
    let detector = DivergenceDetector::with_defaults();
    // Closes that rise fast, stall, and rise slowly: the histogram at the
    // second high lies below the histogram at the first.
    let mut closes: Vec<i64> = Vec::new();
    for i in 0..40 {
        closes.push(px(100.0) + px(2.0) * i);
    }
    for i in 0..10 {
        closes.push(px(178.0) - px(1.0) * i);
    }
    for i in 0..20 {
        closes.push(px(169.0) + px(0.6) * i);
    }
    let klines = closing_at(&closes);
    let macd = MACDCalculator::with_defaults().calculate(&klines);
    assert_eq!(macd.len(), 70);
    let pens = vec![
        Pen::up(0, 39, closes[0], closes[39]),
        Pen::down(39, 49, closes[39], closes[49]),
        Pen::up(49, 69, closes[49], closes[69]),
    ];
    assert!(closes[69] > closes[39]);
    assert!(macd[69].histogram < macd[39].histogram - px(0.01));
    let by_pen = detector.detect_pen_divergence(&pens, &klines);
    assert_eq!(by_pen, detector.detect_pen_divergence_with(&pens, &macd));
    assert_eq!(by_pen.len(), 1);
    assert_eq!(by_pen[0].div_type, DivergenceType::Bearish);
    assert_eq!((by_pen[0].price_a, by_pen[0].price_b), (closes[39], closes[69]));
    assert_eq!((by_pen[0].macd_a, by_pen[0].macd_b), (macd[39].histogram, macd[69].histogram));

    let segments = vec![
        up_segment(0, 39, 100.0, 178.0),
        down_segment(40, 48, 178.0, 169.0),
        up_segment(49, 69, 169.0, 180.4),
    ];
    let by_segment = detector.detect_segment_divergence(&segments, &klines);
    assert_eq!(by_segment, detector.detect_segment_divergence_with(&segments, &macd));
    assert_eq!(by_segment.len(), 1);
    assert_eq!(by_segment[0].level, DivergenceLevel::Segment);
    let by_both = detector.detect_multi_level_divergence(&pens, &segments, &klines);
    assert_eq!(by_both, detector.detect_multi_level_divergence_with(&pens, &segments, &macd));
    // The later pen, pen 2, lies before the later segment, which starts at
    // pen 49.
    assert!(by_both.is_empty());
    let around = vec![
        up_segment(0, 39, 100.0, 178.0),
        down_segment(40, 48, 178.0, 169.0),
        up_segment(2, 69, 169.0, 180.4),
    ];
    let raised = detector.detect_multi_level_divergence(&pens, &around, &klines);
    assert_eq!(raised.len(), 1);
    assert_eq!(raised[0].level, DivergenceLevel::MultiLevel);
    assert_eq!(raised[0].strength, (by_pen[0].strength + by_segment[0].strength) / 2);
    // Too few candles for the default periods: no histogram, no signal.
    assert!(detector.detect_pen_divergence(&pens, &klines[..20]).is_empty());
}

#[test]
fn points_come_grouped_by_class() {
    let pens = vec![
        Pen::up(0, 3, px(100.0), px(110.0)),
        Pen::down(3, 6, px(110.0), px(104.0)),
        Pen::up(6, 9, px(104.0), px(108.0)),
        Pen::up(9, 12, px(108.0), px(120.0)),
        Pen::down(12, 15, px(120.0), px(112.0)),
        Pen::up(15, 18, px(112.0), px(125.0)),
    ];
    let div = DivergenceSignal {
        div_type: DivergenceType::Bearish,
        level: DivergenceLevel::Pen,
        price_a: px(120.0),
        price_b: px(125.0),
        macd_a: px(0.9),
        macd_b: px(0.4),
        index: 18,
        strength: px(0.8),
    };
    let all = BSPDetector::with_defaults().detect_all(&pens, &[], &[div]);
    // The first-class point at candle 18 stands before the third-class
    // point at candle 15.
    assert_eq!(
        all.iter().map(|p| (p.bsp_type, p.index)).collect::<Vec<_>>(),
        vec![(BSPType::Sell1, 18), (BSPType::Buy3, 15)]
    );
}

#[test]
fn members_of_a_canonical_candle() {
    let one = trading_core::canonical::CanonicalCandle {
        idx: 0,
        t_first: 5,
        t_last: 9,
        high: px(2.0),
        low: px(1.0),
        first_member: 4,
        last_member: 6,
    };
    assert_eq!(one.members(), vec![4, 5, 6]);
    let none = trading_core::canonical::CanonicalCandle { first_member: 7, ..one };
    assert!(none.members().is_empty());
}

#[test]
fn measures_of_a_candle_that_is_not_well_formed() {
    let inverted = Kline::new(0, 5, 3, 4, 1, 0);
    assert_eq!(inverted.range(), -1);
    assert_eq!(inverted.body_size(), 4);
    assert_eq!(inverted.upper_shadow(), -2);
    assert_eq!(inverted.lower_shadow(), -3);
}

#[test]
fn milliseconds_are_capped_at_64_bits() {
    assert_eq!(LatencyTracker::capped_millis(0), 0);
    assert_eq!(LatencyTracker::capped_millis(12_345), 12_345);
    assert_eq!(LatencyTracker::capped_millis(u64::MAX as u128), u64::MAX);
    assert_eq!(LatencyTracker::capped_millis(u64::MAX as u128 + 1), u64::MAX);
    assert_eq!(LatencyTracker::capped_millis(u128::MAX), u64::MAX);
}
