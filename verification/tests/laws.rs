use trading_core::bsp::BSPType;
use trading_core::canonical::canonicalize;
use trading_core::divergence::{DivergenceLevel, DivergenceType};
use trading_core::engine::Engine;
use trading_core::kline::Kline;
use trading_core::pen::PenDirection;
use trading_core::pipeline::{analyze, Analysis, EngineConfig};

/// A zigzag of candles with swings of varying length, from a fixed
/// generator: the same series every time.
fn zigzag(count: usize, seed: u64) -> Vec<Kline> {
    let mut state = seed;
    let mut next = move || {
        state = state.wrapping_mul(6364136223846793005).wrapping_add(1442695040888963407);
        (state >> 33) as i64
    };
    let mut out = Vec::with_capacity(count);
    let mut price: i64 = 100_000_000;
    let mut rising = true;
    let mut left = 0;
    for i in 0..count {
        if left == 0 {
            rising = !rising;
            left = 2 + next() % 9;
        }
        left -= 1;
        let step = 200_000 + next() % 900_000;
        let open = price;
        price = if rising { price + step } else { price - step };
        let wick_up = next() % 300_000;
        let wick_down = next() % 300_000;
        let high = open.max(price) + wick_up;
        let low = open.min(price) - wick_down;
        out.push(Kline::new(1_700_000_000_000 + 60_000 * i as i64, open, high, low, price, 1_000_000));
    }
    out
}

fn included(a: (i64, i64), b: (i64, i64)) -> bool {
    (a.0 >= b.0 && a.1 <= b.1) || (b.0 >= a.0 && b.1 <= a.1)
}

fn run(klines: &[Kline]) -> Analysis {
    for k in klines {
        assert!(k.is_well_formed());
    }
    analyze(&EngineConfig::default(), klines)
}

#[test]
fn canonical_candles_stand_in_no_inclusion() {
    for seed in 1..6 {
        let klines = zigzag(400, seed);
        let canonical = canonicalize(&klines);
        assert!(canonical.len() <= klines.len());
        assert!(!canonical.is_empty());
        for (i, c) in canonical.iter().enumerate() {
            assert_eq!(c.idx, i);
            assert!(c.first_member <= c.last_member);
            assert_eq!(c.t_first, klines[c.first_member].timestamp);
            assert_eq!(c.t_last, klines[c.last_member].timestamp);
        }
        assert_eq!(canonical[0].first_member, 0);
        assert_eq!(canonical[canonical.len() - 1].last_member, klines.len() - 1);
        for pair in canonical.windows(2) {
            assert!(!included((pair[0].high, pair[0].low), (pair[1].high, pair[1].low)));
            assert_eq!(pair[0].last_member + 1, pair[1].first_member);
        }
    }
}

#[test]
fn pens_form_a_chain() {
    for seed in 1..6 {
        let analysis = run(&zigzag(600, seed));
        let pens = &analysis.pens;
        assert!(pens.len() >= 10);
        for (i, pen) in pens.iter().enumerate() {
            assert!(pen.is_valid());
            assert!(pen.end_idx - pen.start_idx >= 3);
            assert_eq!(pen.confirmed, i + 1 < pens.len());
            let start = analysis.canonical[pen.start_idx];
            let end = analysis.canonical[pen.end_idx];
            match pen.direction {
                PenDirection::Up => assert_eq!((pen.start_price, pen.end_price), (start.low, end.high)),
                PenDirection::Down => assert_eq!((pen.start_price, pen.end_price), (start.high, end.low)),
            }
        }
        for pair in pens.windows(2) {
            assert_ne!(pair[0].direction, pair[1].direction);
            assert_eq!(pair[0].end_idx, pair[1].start_idx);
            assert_eq!(pair[0].end_price, pair[1].start_price);
        }
    }
}

#[test]
fn segments_are_sound_and_linked() {
    let mut seen = 0;
    for seed in 1..9 {
        let analysis = run(&zigzag(1500, seed));
        let confirmed = &analysis.pens[..analysis.pens.len() - 1];
        let segments = &analysis.segments;
        seen += segments.len();
        for seg in segments {
            assert!(seg.pen_count() >= 3);
            assert_eq!(seg.pen_count() % 2, 1);
            assert_eq!(seg.pen_count(), seg.end_pen_idx - seg.start_pen_idx + 1);
            assert_eq!(seg.contained_pens, confirmed[seg.start_pen_idx..=seg.end_pen_idx].to_vec());
            assert_eq!(seg.direction, confirmed[seg.start_pen_idx].direction);
            assert_eq!(seg.direction, confirmed[seg.end_pen_idx].direction);
            assert_eq!(seg.start_price, confirmed[seg.start_pen_idx].start_price);
            assert_eq!(seg.end_price, confirmed[seg.end_pen_idx].end_price);
        }
        for pair in segments.windows(2) {
            assert!(pair[0].confirmed);
            assert_ne!(pair[0].direction, pair[1].direction);
            assert_eq!(pair[0].end_pen_idx + 1, pair[1].start_pen_idx);
            assert_eq!(pair[0].end_price, pair[1].start_price);
        }
        if let Some(first) = segments.first() {
            assert_eq!(first.start_pen_idx, 0);
        }
    }
    assert!(seen >= 8);
}

#[test]
fn confirmed_records_survive_more_candles() {
    for seed in 1..5 {
        let klines = zigzag(700, seed);
        let whole = run(&klines);
        for cut in (1..klines.len()).step_by(7) {
            let part = run(&klines[..cut]);
            for (i, pen) in part.pens.iter().enumerate() {
                if pen.confirmed {
                    assert_eq!(whole.pens[i], *pen);
                }
            }
            for (i, seg) in part.segments.iter().enumerate() {
                if seg.confirmed {
                    let later = &whole.segments[i];
                    assert!(later.confirmed);
                    assert_eq!(later.direction, seg.direction);
                    assert_eq!(
                        (later.start_pen_idx, later.end_pen_idx, later.start_price, later.end_price),
                        (seg.start_pen_idx, seg.end_pen_idx, seg.start_price, seg.end_price)
                    );
                    assert_eq!(later.contained_pens, seg.contained_pens);
                }
            }
        }
    }
}

#[test]
fn segments_start_where_the_one_before_ends() {
    for seed in 1..5 {
        let analysis = run(&zigzag(1500, seed));
        for pair in analysis.segments.windows(2) {
            assert_eq!(pair[0].end_price, pair[1].start_price);
        }
        assert_eq!(analysis.latest_pens(3), analysis.pens[analysis.pens.len() - 3..].to_vec());
        assert_eq!(analysis.latest_macd(0), analysis.macd);
        assert_eq!(analysis.latest_divergences(0), analysis.divergences);
        assert_eq!(analysis.latest_segments(0).len(), analysis.segments.len());
        assert_eq!(analysis.latest_bsps(1).len(), analysis.bsps.len().min(1));
    }
}

#[test]
fn indices_rise_along_every_stream() {
    for seed in 1..5 {
        let analysis = run(&zigzag(1500, seed));
        for pair in analysis.canonical.windows(2) {
            assert!(pair[0].idx < pair[1].idx);
        }
        for pair in analysis.pens.windows(2) {
            assert!(pair[0].start_idx < pair[1].start_idx);
            assert!(pair[0].end_idx < pair[1].end_idx);
        }
        for pair in analysis.segments.windows(2) {
            assert!(pair[0].end_pen_idx < pair[1].start_pen_idx);
        }
        for level in [DivergenceLevel::Pen, DivergenceLevel::Segment, DivergenceLevel::MultiLevel] {
            let at: Vec<usize> =
                analysis.divergences.iter().filter(|d| d.level == level).map(|d| d.index).collect();
            for pair in at.windows(2) {
                assert!(pair[0] < pair[1]);
            }
        }
    }
}

#[test]
fn histogram_is_line_minus_signal() {
    let analysis = run(&zigzag(300, 3));
    assert_eq!(analysis.macd.len(), analysis.canonical.len());
    assert!(analysis.macd.iter().any(|v| v.histogram != 0));
    for v in &analysis.macd {
        assert_eq!(v.histogram, v.macd_line - v.signal_line);
    }
}

#[test]
fn divergences_and_points_are_well_formed() {
    let mut divergences = 0;
    let mut points = 0;
    for seed in 1..9 {
        let analysis = run(&zigzag(1500, seed));
        for d in &analysis.divergences {
            divergences += 1;
            assert!(d.strength >= 0 && d.strength <= 1_000_000);
            match d.div_type {
                DivergenceType::Bullish => assert!(d.price_b < d.price_a && d.macd_b > d.macd_a),
                DivergenceType::Bearish => assert!(d.price_b > d.price_a && d.macd_b < d.macd_a),
            }
        }
        for p in &analysis.bsps {
            points += 1;
            assert!(p.confidence >= 600_000 && p.confidence <= 1_000_000);
            match p.bsp_type {
                BSPType::Buy1 => {
                    let d = p.divergence.unwrap();
                    assert_eq!(d.div_type, DivergenceType::Bullish);
                    assert!(d.price_b < d.price_a && d.macd_b > d.macd_a);
                }
                BSPType::Sell1 => {
                    let d = p.divergence.unwrap();
                    assert_eq!(d.div_type, DivergenceType::Bearish);
                    assert!(d.price_b > d.price_a && d.macd_b < d.macd_a);
                }
                _ => assert_eq!(p.divergence, None),
            }
        }
    }
    assert!(divergences > 0);
    assert!(points > 0);
}

fn same(a: &Analysis, b: &Analysis) -> bool {
    format!("{:?}", a) == format!("{:?}", b)
}

#[test]
fn the_same_series_gives_the_same_analysis() {
    let klines = zigzag(800, 11);
    let first = run(&klines);
    let second = run(&klines);
    assert!(same(&first, &second));
    assert!(!first.pens.is_empty());
}

#[test]
fn feeding_one_by_one_or_at_once_comes_to_the_same() {
    let klines = zigzag(500, 5);
    let mut at_once = Engine::new(EngineConfig::default());
    assert_eq!(at_once.submit(&klines), Ok(klines.len()));

    let mut one_by_one = Engine::new(EngineConfig::default());
    for k in &klines {
        assert_eq!(one_by_one.submit(&[*k]), Ok(1));
    }
    let mut in_parts = Engine::new(EngineConfig::default());
    assert_eq!(in_parts.submit(&klines[..123]), Ok(123));
    assert_eq!(in_parts.submit(&klines[123..]), Ok(klines.len() - 123));

    assert_eq!(one_by_one.len(), at_once.len());
    let whole = at_once.analyze();
    assert!(same(&whole, &one_by_one.analyze()));
    assert!(same(&whole, &in_parts.analyze()));
    assert!(same(&whole, &run(&klines)));
    assert_eq!(at_once.get_config(), EngineConfig::default());
    assert!(same(&whole, &at_once.analyze_with(&EngineConfig::default())));
}
