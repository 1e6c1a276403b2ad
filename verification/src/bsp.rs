//! Buy and sell points of the three classes.

use vstd::prelude::*;
use vstd::string::StringExecFns;
use crate::divergence::DivergenceLevel;
use crate::divergence::DivergenceSignal;
use crate::divergence::DivergenceType;
use crate::divergence::all_well_formed;
use crate::fixed::SCALE;
use crate::fixed::lesser;
use crate::fixed::magnitude;
use crate::pen::Pen;
use crate::pen::PenDirection;
use crate::segment::Segment;
use crate::text::percent_one_decimal;
use crate::text::two_decimals;

verus! {

/// Length of a run of pens of one direction from which a trend counts as
/// extended.
pub const EXTENDED_TREND_PENS: usize = 5;

/// Confidence that an extended trend is averaged with: `0.8`.
pub const TREND_CONFIDENCE: i64 = 800_000;

/// Confidence of a point of the second class: `0.7`.
pub const SECOND_CLASS_CONFIDENCE: i64 = 700_000;

/// Confidence of a point of the third class: `0.7`.
pub const THIRD_CLASS_CONFIDENCE: i64 = 700_000;

/// Class and side of a buy or sell point.
#[derive(Debug, Clone, Copy, PartialEq, Eq, Structural)]
pub enum BSPType {
    /// First buy point: a bullish divergence at the end of a fall.
    Buy1,
    /// Second buy point: a pullback that makes no new low.
    Buy2,
    /// Third buy point: a pullback that stays above a center it left.
    Buy3,
    /// First sell point: a bearish divergence at the end of a rise.
    Sell1,
    /// Second sell point: a rally that makes no new high.
    Sell2,
    /// Third sell point: a rally that stays below a center it left.
    Sell3,
}

impl BSPType {
    /// Whether this is one of the three buy classes.
    pub open spec fn buys(self) -> bool {
        self == BSPType::Buy1 || self == BSPType::Buy2 || self == BSPType::Buy3
    }

    /// Whether this is one of the three buy classes.
    pub fn is_buy(&self) -> (b: bool)
        ensures
            b == self.buys(),
    {
        match self {
            BSPType::Buy1 | BSPType::Buy2 | BSPType::Buy3 => true,
            _ => false,
        }
    }

    /// Whether this is one of the three sell classes.
    pub fn is_sell(&self) -> (b: bool)
        ensures
            b == !self.buys(),
    {
        match self {
            BSPType::Sell1 | BSPType::Sell2 | BSPType::Sell3 => true,
            _ => false,
        }
    }
}

/// A buy or sell point.
#[derive(Debug, Clone)]
pub struct BuySellPoint {
    /// Class and side.
    pub bsp_type: BSPType,
    /// Price at the point.
    pub price: i64,
    /// Position of the point.
    pub index: usize,
    /// Confidence, between `0` and `1.0`.
    pub confidence: i64,
    /// The divergence a first-class point arose from.
    pub divergence: Option<DivergenceSignal>,
    /// The reasoning, in words.
    pub notes: String,
}

/// What a buy or sell point holds, as mathematical values.
pub struct BspModel {
    /// Class and side.
    pub bsp_type: BSPType,
    /// Price at the point.
    pub price: i64,
    /// Position of the point.
    pub index: usize,
    /// Confidence.
    pub confidence: i64,
    /// The divergence a first-class point arose from.
    pub divergence: Option<DivergenceSignal>,
    /// The reasoning, in words.
    pub notes: Seq<char>,
}

impl View for BuySellPoint {
    type V = BspModel;

    open spec fn view(&self) -> BspModel {
        BspModel {
            bsp_type: self.bsp_type,
            price: self.price,
            index: self.index,
            confidence: self.confidence,
            divergence: self.divergence,
            notes: self.notes@,
        }
    }
}

impl BuySellPoint {
    /// A copy of the point.
    pub fn duplicate(&self) -> (b: Self)
        ensures
            b@ == self@,
    {
        BuySellPoint {
            bsp_type: self.bsp_type,
            price: self.price,
            index: self.index,
            confidence: self.confidence,
            divergence: self.divergence,
            notes: self.notes.clone(),
        }
    }
}

/// The models of a sequence of points.
pub open spec fn models_of(points: Seq<BuySellPoint>) -> Seq<BspModel> {
    Seq::new(points.len(), |i: int| points[i]@)
}

/// Switches and thresholds of the classifier.
#[derive(Debug, Clone, Copy, PartialEq, Eq, Structural)]
pub struct BSPConfig {
    /// Smallest confidence a reported point has.
    pub min_confidence: i64,
    /// Whether points of the first class are reported.
    pub enable_bsp1: bool,
    /// Whether points of the second class are reported.
    pub enable_bsp2: bool,
    /// Whether points of the third class are reported.
    pub enable_bsp3: bool,
    /// Largest retracement ratio of a point of the second class.
    pub pullback_threshold_pct: i64,
}

impl Default for BSPConfig {
    fn default() -> (c: Self)
        ensures
            c == (BSPConfig {
                min_confidence: 600_000,
                enable_bsp1: true,
                enable_bsp2: true,
                enable_bsp3: true,
                pullback_threshold_pct: 382_000,
            }),
    {
        BSPConfig {
            min_confidence: 600_000,
            enable_bsp1: true,
            enable_bsp2: true,
            enable_bsp3: true,
            pullback_threshold_pct: 382_000,
        }
    }
}

/// Number of pens of direction `dir` that end the stretch `pens[..=i]`.
pub open spec fn run_back(pens: Seq<Pen>, dir: PenDirection, i: int) -> nat
    decreases i + 1,
{
    if i < 0 || i >= pens.len() || pens[i].direction != dir {
        0
    } else {
        1 + run_back(pens, dir, i - 1)
    }
}

/// Length of the run of pens of one direction that ends at pen `index`;
/// zero where there is no such pen.
pub open spec fn trend_run(pens: Seq<Pen>, index: int) -> nat {
    if 0 <= index < pens.len() {
        run_back(pens, pens[index].direction, index)
    } else {
        0
    }
}

/// Confidence of a first-class point: the strength of the divergence,
/// averaged with `1.0` for a multi-level divergence, then averaged with
/// `0.8` behind a run of five or more pens of one direction, and capped at
/// `1.0`.
pub open spec fn first_confidence(div: DivergenceSignal, pens: Seq<Pen>) -> int {
    let c0 = div.strength as int;
    let c1 = if div.level == DivergenceLevel::MultiLevel {
        (c0 + SCALE) / 2
    } else {
        c0
    };
    let c2 = if trend_run(pens, div.index as int) >= EXTENDED_TREND_PENS {
        (c1 + TREND_CONFIDENCE) / 2
    } else {
        c1
    };
    lesser(c2, SCALE as int)
}

/// The words for a divergence level.
pub open spec fn level_label(level: DivergenceLevel) -> Seq<char> {
    match level {
        DivergenceLevel::Pen => "pen-level"@,
        DivergenceLevel::Segment => "segment-level"@,
        DivergenceLevel::MultiLevel => "multi-level"@,
    }
}

/// Text of a fixed-point value with two decimals and its sign.
pub open spec fn signed_two_decimals(x: int) -> Seq<char> {
    if x < 0 {
        "-"@ + two_decimals((-x) as nat)
    } else {
        two_decimals(x as nat)
    }
}

/// Notes of a first-class point.
pub open spec fn first_notes(div: DivergenceSignal) -> Seq<char> {
    (if div.div_type == DivergenceType::Bullish {
        "1st buy point - "@
    } else {
        "1st sell point - "@
    }) + level_label(div.level) + " divergence (strength: "@ + signed_two_decimals(
        div.strength as int,
    ) + ")"@
}

/// The first-class point that a divergence gives.
pub open spec fn first_point(div: DivergenceSignal, pens: Seq<Pen>) -> BspModel {
    BspModel {
        bsp_type: if div.div_type == DivergenceType::Bullish {
            BSPType::Buy1
        } else {
            BSPType::Sell1
        },
        price: div.price_b,
        index: div.index,
        confidence: first_confidence(div, pens) as i64,
        divergence: Some(div),
        notes: first_notes(div),
    }
}

/// The first-class points of the first `n` divergences: one for each whose
/// confidence reaches the threshold, in order.
pub open spec fn first_points_upto(
    min_confidence: i64,
    pens: Seq<Pen>,
    divs: Seq<DivergenceSignal>,
    n: int,
) -> Seq<BspModel>
    decreases n,
{
    if n <= 0 {
        Seq::empty()
    } else {
        let before = first_points_upto(min_confidence, pens, divs, n - 1);
        if first_confidence(divs[n - 1], pens) >= min_confidence {
            before.push(first_point(divs[n - 1], pens))
        } else {
            before
        }
    }
}

/// All first-class points of the given divergences.
pub open spec fn first_points(min_confidence: i64, pens: Seq<Pen>, divs: Seq<DivergenceSignal>) -> Seq<
    BspModel,
> {
    first_points_upto(min_confidence, pens, divs, divs.len() as int)
}

/// Every point has a confidence of at least `min_confidence`.
pub open spec fn all_confident(points: Seq<BspModel>, min_confidence: i64) -> bool {
    forall|i: int| 0 <= i < points.len() ==> (#[trigger] points[i]).confidence >= min_confidence
}

/// Every confidence lies between `0` and `1.0`.
pub open spec fn all_unit_confidence(points: Seq<BspModel>) -> bool {
    forall|i: int| 0 <= i < points.len() ==> 0 <= (#[trigger] points[i]).confidence <= SCALE
}

/// Every first-class point carries a well-formed divergence of its side:
/// a buy point a bullish one, a sell point a bearish one.
pub open spec fn all_first_class_diverge(points: Seq<BspModel>) -> bool {
    forall|i: int|
        0 <= i < points.len() ==> {
            let p = #[trigger] points[i];
            &&& p.bsp_type == BSPType::Buy1 ==> p.divergence is Some && p.divergence->0.well_formed()
                && p.divergence->0.div_type == DivergenceType::Bullish
            &&& p.bsp_type == BSPType::Sell1 ==> p.divergence is Some
                && p.divergence->0.well_formed() && p.divergence->0.div_type
                == DivergenceType::Bearish
        }
}

/// Whether pen `j` is the pen at whose end the first-class point `f` sits:
/// a down pen for a buy point, an up pen for a sell point, ending at the
/// point's index and price.
pub open spec fn anchored_at(pens: Seq<Pen>, f: BspModel, j: int) -> bool {
    &&& 0 <= j < pens.len()
    &&& pens[j].end_idx == f.index
    &&& pens[j].end_price == f.price
    &&& (f.bsp_type == BSPType::Buy1 && pens[j].direction == PenDirection::Down) || (f.bsp_type
        == BSPType::Sell1 && pens[j].direction == PenDirection::Up)
}

/// The first pen from `j` on at whose end `f` sits.
pub open spec fn anchor_from(pens: Seq<Pen>, f: BspModel, j: int) -> Option<int>
    decreases pens.len() - j,
{
    if j < 0 || j >= pens.len() {
        None
    } else if anchored_at(pens, f, j) {
        Some(j)
    } else {
        anchor_from(pens, f, j + 1)
    }
}

/// Whether `p` runs the way of `anchor` without passing the extreme that
/// `anchor` ended at: no new low for down pens, no new high for up pens.
pub open spec fn holds_extreme(anchor: Pen, p: Pen) -> bool {
    &&& p.direction == anchor.direction
    &&& match anchor.direction {
        PenDirection::Down => p.end_price > anchor.end_price,
        PenDirection::Up => p.end_price < anchor.end_price,
    }
}

/// The first pen from `i` on that holds the extreme of pen `j`.
pub open spec fn follower_from(pens: Seq<Pen>, j: int, i: int) -> Option<int>
    decreases pens.len() - i,
{
    if i < 0 || i >= pens.len() || j < 0 || j >= pens.len() {
        None
    } else if holds_extreme(pens[j], pens[i]) {
        Some(i)
    } else {
        follower_from(pens, j, i + 1)
    }
}

/// Distance between the ends of `curr` and `prev` over the range of `prev`,
/// rounded down; `1.0` where `prev` has no range.
pub open spec fn pullback_ratio(prev: Pen, curr: Pen) -> int {
    let range = magnitude(prev.end_price - prev.start_price);
    if range == 0 {
        SCALE as int
    } else {
        (magnitude(curr.end_price - prev.end_price) * SCALE) / range
    }
}

/// Notes of a second-class point.
pub open spec fn second_notes(buy: bool, ratio: int) -> Seq<char> {
    (if buy {
        "2nd buy point - pullback without new low (retracement: "@
    } else {
        "2nd sell point - rally without new high (retracement: "@
    }) + percent_one_decimal(ratio as nat) + "%)"@
}

/// The second-class point behind the first-class point `f`: the next pen of
/// the direction of the pen that `f` sits on which makes no new extreme, if
/// it retraces by no more than `threshold`.
pub open spec fn second_point(threshold: i64, pens: Seq<Pen>, f: BspModel) -> Option<BspModel> {
    match anchor_from(pens, f, 0) {
        Some(j) => match follower_from(pens, j, j + 1) {
            Some(i) => {
                let ratio = pullback_ratio(pens[j], pens[i]);
                if ratio <= threshold {
                    Some(
                        BspModel {
                            bsp_type: if f.bsp_type == BSPType::Buy1 {
                                BSPType::Buy2
                            } else {
                                BSPType::Sell2
                            },
                            price: pens[i].end_price,
                            index: pens[i].end_idx,
                            confidence: SECOND_CLASS_CONFIDENCE,
                            divergence: None,
                            notes: second_notes(f.bsp_type == BSPType::Buy1, ratio),
                        },
                    )
                } else {
                    None
                }
            },
            None => None,
        },
        None => None,
    }
}

/// The second-class points behind the first `n` first-class points.
pub open spec fn second_points_upto(threshold: i64, pens: Seq<Pen>, firsts: Seq<BspModel>, n: int) -> Seq<
    BspModel,
>
    decreases n,
{
    if n <= 0 {
        Seq::empty()
    } else {
        let before = second_points_upto(threshold, pens, firsts, n - 1);
        match second_point(threshold, pens, firsts[n - 1]) {
            Some(p) => before.push(p),
            None => before,
        }
    }
}

/// All second-class points behind the given first-class points.
pub open spec fn second_points(threshold: i64, pens: Seq<Pen>, firsts: Seq<BspModel>) -> Seq<BspModel> {
    second_points_upto(threshold, pens, firsts, firsts.len() as int)
}

/// The zone in which three consecutive pens overlap.
#[derive(Debug, Clone, Copy, PartialEq, Eq, Structural)]
pub struct Center {
    /// Index of the first of the three pens.
    pub start_pen_idx: usize,
    /// Index of the last of the three pens.
    pub end_pen_idx: usize,
    /// Upper bound of the zone: the lowest top of the three pens.
    pub top: i64,
    /// Lower bound of the zone: the highest bottom of the three pens.
    pub bottom: i64,
}

/// The lowest top of the pens `i`, `i + 1` and `i + 2`.
pub open spec fn zone_top(pens: Seq<Pen>, i: int) -> int {
    lesser(lesser(pens[i].top(), pens[i + 1].top()), pens[i + 2].top())
}

/// The highest bottom of the pens `i`, `i + 1` and `i + 2`.
pub open spec fn zone_bottom(pens: Seq<Pen>, i: int) -> int {
    crate::fixed::greater(
        crate::fixed::greater(pens[i].bottom(), pens[i + 1].bottom()),
        pens[i + 2].bottom(),
    )
}

/// The center that the pens `i`, `i + 1` and `i + 2` form: their common
/// price range, where it is more than a single price.
pub open spec fn center_at(pens: Seq<Pen>, i: int) -> Option<Center> {
    if 0 <= i && i + 2 < pens.len() && zone_bottom(pens, i) < zone_top(pens, i) {
        Some(
            Center {
                start_pen_idx: i as usize,
                end_pen_idx: (i + 2) as usize,
                top: zone_top(pens, i) as i64,
                bottom: zone_bottom(pens, i) as i64,
            },
        )
    } else {
        None
    }
}

/// The centers that start at a pen below `n`, in order.
pub open spec fn centers_upto(pens: Seq<Pen>, n: int) -> Seq<Center>
    decreases n,
{
    if n <= 0 {
        Seq::empty()
    } else {
        match center_at(pens, n - 1) {
            Some(c) => centers_upto(pens, n - 1).push(c),
            None => centers_upto(pens, n - 1),
        }
    }
}

/// Notes of a third-class point.
pub open spec fn third_notes(buy: bool) -> Seq<char> {
    if buy {
        "3rd buy point - pullback holds above the center"@
    } else {
        "3rd sell point - rally holds below the center"@
    }
}

/// The third-class point of the center at pens `i..i + 2`: pen `i + 3`
/// leaves the center upward and pen `i + 4` pulls back to a low strictly
/// above the center's top (a buy), or the mirror image below the center's
/// bottom (a sell).
pub open spec fn third_point_at(pens: Seq<Pen>, i: int) -> Option<BspModel> {
    match center_at(pens, i) {
        Some(c) => if i + 4 < pens.len() {
            let leave = pens[i + 3];
            let back = pens[i + 4];
            let buy = leave.direction == PenDirection::Up && leave.end_price > c.top
                && back.direction == PenDirection::Down && back.end_price > c.top;
            let sell = leave.direction == PenDirection::Down && leave.end_price < c.bottom
                && back.direction == PenDirection::Up && back.end_price < c.bottom;
            if buy || sell {
                Some(
                    BspModel {
                        bsp_type: if buy {
                            BSPType::Buy3
                        } else {
                            BSPType::Sell3
                        },
                        price: back.end_price,
                        index: back.end_idx,
                        confidence: THIRD_CLASS_CONFIDENCE,
                        divergence: None,
                        notes: third_notes(buy),
                    },
                )
            } else {
                None
            }
        } else {
            None
        },
        None => None,
    }
}

/// The third-class points of the centers that start at a pen below `n`.
pub open spec fn third_points_upto(pens: Seq<Pen>, n: int) -> Seq<BspModel>
    decreases n,
{
    if n <= 0 {
        Seq::empty()
    } else {
        match third_point_at(pens, n - 1) {
            Some(p) => third_points_upto(pens, n - 1).push(p),
            None => third_points_upto(pens, n - 1),
        }
    }
}

/// All third-class points of a pen sequence.
pub open spec fn third_points(pens: Seq<Pen>) -> Seq<BspModel> {
    third_points_upto(pens, pens.len() as int)
}

/// Those of the first `n` points whose confidence reaches `min_confidence`.
pub open spec fn confident_upto(min_confidence: i64, points: Seq<BspModel>, n: int) -> Seq<BspModel>
    decreases n,
{
    if n <= 0 {
        Seq::empty()
    } else if points[n - 1].confidence >= min_confidence {
        confident_upto(min_confidence, points, n - 1).push(points[n - 1])
    } else {
        confident_upto(min_confidence, points, n - 1)
    }
}

/// Those points whose confidence reaches `min_confidence`.
pub open spec fn confident(min_confidence: i64, points: Seq<BspModel>) -> Seq<BspModel> {
    confident_upto(min_confidence, points, points.len() as int)
}

/// The points of the classes that are switched on, first class first, each
/// with a confidence of at least `min_confidence`. Second-class points
/// follow the first-class points that were found, reported or not.
pub open spec fn all_points(config: BSPConfig, pens: Seq<Pen>, divs: Seq<DivergenceSignal>) -> Seq<
    BspModel,
> {
    let firsts = first_points(config.min_confidence, pens, divs);
    let seconds = second_points(config.pullback_threshold_pct, pens, firsts);
    let thirds = third_points(pens);
    (if config.enable_bsp1 {
        confident(config.min_confidence, firsts)
    } else {
        Seq::empty()
    }) + (if config.enable_bsp2 {
        confident(config.min_confidence, seconds)
    } else {
        Seq::empty()
    }) + (if config.enable_bsp3 {
        confident(config.min_confidence, thirds)
    } else {
        Seq::empty()
    })
}

/// Classifies buy and sell points.
#[derive(Debug, Clone, Copy)]
pub struct BSPDetector {
    config: BSPConfig,
}

impl BSPDetector {
    /// The switches and thresholds this detector uses.
    pub closed spec fn config(&self) -> BSPConfig {
        self.config
    }

    /// A detector with the given switches and thresholds.
    pub fn new(config: BSPConfig) -> (d: Self)
        ensures
            d.config() == config,
    {
        BSPDetector { config }
    }

    /// A detector that reports all classes from confidence `0.6` and takes
    /// retracements up to `0.382`.
    pub fn with_defaults() -> (d: Self)
        ensures
            d.config() == (BSPConfig {
                min_confidence: 600_000,
                enable_bsp1: true,
                enable_bsp2: true,
                enable_bsp3: true,
                pullback_threshold_pct: 382_000,
            }),
    {
        BSPDetector {
            config: BSPConfig {
                min_confidence: 600_000,
                enable_bsp1: true,
                enable_bsp2: true,
                enable_bsp3: true,
                pullback_threshold_pct: 382_000,
            },
        }
    }

    /// The switches and thresholds this detector uses.
    pub fn get_config(&self) -> (c: BSPConfig)
        ensures
            c == self.config(),
    {
        self.config
    }

    /// Length of the run of pens of one direction that ends at pen `index`;
    /// zero where `index` is past the pens.
    pub fn count_consecutive_pens_same_direction(&self, pens: &[Pen], index: usize) -> (count: usize)
        ensures
            count == trend_run(pens@, index as int),
    {
        if index >= pens.len() {
            return 0;
        }
        let target = pens[index].direction;
        let mut count: usize = 0;
        let mut i: usize = index + 1;
        while i > 0 && pens[i - 1].direction == target
            invariant
                0 <= i <= index + 1,
                index < pens@.len(),
                target == pens@[index as int].direction,
                count == index + 1 - i,
                count + run_back(pens@, target, i - 1) == run_back(pens@, target, index as int),
            decreases i,
        {
            count = count + 1;
            i = i - 1;
        }
        count
    }

    /// Confidence of the first-class point that `div` gives.
    pub fn calculate_bsp1_confidence(&self, div: &DivergenceSignal, pens: &[Pen]) -> (c: i64)
        ensures
            c == first_confidence(*div, pens@),
            c <= SCALE,
            div.well_formed() ==> 0 <= c,
    {
        let mut confidence: i128 = div.strength as i128;
        if div.level == DivergenceLevel::MultiLevel {
            confidence = crate::fixed::div_floor(confidence + SCALE as i128, 2);
        }
        let trend_pens = self.count_consecutive_pens_same_direction(pens, div.index);
        if trend_pens >= EXTENDED_TREND_PENS {
            confidence = crate::fixed::div_floor(confidence + TREND_CONFIDENCE as i128, 2);
        }
        if confidence > SCALE as i128 {
            SCALE
        } else {
            confidence as i64
        }
    }

    /// The words for a divergence level.
    fn level_text(level: DivergenceLevel) -> (s: &'static str)
        ensures
            s@ == level_label(level),
    {
        match level {
            DivergenceLevel::Pen => "pen-level",
            DivergenceLevel::Segment => "segment-level",
            DivergenceLevel::MultiLevel => "multi-level",
        }
    }

    /// Notes of the first-class point that `div` gives.
    fn first_note(div: &DivergenceSignal) -> (s: String)
        ensures
            s@ == first_notes(*div),
    {
        let mut s = match div.div_type {
            DivergenceType::Bullish => String::from_str("1st buy point - "),
            DivergenceType::Bearish => String::from_str("1st sell point - "),
        };
        s.append(Self::level_text(div.level));
        s.append(" divergence (strength: ");
        if div.strength < 0 {
            s.append("-");
        }
        let digits = crate::text::render_two_decimals(crate::fixed::abs_diff(div.strength, 0));
        s.append(digits.as_str());
        s.append(")");
        assert(s@ =~= first_notes(*div));
        s
    }

    /// First-class points: one for each divergence whose confidence reaches
    /// the threshold, a buy point for a bullish divergence and a sell point
    /// for a bearish one, at the price and index of the later swing.
    pub fn detect_bsp1(&self, pens: &[Pen], divergences: &[DivergenceSignal]) -> (out: Vec<BuySellPoint>)
        ensures
            models_of(out@) == first_points(self.config().min_confidence, pens@, divergences@),
            all_confident(models_of(out@), self.config().min_confidence),
            all_well_formed(divergences@) ==> all_unit_confidence(models_of(out@))
                && all_first_class_diverge(models_of(out@)),
    {
        let mut out: Vec<BuySellPoint> = Vec::new();
        let n = divergences.len();
        let mut i: usize = 0;
        assert(models_of(out@) =~= Seq::<BspModel>::empty());
        while i < n
            invariant
                i <= n,
                n == divergences@.len(),
                models_of(out@) == first_points_upto(
                    self.config().min_confidence,
                    pens@,
                    divergences@,
                    i as int,
                ),
                all_confident(models_of(out@), self.config().min_confidence),
                all_well_formed(divergences@) ==> all_unit_confidence(models_of(out@))
                    && all_first_class_diverge(models_of(out@)),
            decreases n - i,
        {
            let div = divergences[i];
            let confidence = self.calculate_bsp1_confidence(&div, pens);
            if confidence >= self.config.min_confidence {
                let ghost before = models_of(out@);
                let point = BuySellPoint {
                    bsp_type: match div.div_type {
                        DivergenceType::Bullish => BSPType::Buy1,
                        DivergenceType::Bearish => BSPType::Sell1,
                    },
                    price: div.price_b,
                    index: div.index,
                    confidence,
                    divergence: Some(div),
                    notes: Self::first_note(&div),
                };
                assert(point@ == first_point(div, pens@));
                out.push(point);
                assert(models_of(out@) =~= before.push(first_point(div, pens@)));
                assert(all_well_formed(divergences@) ==> div.well_formed());
            }
            i = i + 1;
        }
        out
    }

    /// Distance between the ends of `curr` and `prev` over the range of
    /// `prev`; `1.0` where `prev` has no range.
    pub fn calculate_pullback_ratio(&self, prev: &Pen, curr: &Pen) -> (r: u128)
        ensures
            r == pullback_ratio(*prev, *curr),
    {
        let range = crate::fixed::abs_diff(prev.end_price, prev.start_price);
        if range == 0 {
            return SCALE as u128;
        }
        let pullback = crate::fixed::abs_diff(curr.end_price, prev.end_price);
        assert(pullback * SCALE <= 0xffff_ffff_ffff_ffff * 1_000_000) by (nonlinear_arith)
            requires
                0 <= pullback <= 0xffff_ffff_ffff_ffff,
                SCALE == 1_000_000,
        ;
        (pullback as u128 * SCALE as u128) / (range as u128)
    }

    /// The first pen at whose end the first-class point `first` sits.
    fn find_anchor(pens: &[Pen], first: &BuySellPoint) -> (r: Option<usize>)
        ensures
            match r {
                Some(j) => anchor_from(pens@, first@, 0) == Some(j as int) && j < pens@.len(),
                None => anchor_from(pens@, first@, 0) is None,
            },
    {
        let wanted = match first.bsp_type {
            BSPType::Buy1 => PenDirection::Down,
            BSPType::Sell1 => PenDirection::Up,
            _ => {
                proof {
                    lemma_no_anchor(pens@, first@, 0);
                }
                return None;
            },
        };
        let n = pens.len();
        let mut j: usize = 0;
        while j < n
            invariant
                j <= n,
                n == pens@.len(),
                first.bsp_type == BSPType::Buy1 || first.bsp_type == BSPType::Sell1,
                wanted == (if first.bsp_type == BSPType::Buy1 {
                    PenDirection::Down
                } else {
                    PenDirection::Up
                }),
                anchor_from(pens@, first@, 0) == anchor_from(pens@, first@, j as int),
            decreases n - j,
        {
            if pens[j].end_idx == first.index && pens[j].end_price == first.price && pens[j].direction
                == wanted {
                return Some(j);
            }
            j = j + 1;
        }
        None
    }

    /// The first pen behind pen `j` that holds the extreme of pen `j`.
    fn find_follower(pens: &[Pen], j: usize) -> (r: Option<usize>)
        requires
            j < pens@.len(),
        ensures
            match r {
                Some(i) => follower_from(pens@, j as int, j + 1) == Some(i as int) && j < i
                    < pens@.len(),
                None => follower_from(pens@, j as int, j + 1) is None,
            },
    {
        let n = pens.len();
        let anchor = pens[j];
        let mut i: usize = j + 1;
        while i < n
            invariant
                j < i <= n,
                n == pens@.len(),
                anchor == pens@[j as int],
                follower_from(pens@, j as int, j + 1) == follower_from(pens@, j as int, i as int),
            decreases n - i,
        {
            let p = pens[i];
            let holds = p.direction == anchor.direction && match anchor.direction {
                PenDirection::Down => p.end_price > anchor.end_price,
                PenDirection::Up => p.end_price < anchor.end_price,
            };
            if holds {
                return Some(i);
            }
            i = i + 1;
        }
        None
    }

    /// Notes of a second-class point.
    fn second_note(buy: bool, ratio: u64) -> (s: String)
        ensures
            s@ == second_notes(buy, ratio as int),
    {
        let mut s = if buy {
            String::from_str("2nd buy point - pullback without new low (retracement: ")
        } else {
            String::from_str("2nd sell point - rally without new high (retracement: ")
        };
        let digits = crate::text::render_percent(ratio);
        s.append(digits.as_str());
        s.append("%)");
        s
    }

    /// The second-class point behind one first-class point.
    fn second_point_for(&self, pens: &[Pen], first: &BuySellPoint) -> (r: Option<BuySellPoint>)
        ensures
            match r {
                Some(p) => second_point(self.config().pullback_threshold_pct, pens@, first@) == Some(
                    p@,
                ),
                None => second_point(self.config().pullback_threshold_pct, pens@, first@) is None,
            },
    {
        let j = match Self::find_anchor(pens, first) {
            Some(j) => j,
            None => { return None; },
        };
        let i = match Self::find_follower(pens, j) {
            Some(i) => i,
            None => { return None; },
        };
        let ratio = self.calculate_pullback_ratio(&pens[j], &pens[i]);
        let threshold = self.config.pullback_threshold_pct;
        if threshold < 0 || ratio > threshold as u128 {
            return None;
        }
        let buy = match first.bsp_type {
            BSPType::Buy1 => true,
            _ => false,
        };
        Some(
            BuySellPoint {
                bsp_type: if buy {
                    BSPType::Buy2
                } else {
                    BSPType::Sell2
                },
                price: pens[i].end_price,
                index: pens[i].end_idx,
                confidence: SECOND_CLASS_CONFIDENCE,
                divergence: None,
                notes: Self::second_note(buy, ratio as u64),
            },
        )
    }

    /// Second-class points: behind each first-class point of `firsts`, the
    /// next pen of the same direction that makes no new extreme, where it
    /// retraces by no more than the pullback threshold. Confidence `0.7`.
    pub fn detect_bsp2(&self, pens: &[Pen], firsts: &[BuySellPoint]) -> (out: Vec<BuySellPoint>)
        ensures
            models_of(out@) == second_points(
                self.config().pullback_threshold_pct,
                pens@,
                models_of(firsts@),
            ),
            all_unit_confidence(models_of(out@)),
    {
        let mut out: Vec<BuySellPoint> = Vec::new();
        let n = firsts.len();
        let mut i: usize = 0;
        assert(models_of(out@) =~= Seq::<BspModel>::empty());
        while i < n
            invariant
                i <= n,
                n == firsts@.len(),
                models_of(out@) == second_points_upto(
                    self.config().pullback_threshold_pct,
                    pens@,
                    models_of(firsts@),
                    i as int,
                ),
                all_unit_confidence(models_of(out@)),
            decreases n - i,
        {
            assert(models_of(firsts@)[i as int] == firsts@[i as int]@);
            match self.second_point_for(pens, &firsts[i]) {
                Some(point) => {
                    let ghost before = models_of(out@);
                    let ghost model = point@;
                    out.push(point);
                    assert(models_of(out@) =~= before.push(model));
                },
                None => {},
            }
            i = i + 1;
        }
        out
    }

    /// The centers of a pen sequence: for each three consecutive pens whose
    /// price ranges overlap in more than a single price, the common range.
    pub fn find_centers(&self, pens: &[Pen]) -> (out: Vec<Center>)
        ensures
            out@ == centers_upto(pens@, pens@.len() as int),
    {
        let mut out: Vec<Center> = Vec::new();
        let n = pens.len();
        let mut i: usize = 0;
        while i < n
            invariant
                i <= n,
                n == pens@.len(),
                out@ == centers_upto(pens@, i as int),
            decreases n - i,
        {
            match Self::center_of(pens, i) {
                Some(c) => {
                    out.push(c);
                },
                None => {},
            }
            i = i + 1;
        }
        out
    }

    /// The center that starts at pen `i`.
    fn center_of(pens: &[Pen], i: usize) -> (r: Option<Center>)
        ensures
            r == center_at(pens@, i as int),
    {
        if pens.len() < 3 || i > pens.len() - 3 {
            return None;
        }
        let a = pens[i];
        let b = pens[i + 1];
        let c = pens[i + 2];
        let top = crate::fixed::min_of(
            crate::fixed::min_of(
                crate::fixed::max_of(a.start_price, a.end_price),
                crate::fixed::max_of(b.start_price, b.end_price),
            ),
            crate::fixed::max_of(c.start_price, c.end_price),
        );
        let bottom = crate::fixed::max_of(
            crate::fixed::max_of(
                crate::fixed::min_of(a.start_price, a.end_price),
                crate::fixed::min_of(b.start_price, b.end_price),
            ),
            crate::fixed::min_of(c.start_price, c.end_price),
        );
        if bottom < top {
            Some(Center { start_pen_idx: i, end_pen_idx: i + 2, top, bottom })
        } else {
            None
        }
    }

    /// Third-class points: behind each center, a pen that leaves it and a
    /// pen that comes back without touching it. Confidence `0.7`.
    pub fn detect_bsp3(&self, pens: &[Pen], _segments: &[Segment]) -> (out: Vec<BuySellPoint>)
        ensures
            models_of(out@) == third_points(pens@),
            all_unit_confidence(models_of(out@)),
    {
        let mut out: Vec<BuySellPoint> = Vec::new();
        let n = pens.len();
        let mut i: usize = 0;
        assert(models_of(out@) =~= Seq::<BspModel>::empty());
        while i < n
            invariant
                i <= n,
                n == pens@.len(),
                models_of(out@) == third_points_upto(pens@, i as int),
                all_unit_confidence(models_of(out@)),
            decreases n - i,
        {
            match Self::center_of(pens, i) {
                Some(c) => {
                    if n - i > 4 {
                        let leave = pens[i + 3];
                        let back = pens[i + 4];
                        let buy = leave.direction == PenDirection::Up && leave.end_price > c.top
                            && back.direction == PenDirection::Down && back.end_price > c.top;
                        let sell = leave.direction == PenDirection::Down && leave.end_price
                            < c.bottom && back.direction == PenDirection::Up && back.end_price
                            < c.bottom;
                        if buy || sell {
                            let ghost before = models_of(out@);
                            let point = BuySellPoint {
                                bsp_type: if buy {
                                    BSPType::Buy3
                                } else {
                                    BSPType::Sell3
                                },
                                price: back.end_price,
                                index: back.end_idx,
                                confidence: THIRD_CLASS_CONFIDENCE,
                                divergence: None,
                                notes: if buy {
                                    String::from_str("3rd buy point - pullback holds above the center")
                                } else {
                                    String::from_str("3rd sell point - rally holds below the center")
                                },
                            };
                            let ghost model = point@;
                            assert(third_point_at(pens@, i as int) == Some(model));
                            out.push(point);
                            assert(models_of(out@) =~= before.push(model));
                        }
                    }
                },
                None => {},
            }
            i = i + 1;
        }
        out
    }

    /// Appends to `out` the points of `list` whose confidence reaches the
    /// threshold.
    fn append_confident(&self, out: &mut Vec<BuySellPoint>, list: &Vec<BuySellPoint>)
        ensures
            models_of(final(out)@) == models_of(old(out)@) + confident(
                self.config().min_confidence,
                models_of(list@),
            ),
    {
        let n = list.len();
        let mut i: usize = 0;
        let ghost start = models_of(out@);
        assert(models_of(out@) =~= start + Seq::<BspModel>::empty());
        while i < n
            invariant
                i <= n,
                n == list@.len(),
                models_of(out@) == start + confident_upto(
                    self.config().min_confidence,
                    models_of(list@),
                    i as int,
                ),
            decreases n - i,
        {
            assert(models_of(list@)[i as int] == list@[i as int]@);
            if list[i].confidence >= self.config.min_confidence {
                let ghost kept = confident_upto(
                    self.config().min_confidence,
                    models_of(list@),
                    i as int,
                );
                let ghost before = models_of(out@);
                let point = list[i].duplicate();
                out.push(point);
                assert(models_of(out@) =~= before.push(list@[i as int]@));
                assert(before.push(list@[i as int]@) =~= start + kept.push(list@[i as int]@));
            }
            i = i + 1;
        }
    }

    /// The points of all classes that are switched on, each with a
    /// confidence of at least the threshold.
    pub fn detect_all(&self, pens: &[Pen], segments: &[Segment], divergences: &[DivergenceSignal]) -> (out:
        Vec<BuySellPoint>)
        ensures
            models_of(out@) == all_points(self.config(), pens@, divergences@),
            all_confident(models_of(out@), self.config().min_confidence),
            all_well_formed(divergences@) ==> all_unit_confidence(models_of(out@))
                && all_first_class_diverge(models_of(out@)),
    {
        proof {
            lemma_all_points_sound(self.config(), pens@, divergences@);
        }
        let mut out: Vec<BuySellPoint> = Vec::new();
        assert(models_of(out@) =~= Seq::<BspModel>::empty());
        let firsts = self.detect_bsp1(pens, divergences);
        if self.config.enable_bsp1 {
            self.append_confident(&mut out, &firsts);
        }
        if self.config.enable_bsp2 {
            let seconds = self.detect_bsp2(pens, firsts.as_slice());
            self.append_confident(&mut out, &seconds);
        }
        if self.config.enable_bsp3 {
            let thirds = self.detect_bsp3(pens, segments);
            self.append_confident(&mut out, &thirds);
        }
        assert(models_of(out@) =~= all_points(self.config(), pens@, divergences@));
        out
    }
}

/// The first-class points of well-formed divergences have a confidence
/// between `0` and `1.0`, and each carries the divergence it arose from: a
/// buy point a bullish one, a sell point a bearish one.
pub proof fn lemma_first_points_sound(
    min_confidence: i64,
    pens: Seq<Pen>,
    divs: Seq<DivergenceSignal>,
    n: int,
)
    requires
        all_well_formed(divs),
        n <= divs.len(),
    ensures
        all_unit_confidence(first_points_upto(min_confidence, pens, divs, n)),
        all_first_class_diverge(first_points_upto(min_confidence, pens, divs, n)),
        all_confident(first_points_upto(min_confidence, pens, divs, n), min_confidence),
    decreases n,
{
    if n > 0 {
        lemma_first_points_sound(min_confidence, pens, divs, n - 1);
        assert(divs[n - 1].well_formed());
    }
}

/// Points of the second class have the confidence `0.7` and are no
/// first-class points.
pub proof fn lemma_second_points_sound(threshold: i64, pens: Seq<Pen>, firsts: Seq<BspModel>, n: int)
    ensures
        all_unit_confidence(second_points_upto(threshold, pens, firsts, n)),
        all_first_class_diverge(second_points_upto(threshold, pens, firsts, n)),
    decreases n,
{
    if n > 0 {
        lemma_second_points_sound(threshold, pens, firsts, n - 1);
    }
}

/// Points of the third class have the confidence `0.7` and are no
/// first-class points.
pub proof fn lemma_third_points_sound(pens: Seq<Pen>, n: int)
    ensures
        all_unit_confidence(third_points_upto(pens, n)),
        all_first_class_diverge(third_points_upto(pens, n)),
    decreases n,
{
    if n > 0 {
        lemma_third_points_sound(pens, n - 1);
    }
}

/// Filtering by confidence leaves points that reach the threshold, and
/// keeps what holds of every point.
pub proof fn lemma_confident_sound(min_confidence: i64, points: Seq<BspModel>, n: int)
    requires
        n <= points.len(),
    ensures
        all_confident(confident_upto(min_confidence, points, n), min_confidence),
        all_unit_confidence(points) ==> all_unit_confidence(confident_upto(min_confidence, points, n)),
        all_first_class_diverge(points) ==> all_first_class_diverge(
            confident_upto(min_confidence, points, n),
        ),
    decreases n,
{
    if n > 0 {
        lemma_confident_sound(min_confidence, points, n - 1);
        let p = points[n - 1];
        if all_unit_confidence(points) {
            assert(0 <= p.confidence <= SCALE);
        }
    }
}

/// Every reported point has a confidence of at least the threshold. Where
/// the divergences are well formed, every confidence lies between `0` and
/// `1.0`, and every first-class point carries a well-formed divergence of
/// its side: a bullish one with a lower price and a higher histogram for a
/// buy point, a bearish one with a higher price and a lower histogram for
/// a sell point.
pub proof fn lemma_all_points_sound(config: BSPConfig, pens: Seq<Pen>, divs: Seq<DivergenceSignal>)
    ensures
        all_confident(all_points(config, pens, divs), config.min_confidence),
        all_well_formed(divs) ==> all_unit_confidence(all_points(config, pens, divs))
            && all_first_class_diverge(all_points(config, pens, divs)),
{
    let firsts = first_points(config.min_confidence, pens, divs);
    let seconds = second_points(config.pullback_threshold_pct, pens, firsts);
    let thirds = third_points(pens);
    let a = if config.enable_bsp1 {
        confident(config.min_confidence, firsts)
    } else {
        Seq::empty()
    };
    let b = if config.enable_bsp2 {
        confident(config.min_confidence, seconds)
    } else {
        Seq::empty()
    };
    let c = if config.enable_bsp3 {
        confident(config.min_confidence, thirds)
    } else {
        Seq::empty()
    };
    let all = all_points(config, pens, divs);
    assert(all == a + b + c);
    lemma_confident_sound(config.min_confidence, firsts, firsts.len() as int);
    lemma_confident_sound(config.min_confidence, seconds, seconds.len() as int);
    lemma_confident_sound(config.min_confidence, thirds, thirds.len() as int);
    lemma_second_points_sound(config.pullback_threshold_pct, pens, firsts, firsts.len() as int);
    lemma_third_points_sound(pens, pens.len() as int);
    assert forall|i: int| 0 <= i < all.len() implies (#[trigger] all[i]).confidence
        >= config.min_confidence by {
        if i < a.len() {
            assert(all[i] == a[i]);
        } else if i < a.len() + b.len() {
            assert(all[i] == b[i - a.len()]);
        } else {
            assert(all[i] == c[i - a.len() - b.len()]);
        }
    }
    if all_well_formed(divs) {
        lemma_first_points_sound(config.min_confidence, pens, divs, divs.len() as int);
        assert forall|i: int| 0 <= i < all.len() implies 0 <= (#[trigger] all[i]).confidence
            <= SCALE by {
            if i < a.len() {
                assert(all[i] == a[i]);
            } else if i < a.len() + b.len() {
                assert(all[i] == b[i - a.len()]);
            } else {
                assert(all[i] == c[i - a.len() - b.len()]);
            }
        }
        assert forall|i: int| 0 <= i < all.len() implies {
            let p = #[trigger] all[i];
            &&& p.bsp_type == BSPType::Buy1 ==> p.divergence is Some && p.divergence->0.well_formed()
                && p.divergence->0.div_type == DivergenceType::Bullish
            &&& p.bsp_type == BSPType::Sell1 ==> p.divergence is Some
                && p.divergence->0.well_formed() && p.divergence->0.div_type
                == DivergenceType::Bearish
        } by {
            if i < a.len() {
                assert(all[i] == a[i]);
            } else if i < a.len() + b.len() {
                assert(all[i] == b[i - a.len()]);
            } else {
                assert(all[i] == c[i - a.len() - b.len()]);
            }
        }
    }
}

/// A point of another class than the first sits on no pen.
proof fn lemma_no_anchor(pens: Seq<Pen>, f: BspModel, j: int)
    requires
        f.bsp_type != BSPType::Buy1,
        f.bsp_type != BSPType::Sell1,
    ensures
        anchor_from(pens, f, j) is None,
    decreases pens.len() - j,
{
    if 0 <= j < pens.len() {
        lemma_no_anchor(pens, f, j + 1);
    }
}

} // verus!
