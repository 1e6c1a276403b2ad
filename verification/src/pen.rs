//! Fractals and pens: directed swings between turning points of the
//! canonical candle sequence.

use vstd::prelude::*;
use crate::canonical::CanonicalCandle;
use crate::canonical::contains_range;
use crate::canonical::canonical_of;
use crate::canonical::canonical_well_formed;
use crate::canonical::candles_linked;
use crate::canonical::carried_on;
use crate::canonical::canonicalize;
use crate::fixed::magnitude;
use crate::kline::Kline;
use crate::kline::KlineSeries;

verus! {

/// Direction of a pen or of a segment.
#[derive(Debug, Clone, Copy, PartialEq, Eq, Structural)]
pub enum PenDirection {
    /// Rising: from a bottom to a top.
    Up,
    /// Falling: from a top to a bottom.
    Down,
}

impl PenDirection {
    /// The other direction.
    pub open spec fn flipped(self) -> PenDirection {
        match self {
            PenDirection::Up => PenDirection::Down,
            PenDirection::Down => PenDirection::Up,
        }
    }

    /// The other direction.
    pub fn opposite(self) -> (d: PenDirection)
        ensures
            d == self.flipped(),
    {
        match self {
            PenDirection::Up => PenDirection::Down,
            PenDirection::Down => PenDirection::Up,
        }
    }
}

/// A directed swing between two turning points. Indices count canonical
/// candles; prices are fixed-point values.
#[derive(Debug, Clone, Copy, PartialEq, Eq, Structural)]
pub struct Pen {
    /// Direction of the swing.
    pub direction: PenDirection,
    /// Index of the candle at which the pen starts.
    pub start_idx: usize,
    /// Index of the candle at which the pen ends.
    pub end_idx: usize,
    /// Price at the start: a low for an up pen, a high for a down pen.
    pub start_price: i64,
    /// Price at the end: a high for an up pen, a low for a down pen.
    pub end_price: i64,
    /// Set once a later pen has been formed behind this one.
    pub confirmed: bool,
}

impl Pen {
    /// Whether the end price lies on the side of the start price that the
    /// direction asks for.
    pub open spec fn valid(&self) -> bool {
        match self.direction {
            PenDirection::Up => self.end_price > self.start_price,
            PenDirection::Down => self.end_price < self.start_price,
        }
    }

    /// Upper end of the price range the pen covers.
    pub open spec fn top(&self) -> int {
        crate::fixed::greater(self.start_price as int, self.end_price as int)
    }

    /// Lower end of the price range the pen covers.
    pub open spec fn bottom(&self) -> int {
        crate::fixed::lesser(self.start_price as int, self.end_price as int)
    }

    /// An unconfirmed up pen.
    pub fn up(start_idx: usize, end_idx: usize, start_price: i64, end_price: i64) -> (p: Self)
        ensures
            p == (Pen {
                direction: PenDirection::Up,
                start_idx,
                end_idx,
                start_price,
                end_price,
                confirmed: false,
            }),
    {
        Pen {
            direction: PenDirection::Up,
            start_idx,
            end_idx,
            start_price,
            end_price,
            confirmed: false,
        }
    }

    /// An unconfirmed down pen.
    pub fn down(start_idx: usize, end_idx: usize, start_price: i64, end_price: i64) -> (p: Self)
        ensures
            p == (Pen {
                direction: PenDirection::Down,
                start_idx,
                end_idx,
                start_price,
                end_price,
                confirmed: false,
            }),
    {
        Pen {
            direction: PenDirection::Down,
            start_idx,
            end_idx,
            start_price,
            end_price,
            confirmed: false,
        }
    }

    /// Whether an up pen ends above its start and a down pen below it.
    pub fn is_valid(&self) -> (b: bool)
        ensures
            b == self.valid(),
    {
        match self.direction {
            PenDirection::Up => self.end_price > self.start_price,
            PenDirection::Down => self.end_price < self.start_price,
        }
    }

    /// Absolute price change between start and end.
    pub fn magnitude(&self) -> (m: u64)
        ensures
            m == magnitude(self.end_price - self.start_price),
    {
        crate::fixed::abs_diff(self.end_price, self.start_price)
    }

    /// Number of candles the pen spans, both ends counted.
    pub fn kline_count(&self) -> (n: usize)
        requires
            self.start_idx <= self.end_idx,
            self.end_idx - self.start_idx < usize::MAX,
        ensures
            n == self.end_idx - self.start_idx + 1,
    {
        self.end_idx - self.start_idx + 1
    }
}

/// Kind of a turning point.
#[derive(Debug, Clone, Copy, PartialEq, Eq, Structural)]
pub enum FractalKind {
    /// A candle whose high lies strictly above the highs of both neighbours.
    Top,
    /// A candle whose low lies strictly below the lows of both neighbours.
    Bottom,
}

/// A turning point of the canonical sequence.
#[derive(Debug, Clone, Copy, PartialEq, Eq, Structural)]
pub struct Fractal {
    /// Top or bottom.
    pub kind: FractalKind,
    /// Index of the candle.
    pub idx: usize,
    /// The candle's high for a top, its low for a bottom.
    pub price: i64,
}

/// Rules of pen formation.
#[derive(Debug, Clone, Copy, PartialEq, Eq, Structural)]
pub struct PenConfig {
    /// Form pens by the strict three-candle rule; without it no pen is
    /// formed.
    pub use_new_definition: bool,
    /// Refuse a pen whose end candle contains its start candle.
    pub strict_validation: bool,
    /// Smallest distance, in candles, between the two ends of a pen.
    pub min_klines_between_turns: usize,
}

impl Default for PenConfig {
    fn default() -> (c: Self)
        ensures
            c == (PenConfig {
                use_new_definition: true,
                strict_validation: true,
                min_klines_between_turns: 3,
            }),
    {
        PenConfig { use_new_definition: true, strict_validation: true, min_klines_between_turns: 3 }
    }
}

/// Whether candle `i` is a top fractal: not at either end of the sequence,
/// and its high strictly above both neighbouring highs.
pub open spec fn top_at(candles: Seq<CanonicalCandle>, i: int) -> bool {
    &&& 0 < i
    &&& i + 1 < candles.len()
    &&& candles[i].high > candles[i - 1].high
    &&& candles[i].high > candles[i + 1].high
}

/// Whether candle `i` is a bottom fractal: not at either end of the
/// sequence, and its low strictly below both neighbouring lows.
pub open spec fn bottom_at(candles: Seq<CanonicalCandle>, i: int) -> bool {
    &&& 0 < i
    &&& i + 1 < candles.len()
    &&& candles[i].low < candles[i - 1].low
    &&& candles[i].low < candles[i + 1].low
}

/// The fractal at candle `i`, if it is one. A candle that is both counts as
/// a top.
pub open spec fn fractal_at(candles: Seq<CanonicalCandle>, i: int) -> Option<Fractal> {
    if top_at(candles, i) {
        Some(Fractal { kind: FractalKind::Top, idx: i as usize, price: candles[i].high })
    } else if bottom_at(candles, i) {
        Some(Fractal { kind: FractalKind::Bottom, idx: i as usize, price: candles[i].low })
    } else {
        None
    }
}

/// What the pen builder holds while it walks the fractals: the fractal the
/// next pen would start at, and the pens formed so far.
pub struct PenScan {
    /// The current anchor.
    pub anchor: Option<Fractal>,
    /// The pens formed so far; the last one is unconfirmed.
    pub pens: Seq<Pen>,
}

/// Whether `f`, of the kind of `anchor`, lies further out: a higher top or
/// a lower bottom.
pub open spec fn extends_anchor(anchor: Fractal, f: Fractal) -> bool {
    match anchor.kind {
        FractalKind::Top => f.price > anchor.price,
        FractalKind::Bottom => f.price < anchor.price,
    }
}

/// Whether a pen runs from `anchor` to the fractal `f` of the other kind:
/// the two lie at least `min_klines_between_turns` candles apart, the price
/// moves the way the kinds ask for, and, under strict validation, the
/// candle of `f` does not contain the candle of `anchor`.
pub open spec fn forms_pen(
    config: PenConfig,
    candles: Seq<CanonicalCandle>,
    anchor: Fractal,
    f: Fractal,
) -> bool {
    &&& f.kind != anchor.kind
    &&& anchor.idx < candles.len()
    &&& f.idx < candles.len()
    &&& f.idx - anchor.idx >= config.min_klines_between_turns
    &&& match anchor.kind {
        FractalKind::Bottom => f.price > anchor.price,
        FractalKind::Top => f.price < anchor.price,
    }
    &&& config.strict_validation ==> !contains_range(
        candles[f.idx as int].high as int,
        candles[f.idx as int].low as int,
        candles[anchor.idx as int].high as int,
        candles[anchor.idx as int].low as int,
    )
}

/// The unconfirmed pen from `anchor` to `f`.
pub open spec fn pen_between(anchor: Fractal, f: Fractal) -> Pen {
    Pen {
        direction: if anchor.kind == FractalKind::Bottom {
            PenDirection::Up
        } else {
            PenDirection::Down
        },
        start_idx: anchor.idx,
        end_idx: f.idx,
        start_price: anchor.price,
        end_price: f.price,
        confirmed: false,
    }
}

/// The pen `p` with its end moved to `f`.
pub open spec fn moved_end(p: Pen, f: Fractal) -> Pen {
    Pen {
        direction: p.direction,
        start_idx: p.start_idx,
        end_idx: f.idx,
        start_price: p.start_price,
        end_price: f.price,
        confirmed: p.confirmed,
    }
}

/// The pen `p`, confirmed.
pub open spec fn confirmed_pen(p: Pen) -> Pen {
    Pen {
        direction: p.direction,
        start_idx: p.start_idx,
        end_idx: p.end_idx,
        start_price: p.start_price,
        end_price: p.end_price,
        confirmed: true,
    }
}

/// The pens with the last one confirmed.
pub open spec fn with_last_confirmed(pens: Seq<Pen>) -> Seq<Pen> {
    if pens.len() == 0 {
        pens
    } else {
        pens.update(pens.len() - 1, confirmed_pen(pens[pens.len() - 1]))
    }
}

/// The pens with the end of the last one moved to `f`.
pub open spec fn with_last_moved(pens: Seq<Pen>, f: Fractal) -> Seq<Pen> {
    if pens.len() == 0 {
        pens
    } else {
        pens.update(pens.len() - 1, moved_end(pens[pens.len() - 1], f))
    }
}

/// The builder's state after the fractal `f` has arrived. The first
/// fractal becomes the anchor. A fractal of the anchor's kind replaces the
/// anchor if it lies further out, and the end of the last pen moves with
/// it. A fractal of the other kind completes a pen if `forms_pen` holds,
/// confirms the pen before it and becomes the anchor. Any other fractal is
/// dropped.
pub open spec fn pen_step(
    config: PenConfig,
    candles: Seq<CanonicalCandle>,
    st: PenScan,
    f: Fractal,
) -> PenScan {
    match st.anchor {
        None => PenScan { anchor: Some(f), pens: st.pens },
        Some(a) => if f.kind == a.kind {
            if extends_anchor(a, f) {
                PenScan { anchor: Some(f), pens: with_last_moved(st.pens, f) }
            } else {
                st
            }
        } else if forms_pen(config, candles, a, f) {
            PenScan { anchor: Some(f), pens: with_last_confirmed(st.pens).push(pen_between(a, f)) }
        } else {
            st
        },
    }
}

/// The builder's state after the candles below index `n` have been looked
/// at as fractal candidates.
pub open spec fn pen_scan(config: PenConfig, candles: Seq<CanonicalCandle>, n: int) -> PenScan
    decreases n,
{
    if n <= 0 {
        PenScan { anchor: None, pens: Seq::empty() }
    } else {
        let st = pen_scan(config, candles, n - 1);
        match fractal_at(candles, n - 1) {
            Some(f) => pen_step(config, candles, st, f),
            None => st,
        }
    }
}

/// The pens of a canonical sequence under the strict three-candle rule.
pub open spec fn new_definition_pens(config: PenConfig, candles: Seq<CanonicalCandle>) -> Seq<Pen> {
    pen_scan(config, candles, candles.len() as int).pens
}

/// The pens of a canonical sequence: those of the strict three-candle rule
/// where it is switched on, none otherwise.
pub open spec fn pens_of(config: PenConfig, candles: Seq<CanonicalCandle>) -> Seq<Pen> {
    if config.use_new_definition {
        new_definition_pens(config, candles)
    } else {
        Seq::empty()
    }
}

/// Whether `pen` starts on the wrong side of the end of `prev`: an up pen
/// followed by a down pen that starts below its end, or a down pen followed
/// by an up pen that starts above its end.
pub open spec fn overlaps_previous(prev: Pen, pen: Pen) -> bool {
    ||| prev.direction == PenDirection::Up && pen.direction == PenDirection::Down && pen.start_price
        < prev.end_price
    ||| prev.direction == PenDirection::Down && pen.direction == PenDirection::Up && pen.start_price
        > prev.end_price
}

/// Those of the first `n` pens that strict validation keeps: each valid pen
/// that does not overlap the pen kept before it.
pub open spec fn strictly_valid_upto(strict: bool, pens: Seq<Pen>, n: int) -> Seq<Pen>
    decreases n,
{
    if n <= 0 {
        Seq::empty()
    } else {
        let kept = strictly_valid_upto(strict, pens, n - 1);
        let pen = pens[n - 1];
        if pen.valid() && !(strict && kept.len() > 0 && overlaps_previous(kept[kept.len() - 1], pen)) {
            kept.push(pen)
        } else {
            kept
        }
    }
}

/// Whether a pen is valid, runs forward and spans at least `min_gap`
/// candles.
pub open spec fn pen_sound(p: Pen, min_gap: int) -> bool {
    &&& p.valid()
    &&& p.start_idx < p.end_idx
    &&& p.end_idx - p.start_idx >= min_gap
}

/// Whether `b` can follow `a`: the two point opposite ways and `b` starts
/// where `a` ends.
pub open spec fn pens_linked(a: Pen, b: Pen) -> bool {
    &&& a.direction != b.direction
    &&& a.end_idx == b.start_idx
    &&& a.end_price == b.start_price
}

/// The pens form a chain: each is valid and spans at least `min_gap`
/// candles, neighbours point opposite ways and share their endpoint, all
/// but the last are confirmed, and the last is not.
pub open spec fn pen_chain(pens: Seq<Pen>, min_gap: int) -> bool {
    &&& forall|i: int|
        0 <= i < pens.len() ==> pen_sound(#[trigger] pens[i], min_gap) && (pens[i].confirmed <==> i
            + 1 < pens.len())
    &&& forall|i: int, j: int|
        0 <= i && j == i + 1 && j < pens.len() ==> pens_linked(#[trigger] pens[i], #[trigger] pens[j])
}

/// The invariant of the builder's state after the candles below `n`: the
/// pens form a chain, the anchor lies below `n`, and the last pen ends at
/// the anchor.
pub open spec fn scan_well_formed(config: PenConfig, st: PenScan, n: int) -> bool {
    &&& pen_chain(st.pens, config.min_klines_between_turns as int)
    &&& st.anchor is Some ==> st.anchor->0.idx < n
    &&& st.pens.len() > 0 ==> {
        let last = st.pens[st.pens.len() - 1];
        &&& st.anchor is Some
        &&& st.anchor->0.idx == last.end_idx
        &&& st.anchor->0.price == last.end_price
        &&& (st.anchor->0.kind == FractalKind::Top <==> last.direction == PenDirection::Up)
    }
}

/// One step of the builder keeps its state well formed.
pub proof fn lemma_pen_step_well_formed(
    config: PenConfig,
    candles: Seq<CanonicalCandle>,
    st: PenScan,
    f: Fractal,
    n: int,
)
    requires
        scan_well_formed(config, st, n),
        f.idx == n,
    ensures
        scan_well_formed(config, pen_step(config, candles, st, f), n + 1),
{
    let next = pen_step(config, candles, st, f);
    let gap = config.min_klines_between_turns as int;
    match st.anchor {
        None => {},
        Some(a) => {
            if f.kind == a.kind {
                if extends_anchor(a, f) && st.pens.len() > 0 {
                    let k = st.pens.len() - 1;
                    assert(pen_sound(st.pens[k], gap));
                    assert forall|i: int| 0 <= i < next.pens.len() implies pen_sound(
                        #[trigger] next.pens[i],
                        gap,
                    ) && (next.pens[i].confirmed <==> i + 1 < next.pens.len()) by {
                        if i < k {
                            assert(pen_sound(st.pens[i], gap));
                        }
                    }
                    assert forall|i: int, j: int|
                        0 <= i && j == i + 1 && j < next.pens.len() implies pens_linked(
                        #[trigger] next.pens[i],
                        #[trigger] next.pens[j],
                    ) by {
                        assert(pens_linked(st.pens[i], st.pens[j]));
                    }
                }
            } else if forms_pen(config, candles, a, f) {
                let k = st.pens.len();
                assert forall|i: int| 0 <= i < next.pens.len() implies pen_sound(
                    #[trigger] next.pens[i],
                    gap,
                ) && (next.pens[i].confirmed <==> i + 1 < next.pens.len()) by {
                    if i < k {
                        assert(pen_sound(st.pens[i], gap));
                    }
                }
                assert forall|i: int, j: int|
                    0 <= i && j == i + 1 && j < next.pens.len() implies pens_linked(
                    #[trigger] next.pens[i],
                    #[trigger] next.pens[j],
                ) by {
                    if j < k {
                        assert(pens_linked(st.pens[i], st.pens[j]));
                    }
                }
            }
        },
    }
}

/// The builder's state is well formed after any number of candles.
pub proof fn lemma_pen_scan_well_formed(config: PenConfig, candles: Seq<CanonicalCandle>, n: int)
    requires
        0 <= n,
        candles.len() <= usize::MAX,
    ensures
        scan_well_formed(config, pen_scan(config, candles, n), n),
    decreases n,
{
    if n > 0 {
        lemma_pen_scan_well_formed(config, candles, n - 1);
        let st = pen_scan(config, candles, n - 1);
        match fractal_at(candles, n - 1) {
            Some(f) => {
                lemma_pen_step_well_formed(config, candles, st, f, n - 1);
            },
            None => {},
        }
    }
}

/// Strict validation keeps every pen of a chain.
pub proof fn lemma_chain_is_strictly_valid(strict: bool, pens: Seq<Pen>, min_gap: int, n: int)
    requires
        pen_chain(pens, min_gap),
        0 <= n <= pens.len(),
    ensures
        strictly_valid_upto(strict, pens, n) == pens.take(n),
    decreases n,
{
    if n > 0 {
        lemma_chain_is_strictly_valid(strict, pens, min_gap, n - 1);
        let kept = strictly_valid_upto(strict, pens, n - 1);
        assert(pen_sound(pens[n - 1], min_gap));
        if n > 1 {
            assert(kept[kept.len() - 1] == pens[n - 2]);
            assert(pens_linked(pens[n - 2], pens[n - 1]));
        }
        assert(pens.take(n) =~= pens.take(n - 1).push(pens[n - 1]));
    } else {
        assert(pens.take(n) =~= Seq::<Pen>::empty());
    }
}

/// A fractal that has a candle behind it stays what it is when the
/// canonical sequence lives on.
pub proof fn lemma_fractal_stands(
    before: Seq<CanonicalCandle>,
    after: Seq<CanonicalCandle>,
    i: int,
)
    requires
        canonical_well_formed(before),
        carried_on(before, after),
        before.len() <= usize::MAX,
        0 <= i,
        i + 1 < before.len(),
    ensures
        fractal_at(after, i) == fractal_at(before, i),
{
    let e = before.len() - 1;
    assert(after[i] == before[i]);
    if i > 0 {
        assert(after[i - 1] == before[i - 1]);
    }
    if i + 1 < e {
        assert(after[i + 1] == before[i + 1]);
    } else {
        assert(candles_linked(before[i], before[e]));
    }
}

/// The builder reads the candles below `n` alone, and of the candle at `n`
/// only whether it makes candle `n - 1` a fractal.
pub proof fn lemma_scan_agrees(
    config: PenConfig,
    before: Seq<CanonicalCandle>,
    after: Seq<CanonicalCandle>,
    n: int,
)
    requires
        canonical_well_formed(before),
        carried_on(before, after),
        before.len() <= usize::MAX,
        0 <= n,
        n < before.len(),
    ensures
        pen_scan(config, after, n) == pen_scan(config, before, n),
    decreases n,
{
    if n > 0 {
        lemma_scan_agrees(config, before, after, n - 1);
        lemma_fractal_stands(before, after, n - 1);
        lemma_pen_scan_well_formed(config, before, n - 1);
        let st = pen_scan(config, before, n - 1);
        match fractal_at(before, n - 1) {
            Some(f) => {
                assert(after[n - 1] == before[n - 1]);
                match st.anchor {
                    Some(a) => {
                        assert(after[a.idx as int] == before[a.idx as int]);
                    },
                    None => {},
                }
            },
            None => {},
        }
    }
}

/// How the pens `before` live on in the pens `after`: every pen but the
/// last stays as it is.
pub open spec fn pens_kept(before: Seq<Pen>, after: Seq<Pen>) -> bool {
    &&& before.len() <= after.len()
    &&& forall|i: int| 0 <= i && i + 1 < before.len() ==> after[i] == #[trigger] before[i]
}

/// The builder never touches a pen other than the last.
pub proof fn lemma_scan_keeps_pens(
    config: PenConfig,
    candles: Seq<CanonicalCandle>,
    n: int,
    later: int,
)
    requires
        0 <= n <= later,
    ensures
        pens_kept(pen_scan(config, candles, n).pens, pen_scan(config, candles, later).pens),
    decreases later - n,
{
    if n < later {
        lemma_scan_keeps_pens(config, candles, n, later - 1);
        let first = pen_scan(config, candles, n).pens;
        let mid = pen_scan(config, candles, later - 1).pens;
        let last = pen_scan(config, candles, later).pens;
        assert(pens_kept(mid, last));
        assert forall|i: int| 0 <= i && i + 1 < first.len() implies last[i] == #[trigger] first[i] by {
            assert(mid[i] == first[i]);
        }
    }
}

/// The last candle of a sequence is no fractal, so the builder's pens are
/// those it holds when it reaches the last candle.
pub proof fn lemma_last_candle_adds_nothing(config: PenConfig, candles: Seq<CanonicalCandle>)
    requires
        candles.len() > 0,
    ensures
        pen_scan(config, candles, candles.len() as int) == pen_scan(config, candles, candles.len() - 1),
{
}

/// Confirmed pens stand: when a canonical sequence lives on, every pen but
/// the last of the pens formed on it is among the pens formed on the later
/// sequence, at the same place.
pub proof fn lemma_pens_stand(
    config: PenConfig,
    before: Seq<CanonicalCandle>,
    after: Seq<CanonicalCandle>,
)
    requires
        canonical_well_formed(before),
        carried_on(before, after),
        after.len() <= usize::MAX,
    ensures
        pens_kept(pens_of(config, before), pens_of(config, after)),
{
    if config.use_new_definition && before.len() > 0 {
        let e = before.len() - 1;
        lemma_last_candle_adds_nothing(config, before);
        lemma_scan_agrees(config, before, after, e);
        lemma_scan_keeps_pens(config, after, e, after.len() as int);
    }
}

/// The pens of a chain end at ever later candles, so there are no more of
/// them than there are indices.
pub proof fn lemma_chain_ends_rise(pens: Seq<Pen>, min_gap: int, i: int)
    requires
        pen_chain(pens, min_gap),
        0 <= i < pens.len(),
    ensures
        pens[i].end_idx > i,
    decreases i,
{
    assert(pen_sound(pens[i], min_gap));
    if i > 0 {
        lemma_chain_ends_rise(pens, min_gap, i - 1);
        assert(pens_linked(pens[i - 1], pens[i]));
    }
}

/// Pens come in index order: of two pens of a chain, the earlier one ends
/// no later than the later one starts, and each pen ends behind its start.
pub proof fn lemma_pens_ascend(pens: Seq<Pen>, min_gap: int, i: int, j: int)
    requires
        pen_chain(pens, min_gap),
        0 <= i < j < pens.len(),
    ensures
        pens[i].start_idx < pens[i].end_idx,
        pens[i].end_idx <= pens[j].start_idx,
        pens[j].start_idx < pens[j].end_idx,
    decreases j - i,
{
    assert(pen_sound(pens[i], min_gap));
    assert(pen_sound(pens[j], min_gap));
    if i + 1 < j {
        lemma_pens_ascend(pens, min_gap, i, j - 1);
        assert(pen_sound(pens[j - 1], min_gap));
    }
    assert(pens_linked(pens[j - 1], pens[j]));
}

/// Without three candles there is no fractal, and so no pen.
pub proof fn lemma_no_pens_below_three(config: PenConfig, candles: Seq<CanonicalCandle>, n: int)
    requires
        candles.len() < 3,
    ensures
        pen_scan(config, candles, n).pens.len() == 0,
    decreases n,
{
    if n > 0 {
        lemma_no_pens_below_three(config, candles, n - 1);
    }
}

/// Whether raw candle `i` is a top fractal among its neighbours.
pub open spec fn kline_top_at(klines: Seq<Kline>, i: int) -> bool {
    &&& 0 < i
    &&& i + 1 < klines.len()
    &&& klines[i].high > klines[i - 1].high
    &&& klines[i].high > klines[i + 1].high
}

/// Whether raw candle `i` is a bottom fractal among its neighbours.
pub open spec fn kline_bottom_at(klines: Seq<Kline>, i: int) -> bool {
    &&& 0 < i
    &&& i + 1 < klines.len()
    &&& klines[i].low < klines[i - 1].low
    &&& klines[i].low < klines[i + 1].low
}

/// Builds pens from canonical candles.
#[derive(Debug, Clone, Copy)]
pub struct PenCalculator {
    /// The rules of pen formation.
    pub config: PenConfig,
}

impl PenCalculator {
    /// A calculator with the given rules.
    pub fn new(config: PenConfig) -> (c: Self)
        ensures
            c.config == config,
    {
        PenCalculator { config }
    }

    /// A calculator with the strict three-candle rule, strict validation
    /// and a distance of three candles.
    pub fn with_defaults() -> (c: Self)
        ensures
            c.config == (PenConfig {
                use_new_definition: true,
                strict_validation: true,
                min_klines_between_turns: 3,
            }),
    {
        PenCalculator {
            config: PenConfig {
                use_new_definition: true,
                strict_validation: true,
                min_klines_between_turns: 3,
            },
        }
    }

    /// Whether raw candle `idx` is a top fractal.
    pub fn is_top_fractal(&self, klines: &[Kline], idx: usize) -> (b: bool)
        ensures
            b == kline_top_at(klines@, idx as int),
    {
        if idx == 0 || klines.len() < 2 || idx >= klines.len() - 1 {
            return false;
        }
        klines[idx].high > klines[idx - 1].high && klines[idx].high > klines[idx + 1].high
    }

    /// Whether raw candle `idx` is a bottom fractal.
    pub fn is_bottom_fractal(&self, klines: &[Kline], idx: usize) -> (b: bool)
        ensures
            b == kline_bottom_at(klines@, idx as int),
    {
        if idx == 0 || klines.len() < 2 || idx >= klines.len() - 1 {
            return false;
        }
        klines[idx].low < klines[idx - 1].low && klines[idx].low < klines[idx + 1].low
    }

    /// The fractal in the middle of the three raw candles from `start`,
    /// with the direction of a pen that starts at it: down from a top, up
    /// from a bottom.
    pub fn find_fractal(&self, klines: &[Kline], start: usize) -> (r: Option<(usize, PenDirection)>)
        ensures
            r == (if kline_top_at(klines@, start + 1) {
                Some(((start + 1) as usize, PenDirection::Down))
            } else if kline_bottom_at(klines@, start + 1) {
                Some(((start + 1) as usize, PenDirection::Up))
            } else {
                None
            }),
    {
        if klines.len() < 3 || start >= klines.len() - 2 {
            return None;
        }
        if self.is_top_fractal(klines, start + 1) {
            return Some((start + 1, PenDirection::Down));
        }
        if self.is_bottom_fractal(klines, start + 1) {
            return Some((start + 1, PenDirection::Up));
        }
        None
    }

    /// The fractal at canonical candle `i`.
    pub fn fractal_of(candles: &[CanonicalCandle], i: usize) -> (r: Option<Fractal>)
        ensures
            r == fractal_at(candles@, i as int),
    {
        if i == 0 || candles.len() < 2 || i >= candles.len() - 1 {
            return None;
        }
        let c = candles[i];
        if c.high > candles[i - 1].high && c.high > candles[i + 1].high {
            Some(Fractal { kind: FractalKind::Top, idx: i, price: c.high })
        } else if c.low < candles[i - 1].low && c.low < candles[i + 1].low {
            Some(Fractal { kind: FractalKind::Bottom, idx: i, price: c.low })
        } else {
            None
        }
    }

    /// The pen from `anchor` to `f`, if the rules allow one.
    pub fn try_form_pen(&self, candles: &[CanonicalCandle], anchor: &Fractal, f: &Fractal) -> (r: Option<
        Pen,
    >)
        ensures
            r == (if forms_pen(self.config, candles@, *anchor, *f) {
                Some(pen_between(*anchor, *f))
            } else {
                None
            }),
    {
        if f.kind == anchor.kind || anchor.idx >= candles.len() || f.idx >= candles.len() {
            return None;
        }
        if f.idx < anchor.idx || f.idx - anchor.idx < self.config.min_klines_between_turns {
            return None;
        }
        let up = match anchor.kind {
            FractalKind::Bottom => true,
            FractalKind::Top => false,
        };
        if up && f.price <= anchor.price {
            return None;
        }
        if !up && f.price >= anchor.price {
            return None;
        }
        if self.config.strict_validation {
            let end = candles[f.idx];
            let start = candles[anchor.idx];
            if end.high >= start.high && end.low <= start.low {
                return None;
            }
        }
        Some(
            Pen {
                direction: if up {
                    PenDirection::Up
                } else {
                    PenDirection::Down
                },
                start_idx: anchor.idx,
                end_idx: f.idx,
                start_price: anchor.price,
                end_price: f.price,
                confirmed: false,
            },
        )
    }

    /// Pens under the strict three-candle rule: the fractals are walked in
    /// order, and each one moves the anchor, completes a pen or is dropped.
    pub fn identify_pens_new_definition(&self, candles: &[CanonicalCandle]) -> (out: Vec<Pen>)
        ensures
            out@ == new_definition_pens(self.config, candles@),
            pen_chain(out@, self.config.min_klines_between_turns as int),
            candles@.len() < 3 ==> out@.len() == 0,
    {
        let n = candles.len();
        let mut anchor: Option<Fractal> = None;
        let mut pens: Vec<Pen> = Vec::new();
        let mut i: usize = 0;
        while i < n
            invariant
                i <= n,
                n == candles@.len(),
                (PenScan { anchor, pens: pens@ }) == pen_scan(self.config, candles@, i as int),
            decreases n - i,
        {
            let ghost st = pen_scan(self.config, candles@, i as int);
            match Self::fractal_of(candles, i) {
                Some(f) => {
                    match anchor {
                        None => {
                            anchor = Some(f);
                        },
                        Some(a) => {
                            if f.kind == a.kind {
                                let further = match a.kind {
                                    FractalKind::Top => f.price > a.price,
                                    FractalKind::Bottom => f.price < a.price,
                                };
                                if further {
                                    anchor = Some(f);
                                    let len = pens.len();
                                    if len > 0 {
                                        let mut last = pens[len - 1];
                                        last.end_idx = f.idx;
                                        last.end_price = f.price;
                                        pens[len - 1] = last;
                                    }
                                    assert(pens@ =~= with_last_moved(st.pens, f));
                                }
                            } else {
                                match self.try_form_pen(candles, &a, &f) {
                                    Some(pen) => {
                                        let len = pens.len();
                                        if len > 0 {
                                            let mut last = pens[len - 1];
                                            last.confirmed = true;
                                            pens[len - 1] = last;
                                        }
                                        pens.push(pen);
                                        anchor = Some(f);
                                        assert(pens@ =~= with_last_confirmed(st.pens).push(pen));
                                    },
                                    None => {},
                                }
                            }
                        },
                    }
                },
                None => {},
            }
            i = i + 1;
        }
        proof {
            lemma_pen_scan_well_formed(self.config, candles@, n as int);
            if n < 3 {
                lemma_no_pens_below_three(self.config, candles@, n as int);
            }
        }
        pens
    }

    /// Pens under the older rule, which forms none.
    pub fn identify_pens_traditional(&self, candles: &[CanonicalCandle]) -> (out: Vec<Pen>)
        ensures
            out@.len() == 0,
    {
        Vec::new()
    }

    /// Drops every pen that is not valid and, under strict validation,
    /// every pen that starts on the wrong side of the end of the pen kept
    /// before it.
    pub fn validate_pens_strict(&self, pens: Vec<Pen>) -> (out: Vec<Pen>)
        ensures
            out@ == strictly_valid_upto(self.config.strict_validation, pens@, pens@.len() as int),
    {
        let mut out: Vec<Pen> = Vec::new();
        let n = pens.len();
        let mut i: usize = 0;
        while i < n
            invariant
                i <= n,
                n == pens@.len(),
                out@ == strictly_valid_upto(self.config.strict_validation, pens@, i as int),
            decreases n - i,
        {
            let pen = pens[i];
            if pen.is_valid() {
                let kept = out.len();
                let overlaps = if self.config.strict_validation && kept > 0 {
                    let prev = out[kept - 1];
                    match (prev.direction, pen.direction) {
                        (PenDirection::Up, PenDirection::Down) => pen.start_price < prev.end_price,
                        (PenDirection::Down, PenDirection::Up) => pen.start_price > prev.end_price,
                        _ => false,
                    }
                } else {
                    false
                };
                if !overlaps {
                    out.push(pen);
                }
            }
            i = i + 1;
        }
        out
    }

    /// The pens of a canonical sequence under this calculator's rules.
    pub fn identify_pens_on(&self, candles: &[CanonicalCandle]) -> (out: Vec<Pen>)
        ensures
            out@ == pens_of(self.config, candles@),
            pen_chain(out@, self.config.min_klines_between_turns as int),
            candles@.len() < 3 ==> out@.len() == 0,
    {
        let pens = if self.config.use_new_definition {
            self.identify_pens_new_definition(candles)
        } else {
            self.identify_pens_traditional(candles)
        };
        if self.config.strict_validation {
            proof {
                lemma_chain_is_strictly_valid(
                    true,
                    pens@,
                    self.config.min_klines_between_turns as int,
                    pens@.len() as int,
                );
                assert(pens@.take(pens@.len() as int) =~= pens@);
            }
            self.validate_pens_strict(pens)
        } else {
            pens
        }
    }

    /// The pens of a series: its candles are made canonical, and the pens
    /// are formed on the canonical candles. Fewer than three candles give
    /// no pen.
    pub fn identify_pens(&self, series: &KlineSeries) -> (out: Vec<Pen>)
        ensures
            out@ == pens_of(self.config, canonical_of(series.klines@)),
            pen_chain(out@, self.config.min_klines_between_turns as int),
            series.klines@.len() < 3 ==> out@.len() == 0,
    {
        let candles = canonicalize(series.klines.as_slice());
        self.identify_pens_on(candles.as_slice())
    }
}

} // verus!
