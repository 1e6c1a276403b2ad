//! Segments: swings of at least three pens, delimited by breaks in the
//! feature sequence.

use vstd::prelude::*;
use crate::canonical::in_inclusion;
use crate::fixed::greater;
use crate::fixed::lesser;
use crate::pen::Pen;
use crate::pen::PenDirection;

verus! {

/// A swing made of an odd number of consecutive pens.
#[derive(Debug, Clone)]
pub struct Segment {
    /// Direction of the swing: that of its first pen.
    pub direction: PenDirection,
    /// Index of the first pen.
    pub start_pen_idx: usize,
    /// Index of the last pen.
    pub end_pen_idx: usize,
    /// Price at which the first pen starts.
    pub start_price: i64,
    /// Price at which the last pen ends.
    pub end_price: i64,
    /// The pens from the first to the last, in order.
    pub contained_pens: Vec<Pen>,
    /// Set once a break behind the segment has been established.
    pub confirmed: bool,
}

/// What a segment holds, as mathematical values.
pub struct SegmentModel {
    /// Direction of the swing.
    pub direction: PenDirection,
    /// Index of the first pen.
    pub start_pen_idx: usize,
    /// Index of the last pen.
    pub end_pen_idx: usize,
    /// Price at which the first pen starts.
    pub start_price: i64,
    /// Price at which the last pen ends.
    pub end_price: i64,
    /// The pens from the first to the last.
    pub pens: Seq<Pen>,
    /// Whether a break behind the segment has been established.
    pub confirmed: bool,
}

impl View for Segment {
    type V = SegmentModel;

    open spec fn view(&self) -> SegmentModel {
        SegmentModel {
            direction: self.direction,
            start_pen_idx: self.start_pen_idx,
            end_pen_idx: self.end_pen_idx,
            start_price: self.start_price,
            end_price: self.end_price,
            pens: self.contained_pens@,
            confirmed: self.confirmed,
        }
    }
}

impl Segment {
    /// An unconfirmed segment that holds no pens yet.
    pub fn new(
        direction: PenDirection,
        start_pen_idx: usize,
        end_pen_idx: usize,
        start_price: i64,
        end_price: i64,
    ) -> (s: Self)
        ensures
            s@ == (SegmentModel {
                direction,
                start_pen_idx,
                end_pen_idx,
                start_price,
                end_price,
                pens: Seq::<Pen>::empty(),
                confirmed: false,
            }),
    {
        Segment {
            direction,
            start_pen_idx,
            end_pen_idx,
            start_price,
            end_price,
            contained_pens: Vec::new(),
            confirmed: false,
        }
    }

    /// Absolute price change between start and end.
    pub fn magnitude(&self) -> (m: u64)
        ensures
            m == crate::fixed::magnitude(self.end_price - self.start_price),
    {
        crate::fixed::abs_diff(self.end_price, self.start_price)
    }

    /// A copy of the segment.
    pub fn duplicate(&self) -> (s: Self)
        ensures
            s@ == self@,
    {
        let mut pens: Vec<Pen> = Vec::new();
        let n = self.contained_pens.len();
        let mut i: usize = 0;
        while i < n
            invariant
                i <= n,
                n == self.contained_pens@.len(),
                pens@ == self.contained_pens@.take(i as int),
            decreases n - i,
        {
            pens.push(self.contained_pens[i]);
            assert(pens@ =~= self.contained_pens@.take(i + 1));
            i = i + 1;
        }
        assert(self.contained_pens@.take(n as int) =~= self.contained_pens@);
        Segment {
            direction: self.direction,
            start_pen_idx: self.start_pen_idx,
            end_pen_idx: self.end_pen_idx,
            start_price: self.start_price,
            end_price: self.end_price,
            contained_pens: pens,
            confirmed: self.confirmed,
        }
    }

    /// Number of pens the segment holds.
    pub fn pen_count(&self) -> (n: usize)
        ensures
            n == self@.pens.len(),
    {
        self.contained_pens.len()
    }
}

/// The price range of a pen, as an element of a feature sequence.
#[derive(Debug, Clone, Copy, PartialEq, Eq, Structural)]
pub struct FeatureElement {
    /// Upper end of the range.
    pub high: i64,
    /// Lower end of the range.
    pub low: i64,
    /// Direction of the pen behind the feature.
    pub direction: PenDirection,
    /// Index of the pen behind the feature; after a merge, of the later
    /// pen.
    pub pen_idx: usize,
    /// Whether a gap separates the feature from the one before it: above
    /// it where the sequence was ascending, below it where it was
    /// descending.
    pub has_gap: bool,
}

/// Rules of segment division.
#[derive(Debug, Clone, Copy, PartialEq, Eq, Structural)]
pub struct SegmentConfig {
    /// Whether segments are divided by feature sequences. There is no other
    /// method, so the switch is carried along and not read.
    pub use_feature_sequence: bool,
    /// Merge features that stand in inclusion.
    pub handle_inclusion: bool,
    /// Smallest number of pens in a segment, where it exceeds three.
    pub min_features_per_segment: usize,
    /// Distance that a feature must lie beyond the one before it to count
    /// as separated from it by a gap.
    pub gap_threshold: i64,
}

impl Default for SegmentConfig {
    fn default() -> (c: Self)
        ensures
            c == (SegmentConfig {
                use_feature_sequence: true,
                handle_inclusion: true,
                min_features_per_segment: 3,
                gap_threshold: 0,
            }),
    {
        SegmentConfig {
            use_feature_sequence: true,
            handle_inclusion: true,
            min_features_per_segment: 3,
            gap_threshold: 0,
        }
    }
}

/// Pens as the segment builder takes them: neighbours point opposite ways
/// and indices do not run backwards.
pub open spec fn pens_in_order(pens: Seq<Pen>) -> bool {
    &&& forall|i: int| 0 <= i < pens.len() ==> (#[trigger] pens[i]).start_idx <= pens[i].end_idx
    &&& forall|i: int, j: int|
        0 <= i && j == i + 1 && j < pens.len() ==> (#[trigger] pens[i]).direction != (
        #[trigger] pens[j]).direction && pens[i].end_idx <= pens[j].start_idx
}

/// The feature that a pen gives.
pub open spec fn feature_of(pen: Pen, idx: int) -> FeatureElement {
    FeatureElement {
        high: pen.top() as i64,
        low: pen.bottom() as i64,
        direction: pen.direction,
        pen_idx: idx as usize,
        has_gap: false,
    }
}

/// Whether a gap of more than `threshold` separates `cur` from `prev`: in
/// an ascending trend `cur` lies above `prev`, in a descending trend below
/// it.
pub open spec fn gap_between(
    prev: FeatureElement,
    cur: FeatureElement,
    threshold: i64,
    up: bool,
) -> bool {
    if up {
        cur.low - prev.high > threshold
    } else {
        prev.low - cur.high > threshold
    }
}

/// Whether one of two features contains the other.
pub open spec fn features_in_inclusion(a: FeatureElement, b: FeatureElement) -> bool {
    in_inclusion(a.high as int, a.low as int, b.high as int, b.low as int)
}

/// The trend in which a feature meets the last one, for merging and for
/// its gap flag: descending where the last feature did not reach above the
/// one before it, ascending otherwise, and ascending at the start.
pub open spec fn ascending(features: Seq<FeatureElement>) -> bool {
    features.len() < 2 || features[features.len() - 1].high > features[features.len() - 2].high
}

/// The feature `prev` with `cur` merged into it: the higher high and higher
/// low in an ascending trend, the lower high and lower low in a descending
/// one. The pen index is that of `cur`.
pub open spec fn merged_feature(prev: FeatureElement, cur: FeatureElement, up: bool) -> FeatureElement {
    FeatureElement {
        high: if up {
            greater(prev.high as int, cur.high as int) as i64
        } else {
            lesser(prev.high as int, cur.high as int) as i64
        },
        low: if up {
            greater(prev.low as int, cur.low as int) as i64
        } else {
            lesser(prev.low as int, cur.low as int) as i64
        },
        direction: prev.direction,
        pen_idx: cur.pen_idx,
        has_gap: prev.has_gap,
    }
}

/// The feature `cur` with its gap flag set against `prev` in the given
/// trend.
pub open spec fn flagged(
    prev: FeatureElement,
    cur: FeatureElement,
    threshold: i64,
    up: bool,
) -> FeatureElement {
    FeatureElement {
        high: cur.high,
        low: cur.low,
        direction: cur.direction,
        pen_idx: cur.pen_idx,
        has_gap: gap_between(prev, cur, threshold, up),
    }
}

/// The feature `cur` as the first of a sequence.
pub open spec fn unflagged(cur: FeatureElement) -> FeatureElement {
    FeatureElement {
        high: cur.high,
        low: cur.low,
        direction: cur.direction,
        pen_idx: cur.pen_idx,
        has_gap: false,
    }
}

/// The feature sequence after the feature `cur` has arrived: merged into
/// the last feature where the two stand in inclusion and inclusion is
/// handled, appended with its gap flag otherwise. Both go by the trend of
/// the sequence before `cur`.
pub open spec fn absorb_feature(
    config: SegmentConfig,
    features: Seq<FeatureElement>,
    cur: FeatureElement,
) -> Seq<FeatureElement> {
    if features.len() == 0 {
        seq![unflagged(cur)]
    } else {
        let last = features[features.len() - 1];
        if config.handle_inclusion && features_in_inclusion(last, cur) {
            features.update(features.len() - 1, merged_feature(last, cur, ascending(features)))
        } else {
            features.push(flagged(last, cur, config.gap_threshold, ascending(features)))
        }
    }
}

/// The first `n` features of `raw`, with inclusion resolved.
pub open spec fn inclusion_processed(config: SegmentConfig, raw: Seq<FeatureElement>, n: int) -> Seq<
    FeatureElement,
>
    decreases n,
{
    if n <= 0 {
        Seq::empty()
    } else {
        absorb_feature(config, inclusion_processed(config, raw, n - 1), raw[n - 1])
    }
}

/// Number of features of a segment that starts at pen `start`: the pens at
/// odd distances behind it.
pub open spec fn feature_count(len: int, start: int) -> int {
    if 0 <= start < len {
        (len - start) / 2
    } else {
        0
    }
}

/// The feature sequence of the segment that starts at pen `start`, after
/// its first `m` features: the pens `start + 1`, `start + 3`, ...
pub open spec fn processed(config: SegmentConfig, pens: Seq<Pen>, start: int, m: int) -> Seq<
    FeatureElement,
>
    decreases m,
{
    if m <= 0 {
        Seq::empty()
    } else {
        absorb_feature(
            config,
            processed(config, pens, start, m - 1),
            feature_of(pens[start + 2 * m - 1], start + 2 * m - 1),
        )
    }
}

/// Whether `f` passes `first` against a segment of direction `direction`:
/// a lower low against an up segment, a higher high against a down
/// segment.
pub open spec fn breaks(direction: PenDirection, first: FeatureElement, f: FeatureElement) -> bool {
    match direction {
        PenDirection::Up => f.low < first.low,
        PenDirection::Down => f.high > first.high,
    }
}

/// The judgement on the window of features that starts at `w`, whose
/// second feature is the candidate end. Without a gap before the second
/// feature, the third must pass the first. With a gap, the third and a
/// fourth must both pass it; while there is no fourth, nothing is decided.
/// The segment runs against the direction of its features.
pub open spec fn window_break(features: Seq<FeatureElement>, w: int) -> Option<FeatureElement> {
    if 0 <= w && w + 2 < features.len() {
        let first = features[w];
        let second = features[w + 1];
        let third = features[w + 2];
        let direction = first.direction.flipped();
        if !second.has_gap {
            if breaks(direction, first, third) {
                Some(second)
            } else {
                None
            }
        } else if w + 3 < features.len() && breaks(direction, first, third) && breaks(
            direction,
            first,
            features[w + 3],
        ) {
            Some(second)
        } else {
            None
        }
    } else {
        None
    }
}

/// The pen behind the end of the segment from pen `start`, which is the
/// pen of the second feature of the first window from `w` on that shows a
/// break and leaves the segment at least `min_features_per_segment` pens.
pub open spec fn break_from(
    config: SegmentConfig,
    start: int,
    features: Seq<FeatureElement>,
    w: int,
) -> Option<int>
    decreases features.len() - w,
{
    if w < 0 || w + 2 >= features.len() {
        None
    } else {
        match window_break(features, w) {
            Some(second) => if second.pen_idx - start >= config.min_features_per_segment {
                Some(second.pen_idx as int)
            } else {
                break_from(config, start, features, w + 1)
            },
            None => break_from(config, start, features, w + 1),
        }
    }
}

/// The break of the segment from pen `start` as it shows after `m`
/// features: the pen behind the end of the segment.
pub open spec fn break_after(config: SegmentConfig, pens: Seq<Pen>, start: int, m: int) -> Option<int> {
    break_from(config, start, processed(config, pens, start, m), 0)
}

/// The first break of the segment from pen `start` that shows after `m` or
/// more features. A break, once it shows, stands.
pub open spec fn first_break(config: SegmentConfig, pens: Seq<Pen>, start: int, m: int) -> Option<int>
    decreases feature_count(pens.len() as int, start) - m + 1,
{
    if m < 0 || m > feature_count(pens.len() as int, start) {
        None
    } else {
        match break_after(config, pens, start, m) {
            Some(p) => Some(p),
            None => first_break(config, pens, start, m + 1),
        }
    }
}

/// The segment over the pens `start..=end`.
pub open spec fn segment_model(pens: Seq<Pen>, start: int, end: int, confirmed: bool) -> SegmentModel {
    SegmentModel {
        direction: pens[start].direction,
        start_pen_idx: start as usize,
        end_pen_idx: end as usize,
        start_price: pens[start].start_price,
        end_price: pens[end].end_price,
        pens: pens.subrange(start, end + 1),
        confirmed,
    }
}

/// Number of pens of the unconfirmed segment from pen `start`: the largest
/// odd number of pens that are left.
pub open spec fn tail_length(len: int, start: int) -> int {
    if (len - start) % 2 == 1 {
        len - start
    } else {
        len - start - 1
    }
}

/// The unconfirmed segment from pen `start`, where at least three pens and
/// at least `min_features_per_segment` pens are left.
pub open spec fn tail_segment(config: SegmentConfig, pens: Seq<Pen>, start: int) -> Seq<SegmentModel> {
    let count = tail_length(pens.len() as int, start);
    if count >= 3 && count >= config.min_features_per_segment {
        seq![segment_model(pens, start, start + count - 1, false)]
    } else {
        Seq::empty()
    }
}

/// The segments from pen `start` on: a confirmed segment up to each break,
/// the next one starting at the pen behind it, and the unconfirmed segment
/// at the end.
pub open spec fn segments_from(config: SegmentConfig, pens: Seq<Pen>, start: int) -> Seq<SegmentModel>
    decreases pens.len() - start,
{
    if start < 0 || start >= pens.len() {
        Seq::empty()
    } else {
        match first_break(config, pens, start, 0) {
            Some(p) => if start < p < pens.len() {
                seq![segment_model(pens, start, p - 1, true)] + segments_from(config, pens, p)
            } else {
                Seq::empty()
            },
            None => tail_segment(config, pens, start),
        }
    }
}

/// The segments of a pen sequence.
pub open spec fn segments_of(config: SegmentConfig, pens: Seq<Pen>) -> Seq<SegmentModel> {
    segments_from(config, pens, 0)
}

/// The models of a sequence of segments.
pub open spec fn segment_models(segments: Seq<Segment>) -> Seq<SegmentModel> {
    Seq::new(segments.len(), |i: int| segments[i]@)
}

/// What holds of the feature sequence of the segment from pen `start`
/// after `m` features: each feature stands for a pen at an odd distance
/// behind `start`, no earlier than its place in the sequence and no later
/// than the last pen read.
pub open spec fn features_sound(features: Seq<FeatureElement>, start: int, m: int) -> bool {
    &&& features.len() <= m
    &&& forall|k: int|
        0 <= k < features.len() ==> {
            let p = (#[trigger] features[k]).pen_idx as int;
            &&& start + 2 * k + 1 <= p <= start + 2 * m - 1
            &&& (p - start) % 2 == 1
        }
}

/// The feature sequence of a segment is sound after any number of
/// features.
pub proof fn lemma_processed_sound(config: SegmentConfig, pens: Seq<Pen>, start: int, m: int)
    requires
        0 <= start,
        0 <= m,
        start + 2 * m - 1 < pens.len(),
        pens.len() <= usize::MAX,
    ensures
        features_sound(processed(config, pens, start, m), start, m),
    decreases m,
{
    if m > 0 {
        lemma_processed_sound(config, pens, start, m - 1);
        let before = processed(config, pens, start, m - 1);
        let idx = start + 2 * m - 1;
        let cur = feature_of(pens[idx], idx);
        let after = absorb_feature(config, before, cur);
        assert(cur.pen_idx == idx);
        assert forall|k: int| 0 <= k < after.len() implies {
            let p = (#[trigger] after[k]).pen_idx as int;
            &&& start + 2 * k + 1 <= p <= start + 2 * m - 1
            &&& (p - start) % 2 == 1
        } by {
            if k < before.len() {
                let p = before[k].pen_idx as int;
                assert(start + 2 * k + 1 <= p <= start + 2 * (m - 1) - 1);
            }
        }
    }
}

/// A break puts the start of the next segment at an odd distance of at
/// least three behind the start of this one, no later than the last pen
/// read.
pub proof fn lemma_break_bounds(
    config: SegmentConfig,
    start: int,
    features: Seq<FeatureElement>,
    w: int,
    m: int,
)
    requires
        features_sound(features, start, m),
        0 <= w,
        break_from(config, start, features, w) is Some,
    ensures
        start + 3 <= break_from(config, start, features, w)->0 <= start + 2 * m - 1,
        (break_from(config, start, features, w)->0 - start) % 2 == 1,
    decreases features.len() - w,
{
    if w + 2 < features.len() {
        let p = features[w + 1].pen_idx as int;
        assert(start + 2 * (w + 1) + 1 <= p);
        match window_break(features, w) {
            Some(second) => {
                if !(second.pen_idx - start >= config.min_features_per_segment) {
                    lemma_break_bounds(config, start, features, w + 1, m);
                }
            },
            None => {
                lemma_break_bounds(config, start, features, w + 1, m);
            },
        }
    }
}

/// The first break of a segment puts the start of the next segment at a
/// pen of the sequence, at an odd distance of at least three behind the
/// start of this one.
pub proof fn lemma_first_break_bounds(config: SegmentConfig, pens: Seq<Pen>, start: int, m: int)
    requires
        0 <= start,
        0 <= m,
        pens.len() <= usize::MAX,
        first_break(config, pens, start, m) is Some,
    ensures
        start + 3 <= first_break(config, pens, start, m)->0 < pens.len(),
        (first_break(config, pens, start, m)->0 - start) % 2 == 1,
    decreases feature_count(pens.len() as int, start) - m + 1,
{
    if m <= feature_count(pens.len() as int, start) {
        match break_after(config, pens, start, m) {
            Some(p) => {
                lemma_processed_sound(config, pens, start, m);
                lemma_break_bounds(config, start, processed(config, pens, start, m), 0, m);
            },
            None => {
                lemma_first_break_bounds(config, pens, start, m + 1);
            },
        }
    }
}

/// In a sequence of pens that alternate, two pens point the same way
/// exactly where they lie an even distance apart.
pub proof fn lemma_alternation(pens: Seq<Pen>, i: int, j: int)
    requires
        pens_in_order(pens),
        0 <= i <= j < pens.len(),
    ensures
        (pens[i].direction == pens[j].direction) <==> (j - i) % 2 == 0,
    decreases j - i,
{
    if i < j {
        lemma_alternation(pens, i, j - 1);
        assert(pens[j - 1].direction != pens[j].direction);
    }
}

/// A segment as the builder makes it: an odd number of at least three
/// consecutive pens, the first and the last of which point the way of the
/// segment, with the start price of the first and the end price of the
/// last.
pub open spec fn segment_sound(seg: SegmentModel, pens: Seq<Pen>) -> bool {
    &&& 0 <= seg.start_pen_idx <= seg.end_pen_idx < pens.len()
    &&& seg.pens == pens.subrange(seg.start_pen_idx as int, seg.end_pen_idx + 1)
    &&& seg.pens.len() >= 3
    &&& seg.pens.len() % 2 == 1
    &&& seg.direction == pens[seg.start_pen_idx as int].direction
    &&& seg.direction == pens[seg.end_pen_idx as int].direction
    &&& seg.start_price == pens[seg.start_pen_idx as int].start_price
    &&& seg.end_price == pens[seg.end_pen_idx as int].end_price
}

/// Whether `b` can follow `a`: `b` starts at the pen behind the last pen of
/// `a`, points the other way, and `a` is confirmed.
pub open spec fn segments_linked(a: SegmentModel, b: SegmentModel) -> bool {
    &&& b.start_pen_idx == a.end_pen_idx + 1
    &&& b.direction != a.direction
    &&& a.confirmed
}

/// Every segment is sound, the first starts at pen `start`, and each is
/// linked to the next.
pub open spec fn segments_sound(segments: Seq<SegmentModel>, pens: Seq<Pen>, start: int) -> bool {
    &&& forall|i: int| 0 <= i < segments.len() ==> segment_sound(#[trigger] segments[i], pens)
    &&& segments.len() > 0 ==> segments[0].start_pen_idx == start
    &&& forall|i: int, j: int|
        0 <= i && j == i + 1 && j < segments.len() ==> segments_linked(
            #[trigger] segments[i],
            #[trigger] segments[j],
        )
}

/// The segments built from pens that alternate are sound and linked.
pub proof fn lemma_segments_sound(config: SegmentConfig, pens: Seq<Pen>, start: int)
    requires
        pens_in_order(pens),
        pens.len() <= usize::MAX,
        0 <= start,
    ensures
        segments_sound(segments_from(config, pens, start), pens, start),
    decreases pens.len() - start,
{
    if start < pens.len() {
        let segments = segments_from(config, pens, start);
        match first_break(config, pens, start, 0) {
            Some(p) => {
                lemma_first_break_bounds(config, pens, start, 0);
                lemma_segments_sound(config, pens, p);
                lemma_alternation(pens, start, p - 1);
                lemma_alternation(pens, start, p);
                let head = segment_model(pens, start, p - 1, true);
                let rest = segments_from(config, pens, p);
                assert(segments == seq![head] + rest);
                assert(segment_sound(head, pens));
                assert forall|i: int| 0 <= i < segments.len() implies segment_sound(
                    #[trigger] segments[i],
                    pens,
                ) by {
                    if i > 0 {
                        assert(segments[i] == rest[i - 1]);
                    }
                }
                assert forall|i: int, j: int|
                    0 <= i && j == i + 1 && j < segments.len() implies segments_linked(
                    #[trigger] segments[i],
                    #[trigger] segments[j],
                ) by {
                    assert(segments[j] == rest[j - 1]);
                    if i > 0 {
                        assert(segments[i] == rest[i - 1]);
                        assert(segments_linked(rest[i - 1], rest[j - 1]));
                    } else {
                        assert(segment_sound(rest[0], pens));
                    }
                }
            },
            None => {
                let count = tail_length(pens.len() as int, start);
                if count >= 3 && count >= config.min_features_per_segment {
                    lemma_alternation(pens, start, start + count - 1);
                }
            },
        }
    }
}

/// Whether `long` starts with the pens of `short`.
pub open spec fn pens_prefix(short: Seq<Pen>, long: Seq<Pen>) -> bool {
    &&& short.len() <= long.len()
    &&& forall|i: int| 0 <= i < short.len() ==> long[i] == #[trigger] short[i]
}

/// The feature sequence of a segment reads the pens up to its last feature
/// alone.
pub proof fn lemma_processed_reads_prefix(
    config: SegmentConfig,
    short: Seq<Pen>,
    long: Seq<Pen>,
    start: int,
    m: int,
)
    requires
        pens_prefix(short, long),
        0 <= start,
        0 <= m,
        start + 2 * m - 1 < short.len(),
    ensures
        processed(config, long, start, m) == processed(config, short, start, m),
    decreases m,
{
    if m > 0 {
        lemma_processed_reads_prefix(config, short, long, start, m - 1);
        assert(long[start + 2 * m - 1] == short[start + 2 * m - 1]);
    }
}

/// A break that shows in a pen sequence shows, at the same pen, in every
/// sequence that starts with it.
pub proof fn lemma_first_break_stands(
    config: SegmentConfig,
    short: Seq<Pen>,
    long: Seq<Pen>,
    start: int,
    m: int,
)
    requires
        pens_prefix(short, long),
        0 <= start,
        0 <= m,
        first_break(config, short, start, m) is Some,
    ensures
        first_break(config, long, start, m) == first_break(config, short, start, m),
    decreases feature_count(short.len() as int, start) - m + 1,
{
    let count = feature_count(short.len() as int, start);
    if m <= count {
        if m > 0 {
            assert(start < short.len());
            assert(2 * m <= short.len() - start);
            assert(m <= feature_count(long.len() as int, start));
            lemma_processed_reads_prefix(config, short, long, start, m);
        }
        match break_after(config, short, start, m) {
            Some(p) => {},
            None => {
                lemma_first_break_stands(config, short, long, start, m + 1);
            },
        }
    }
}

/// How the segments `before` live on in the segments `after`: every
/// confirmed segment stays as it is, at its place.
pub open spec fn segments_kept(before: Seq<SegmentModel>, after: Seq<SegmentModel>) -> bool {
    forall|i: int|
        0 <= i < before.len() && (#[trigger] before[i]).confirmed ==> i < after.len() && after[i]
            == before[i]
}

/// Confirmed segments stand: the confirmed segments of a pen sequence are
/// among the segments of every sequence that starts with it, at the same
/// places.
pub proof fn lemma_segments_stand(config: SegmentConfig, short: Seq<Pen>, long: Seq<Pen>, start: int)
    requires
        pens_prefix(short, long),
        0 <= start,
        short.len() <= usize::MAX,
    ensures
        segments_kept(segments_from(config, short, start), segments_from(config, long, start)),
    decreases short.len() - start,
{
    if start < short.len() {
        let before = segments_from(config, short, start);
        let after = segments_from(config, long, start);
        match first_break(config, short, start, 0) {
            Some(p) => {
                lemma_first_break_bounds(config, short, start, 0);
                lemma_first_break_stands(config, short, long, start, 0);
                lemma_segments_stand(config, short, long, p);
                let rest_before = segments_from(config, short, p);
                let rest_after = segments_from(config, long, p);
                assert(short.subrange(start, p) =~= long.subrange(start, p));
                assert(segment_model(short, start, p - 1, true) == segment_model(
                    long,
                    start,
                    p - 1,
                    true,
                ));
                assert forall|i: int| 0 <= i < before.len() && (#[trigger] before[i]).confirmed implies i
                    < after.len() && after[i] == before[i] by {
                    if i > 0 {
                        assert(before[i] == rest_before[i - 1]);
                        assert(rest_after[i - 1] == rest_before[i - 1]);
                        assert(after[i] == rest_after[i - 1]);
                    }
                }
            },
            None => {},
        }
    }
}

/// Segments come in index order: of two segments, the earlier one ends
/// before the later one starts.
pub proof fn lemma_segments_ascend(
    segments: Seq<SegmentModel>,
    pens: Seq<Pen>,
    start: int,
    i: int,
    j: int,
)
    requires
        segments_sound(segments, pens, start),
        0 <= i < j < segments.len(),
    ensures
        segments[i].start_pen_idx <= segments[i].end_pen_idx,
        segments[i].end_pen_idx < segments[j].start_pen_idx,
        segments[j].start_pen_idx <= segments[j].end_pen_idx,
    decreases j - i,
{
    assert(segment_sound(segments[i], pens));
    assert(segment_sound(segments[j], pens));
    if i + 1 < j {
        lemma_segments_ascend(segments, pens, start, i, j - 1);
        assert(segment_sound(segments[j - 1], pens));
    }
    assert(segments_linked(segments[j - 1], segments[j]));
}

/// Where consecutive pens share their endpoint, consecutive segments do
/// too: each segment starts at the price at which the one before it ends.
pub proof fn lemma_segment_prices_join(segments: Seq<SegmentModel>, pens: Seq<Pen>, start: int, i: int)
    requires
        segments_sound(segments, pens, start),
        forall|a: int, b: int|
            0 <= a && b == a + 1 && b < pens.len() ==> (#[trigger] pens[a]).end_price == (
            #[trigger] pens[b]).start_price,
        0 <= i,
        i + 1 < segments.len(),
    ensures
        segments[i + 1].start_price == segments[i].end_price,
{
    assert(segment_sound(segments[i], pens));
    assert(segment_sound(segments[i + 1], pens));
    assert(segments_linked(segments[i], segments[i + 1]));
    let e = segments[i].end_pen_idx as int;
    assert(pens[e].end_price == pens[e + 1].start_price);
}

/// What the segment builder is doing.
#[derive(Debug, Clone, Copy, PartialEq, Eq, Structural)]
pub enum BuilderState {
    /// Fewer than three pens are at hand for the next segment.
    Seeking,
    /// A segment of the given direction is being built.
    Building(PenDirection),
    /// A segment of the given direction is being built, and the window that
    /// would end it at the pen given holds a gap and waits for its fourth
    /// feature.
    GapPending(PenDirection, usize),
}

/// The pen at which the segment under construction starts: the pen behind
/// the last break.
pub open spec fn current_start(config: SegmentConfig, pens: Seq<Pen>, start: int) -> int
    decreases pens.len() - start,
{
    if start < 0 || start >= pens.len() {
        start
    } else {
        match first_break(config, pens, start, 0) {
            Some(p) => if start < p < pens.len() {
                current_start(config, pens, p)
            } else {
                start
            },
            None => start,
        }
    }
}

/// The state that the feature sequence of the segment under construction
/// puts the builder in.
pub open spec fn state_of_features(direction: PenDirection, features: Seq<FeatureElement>) -> BuilderState {
    if features.len() >= 3 && features[features.len() - 2].has_gap {
        BuilderState::GapPending(direction, features[features.len() - 2].pen_idx)
    } else {
        BuilderState::Building(direction)
    }
}

/// The state of the builder after the given pens.
pub open spec fn builder_state(config: SegmentConfig, pens: Seq<Pen>) -> BuilderState {
    let start = current_start(config, pens, 0);
    if pens.len() - start < 3 {
        BuilderState::Seeking
    } else {
        state_of_features(
            pens[start].direction,
            processed(config, pens, start, feature_count(pens.len() as int, start)),
        )
    }
}

/// Divides pens into segments.
#[derive(Debug, Clone, Copy)]
pub struct SegmentCalculator {
    config: SegmentConfig,
}

impl SegmentCalculator {
    /// The rules this calculator uses.
    pub closed spec fn config(&self) -> SegmentConfig {
        self.config
    }

    /// A calculator with the given rules.
    pub fn new(config: SegmentConfig) -> (c: Self)
        ensures
            c.config() == config,
    {
        SegmentCalculator { config }
    }

    /// A calculator that handles inclusion, asks for three pens and counts
    /// any distance as a gap.
    pub fn with_defaults() -> (c: Self)
        ensures
            c.config() == (SegmentConfig {
                use_feature_sequence: true,
                handle_inclusion: true,
                min_features_per_segment: 3,
                gap_threshold: 0,
            }),
    {
        SegmentCalculator {
            config: SegmentConfig {
                use_feature_sequence: true,
                handle_inclusion: true,
                min_features_per_segment: 3,
                gap_threshold: 0,
            },
        }
    }

    /// The rules this calculator uses.
    pub fn get_config(&self) -> (c: SegmentConfig)
        ensures
            c == self.config(),
    {
        self.config
    }

    /// Runtime test of what `divide_segments` asks of its pens.
    pub fn pens_are_in_order(pens: &[Pen]) -> (ok: bool)
        ensures
            ok == pens_in_order(pens@),
    {
        let n = pens.len();
        let mut i: usize = 0;
        while i < n
            invariant
                i <= n,
                n == pens@.len(),
                forall|k: int| 0 <= k < i ==> (#[trigger] pens@[k]).start_idx <= pens@[k].end_idx,
                forall|k: int, j: int|
                    0 <= k && j == k + 1 && j < i ==> (#[trigger] pens@[k]).direction != (
                    #[trigger] pens@[j]).direction && pens@[k].end_idx <= pens@[j].start_idx,
            decreases n - i,
        {
            if pens[i].start_idx > pens[i].end_idx {
                return false;
            }
            if i > 0 {
                if pens[i - 1].direction == pens[i].direction || pens[i - 1].end_idx
                    > pens[i].start_idx {
                    assert(!pens_in_order(pens@)) by {
                        if pens_in_order(pens@) {
                            let a = pens@[i - 1];
                            let b = pens@[i as int];
                            assert(a.direction != b.direction && a.end_idx <= b.start_idx);
                        }
                    }
                    return false;
                }
            }
            i = i + 1;
        }
        true
    }

    /// The feature that pen `idx` gives.
    pub fn feature(pen: &Pen, idx: usize) -> (f: FeatureElement)
        ensures
            f == feature_of(*pen, idx as int),
    {
        FeatureElement {
            high: crate::fixed::max_of(pen.start_price, pen.end_price),
            low: crate::fixed::min_of(pen.start_price, pen.end_price),
            direction: pen.direction,
            pen_idx: idx,
            has_gap: false,
        }
    }

    /// Whether a gap separates `curr` from `prev` in an ascending trend, as
    /// at the start of a feature sequence: `curr` lies above `prev` by more
    /// than the gap threshold.
    pub fn has_gap(&self, prev: &FeatureElement, curr: &FeatureElement) -> (b: bool)
        ensures
            b == gap_between(*prev, *curr, self.config().gap_threshold, true),
    {
        self.has_gap_in(prev, curr, true)
    }

    /// Whether a gap separates `curr` from `prev` in the given trend: above
    /// `prev` by more than the gap threshold where the trend is ascending,
    /// below it where the trend is descending.
    pub fn has_gap_in(&self, prev: &FeatureElement, curr: &FeatureElement, ascending: bool) -> (b: bool)
        ensures
            b == gap_between(*prev, *curr, self.config().gap_threshold, ascending),
    {
        let threshold = self.config.gap_threshold as i128;
        if ascending {
            curr.low as i128 - prev.high as i128 > threshold
        } else {
            prev.low as i128 - curr.high as i128 > threshold
        }
    }

    /// Takes one more feature into a feature sequence.
    pub fn absorb(&self, features: &mut Vec<FeatureElement>, cur: FeatureElement)
        ensures
            final(features)@ == absorb_feature(self.config(), old(features)@, cur),
    {
        let len = features.len();
        if len == 0 {
            features.push(
                FeatureElement {
                    high: cur.high,
                    low: cur.low,
                    direction: cur.direction,
                    pen_idx: cur.pen_idx,
                    has_gap: false,
                },
            );
            assert(features@ =~= absorb_feature(self.config(), old(features)@, cur));
            return ;
        }
        let last = features[len - 1];
        let included = (last.high >= cur.high && last.low <= cur.low) || (cur.high >= last.high
            && cur.low <= last.low);
        if self.config.handle_inclusion && included {
            let up = len < 2 || last.high > features[len - 2].high;
            features[len - 1] = FeatureElement {
                high: if up {
                    crate::fixed::max_of(last.high, cur.high)
                } else {
                    crate::fixed::min_of(last.high, cur.high)
                },
                low: if up {
                    crate::fixed::max_of(last.low, cur.low)
                } else {
                    crate::fixed::min_of(last.low, cur.low)
                },
                direction: last.direction,
                pen_idx: cur.pen_idx,
                has_gap: last.has_gap,
            };
            assert(features@ =~= absorb_feature(self.config(), old(features)@, cur));
        } else {
            let up = len < 2 || last.high > features[len - 2].high;
            let gap = self.has_gap_in(&last, &cur, up);
            features.push(
                FeatureElement {
                    high: cur.high,
                    low: cur.low,
                    direction: cur.direction,
                    pen_idx: cur.pen_idx,
                    has_gap: gap,
                },
            );
            assert(features@ =~= absorb_feature(self.config(), old(features)@, cur));
        }
    }

    /// Resolves inclusion in a feature sequence: a feature that contains
    /// the one before it, or is contained in it, is merged into it along
    /// the trend of the two features before; every other feature gets its
    /// gap flag.
    pub fn process_feature_inclusion(&self, features: Vec<FeatureElement>) -> (out: Vec<FeatureElement>)
        ensures
            out@ == inclusion_processed(self.config(), features@, features@.len() as int),
    {
        let mut out: Vec<FeatureElement> = Vec::new();
        let n = features.len();
        let mut i: usize = 0;
        while i < n
            invariant
                i <= n,
                n == features@.len(),
                out@ == inclusion_processed(self.config(), features@, i as int),
            decreases n - i,
        {
            self.absorb(&mut out, features[i]);
            i = i + 1;
        }
        out
    }

    /// The feature sequence of the segment that starts at the first pen:
    /// the pens at odd positions, with inclusion resolved.
    pub fn build_feature_sequence(&self, pens: &[Pen]) -> (out: Vec<FeatureElement>)
        ensures
            out@ == processed(self.config(), pens@, 0, feature_count(pens@.len() as int, 0)),
    {
        let mut out: Vec<FeatureElement> = Vec::new();
        let n = pens.len();
        let total = n / 2;
        let mut m: usize = 0;
        while m < total
            invariant
                m <= total,
                total == n / 2,
                n == pens@.len(),
                out@ == processed(self.config(), pens@, 0, m as int),
            decreases total - m,
        {
            m = m + 1;
            let idx = 2 * m - 1;
            self.absorb(&mut out, Self::feature(&pens[idx], idx));
        }
        out
    }

    /// The judgement on the window of three or four features that starts at
    /// `start`: the second feature, where the window shows a break.
    pub fn find_segment_break<'a>(&self, features: &'a [FeatureElement], start: usize) -> (r: Option<
        &'a FeatureElement,
    >)
        ensures
            match r {
                Some(second) => window_break(features@, start as int) == Some(*second),
                None => window_break(features@, start as int) is None,
            },
    {
        let n = features.len();
        if n < 3 || start >= n - 2 {
            return None;
        }
        let first = &features[start];
        let second = &features[start + 1];
        let third = &features[start + 2];
        let third_breaks = match first.direction {
            PenDirection::Down => third.low < first.low,
            PenDirection::Up => third.high > first.high,
        };
        if !second.has_gap {
            if third_breaks {
                return Some(second);
            }
        } else if n - start > 3 {
            let fourth = &features[start + 3];
            let fourth_breaks = match first.direction {
                PenDirection::Down => fourth.low < first.low,
                PenDirection::Up => fourth.high > first.high,
            };
            if third_breaks && fourth_breaks {
                return Some(second);
            }
        }
        None
    }

    /// The pen behind the end of the segment from pen `start`: the pen of
    /// the second feature of the first window of `features` that shows a
    /// break.
    pub fn find_break(&self, features: &[FeatureElement], start: usize) -> (r: Option<usize>)
        ensures
            match r {
                Some(p) => break_from(self.config(), start as int, features@, 0) == Some(p as int),
                None => break_from(self.config(), start as int, features@, 0) is None,
            },
    {
        let n = features.len();
        let mut w: usize = 0;
        while n >= 3 && w < n - 2
            invariant
                n == features@.len(),
                n >= 3 ==> w <= n - 2,
                break_from(self.config(), start as int, features@, 0) == break_from(
                    self.config(),
                    start as int,
                    features@,
                    w as int,
                ),
            decreases n - w,
        {
            match self.find_segment_break(features, w) {
                Some(second) => {
                    if second.pen_idx >= start && second.pen_idx - start
                        >= self.config.min_features_per_segment {
                        return Some(second.pen_idx);
                    }
                },
                None => {},
            }
            w = w + 1;
        }
        None
    }

    /// The unconfirmed segment over the pens `start_idx..=end_idx`.
    pub fn create_segment(&self, pens: &[Pen], start_idx: usize, end_idx: usize) -> (seg: Segment)
        requires
            start_idx <= end_idx < pens@.len(),
        ensures
            seg@ == segment_model(pens@, start_idx as int, end_idx as int, false),
    {
        let mut contained: Vec<Pen> = Vec::new();
        let mut i: usize = start_idx;
        while i <= end_idx
            invariant
                start_idx <= i <= end_idx + 1,
                end_idx < pens@.len(),
                contained@ == pens@.subrange(start_idx as int, i as int),
            decreases end_idx + 1 - i,
        {
            contained.push(pens[i]);
            assert(contained@ =~= pens@.subrange(start_idx as int, i + 1));
            i = i + 1;
        }
        Segment {
            direction: pens[start_idx].direction,
            start_pen_idx: start_idx,
            end_pen_idx: end_idx,
            start_price: pens[start_idx].start_price,
            end_price: pens[end_idx].end_price,
            contained_pens: contained,
            confirmed: false,
        }
    }

    /// The pen behind the first break of the segment from pen `start`,
    /// found by taking its features one at a time and judging the windows
    /// after each; with it, the feature sequence as far as it was taken.
    fn first_break_of(&self, pens: &[Pen], start: usize) -> (r: (Option<usize>, Vec<FeatureElement>))
        requires
            start < pens@.len(),
        ensures
            match r.0 {
                Some(p) => first_break(self.config(), pens@, start as int, 0) == Some(p as int),
                None => first_break(self.config(), pens@, start as int, 0) is None && r.1@
                    == processed(
                    self.config(),
                    pens@,
                    start as int,
                    feature_count(pens@.len() as int, start as int),
                ),
            },
    {
        let n = pens.len();
        let total = (n - start) / 2;
        let mut features: Vec<FeatureElement> = Vec::new();
        let mut m: usize = 0;
        while m < total
            invariant
                m <= total,
                total == feature_count(n as int, start as int),
                n == pens@.len(),
                start < n,
                features@ == processed(self.config(), pens@, start as int, m as int),
                break_after(self.config(), pens@, start as int, m as int) is None,
                first_break(self.config(), pens@, start as int, 0) == first_break(
                    self.config(),
                    pens@,
                    start as int,
                    m as int,
                ),
            decreases total - m,
        {
            m = m + 1;
            let idx = start + (2 * m - 1);
            self.absorb(&mut features, Self::feature(&pens[idx], idx));
            match self.find_break(features.as_slice(), start) {
                Some(p) => {
                    return (Some(p), features);
                },
                None => {},
            }
        }
        proof {
            assert(first_break(self.config(), pens@, start as int, total + 1) is None);
            assert(first_break(self.config(), pens@, start as int, total as int) == first_break(
                self.config(),
                pens@,
                start as int,
                total + 1,
            ));
        }
        (None, features)
    }

    /// What the builder is doing after the given pens: seeking while fewer
    /// than three pens are at hand behind the last break, else building,
    /// with a gap pending where the last window holds a gap before its
    /// second feature.
    pub fn state(&self, pens: &[Pen]) -> (st: BuilderState)
        ensures
            st == builder_state(self.config(), pens@),
    {
        let n = pens.len();
        let mut start: usize = 0;
        while start < n
            invariant
                start <= n,
                n == pens@.len(),
                current_start(self.config(), pens@, 0) == current_start(
                    self.config(),
                    pens@,
                    start as int,
                ),
            decreases n - start,
        {
            let (found, features) = self.first_break_of(pens, start);
            match found {
                Some(p) => {
                    proof {
                        lemma_first_break_bounds(self.config(), pens@, start as int, 0);
                    }
                    start = p;
                },
                None => {
                    if n - start < 3 {
                        return BuilderState::Seeking;
                    }
                    let direction = pens[start].direction;
                    let count = features.len();
                    if count >= 3 && features[count - 2].has_gap {
                        return BuilderState::GapPending(direction, features[count - 2].pen_idx);
                    }
                    return BuilderState::Building(direction);
                },
            }
        }
        BuilderState::Seeking
    }

    /// Divides pens into segments. A segment ends where a window of its
    /// feature sequence shows a break: at the pen before the window's
    /// second feature. The next segment starts at that feature's pen and
    /// runs the other way. What is left at the end forms the unconfirmed
    /// segment, where it has at least three pens.
    pub fn divide_segments(&self, pens: &[Pen]) -> (out: Vec<Segment>)
        requires
            pens_in_order(pens@),
        ensures
            segment_models(out@) == segments_of(self.config(), pens@),
            segments_sound(segment_models(out@), pens@, 0),
            pens@.len() < 3 ==> out@.len() == 0,
    {
        let mut out: Vec<Segment> = Vec::new();
        let n = pens.len();
        let mut start: usize = 0;
        assert(segment_models(out@) =~= Seq::<SegmentModel>::empty());
        while start < n
            invariant
                start <= n,
                n == pens@.len(),
                pens_in_order(pens@),
                segment_models(out@) + segments_from(self.config(), pens@, start as int) == segments_of(
                    self.config(),
                    pens@,
                ),
            decreases n - start,
        {
            let ghost done = segment_models(out@);
            match self.first_break_of(pens, start).0 {
                Some(p) => {
                    proof {
                        lemma_first_break_bounds(self.config(), pens@, start as int, 0);
                    }
                    let mut segment = self.create_segment(pens, start, p - 1);
                    segment.confirmed = true;
                    let ghost model = segment@;
                    out.push(segment);
                    assert(segment_models(out@) =~= done.push(model));
                    assert(done.push(model) + segments_from(self.config(), pens@, p as int) =~= done
                        + segments_from(self.config(), pens@, start as int));
                    start = p;
                },
                None => {
                    let left = n - start;
                    let count = if left % 2 == 1 {
                        left
                    } else {
                        left - 1
                    };
                    if count >= 3 && count >= self.config.min_features_per_segment {
                        let segment = self.create_segment(pens, start, start + count - 1);
                        let ghost model = segment@;
                        out.push(segment);
                        assert(segment_models(out@) =~= done.push(model));
                        assert(done.push(model) =~= done + segments_from(
                            self.config(),
                            pens@,
                            start as int,
                        ));
                    } else {
                        assert(done =~= done + segments_from(self.config(), pens@, start as int));
                    }
                    proof {
                        lemma_segments_sound(self.config(), pens@, 0);
                        if n < 3 {
                            lemma_short_has_no_segment(self.config(), pens@);
                        }
                    }
                    return out;
                },
            }
        }
        proof {
            assert(segment_models(out@) =~= segment_models(out@) + segments_from(
                self.config(),
                pens@,
                start as int,
            ));
            lemma_segments_sound(self.config(), pens@, 0);
            if n < 3 {
                lemma_short_has_no_segment(self.config(), pens@);
            }
        }
        out
    }
}

/// Fewer than three pens form no segment.
pub proof fn lemma_short_has_no_segment(config: SegmentConfig, pens: Seq<Pen>)
    requires
        pens.len() < 3,
        pens.len() <= usize::MAX,
    ensures
        segments_of(config, pens).len() == 0,
{
    if pens.len() > 0 {
        if first_break(config, pens, 0, 0) is Some {
            lemma_first_break_bounds(config, pens, 0, 0);
        }
    }
}

} // verus!
