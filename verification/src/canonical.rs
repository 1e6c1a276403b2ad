//! Canonical candles: the candle sequence with inclusion between
//! neighbours resolved.

use vstd::prelude::*;
use crate::fixed::greater;
use crate::fixed::lesser;
use crate::kline::Kline;

verus! {

/// One or more consecutive raw candles collapsed into one.
#[derive(Debug, Clone, Copy, PartialEq, Eq, Structural)]
pub struct CanonicalCandle {
    /// Position in the canonical sequence.
    pub idx: usize,
    /// Timestamp of the first member.
    pub t_first: i64,
    /// Timestamp of the last member.
    pub t_last: i64,
    /// High of the collapsed candle.
    pub high: i64,
    /// Low of the collapsed candle.
    pub low: i64,
    /// Raw index of the first member.
    pub first_member: usize,
    /// Raw index of the last member. The members are the raw candles from
    /// the first to the last.
    pub last_member: usize,
}

/// Whether the range `[a_low, a_high]` contains `[b_low, b_high]`.
pub open spec fn contains_range(a_high: int, a_low: int, b_high: int, b_low: int) -> bool {
    a_high >= b_high && a_low <= b_low
}

/// Whether one of two ranges contains the other.
pub open spec fn in_inclusion(a_high: int, a_low: int, b_high: int, b_low: int) -> bool {
    contains_range(a_high, a_low, b_high, b_low) || contains_range(b_high, b_low, a_high, a_low)
}

/// Whether two canonical candles stand in inclusion.
pub open spec fn candles_in_inclusion(a: CanonicalCandle, b: CanonicalCandle) -> bool {
    in_inclusion(a.high as int, a.low as int, b.high as int, b.low as int)
}

/// Whether high and low both rose from `a` to `b`.
pub open spec fn rose(a: CanonicalCandle, b: CanonicalCandle) -> bool {
    b.high > a.high && b.low > a.low
}

/// Whether high and low both fell from `a` to `b`.
pub open spec fn fell(a: CanonicalCandle, b: CanonicalCandle) -> bool {
    b.high < a.high && b.low < a.low
}

/// The direction in which a candle is merged into the last canonical
/// candle: down where the last canonical candle fell against the one before
/// it, up otherwise, and up at the start of the series.
pub open spec fn merges_upward(out: Seq<CanonicalCandle>) -> bool {
    out.len() < 2 || !fell(out[out.len() - 2], out[out.len() - 1])
}

/// The canonical candle that a single raw candle makes.
pub open spec fn single(k: Kline, idx: int, raw_idx: int) -> CanonicalCandle {
    CanonicalCandle {
        idx: idx as usize,
        t_first: k.timestamp,
        t_last: k.timestamp,
        high: k.high,
        low: k.low,
        first_member: raw_idx as usize,
        last_member: raw_idx as usize,
    }
}

/// The candle `c` with the raw candle `k` merged into it: the higher high
/// and higher low when merging upward, the lower high and lower low when
/// merging downward.
pub open spec fn merged(c: CanonicalCandle, k: Kline, raw_idx: int, upward: bool) -> CanonicalCandle {
    CanonicalCandle {
        idx: c.idx,
        t_first: c.t_first,
        t_last: k.timestamp,
        high: if upward {
            greater(c.high as int, k.high as int) as i64
        } else {
            lesser(c.high as int, k.high as int) as i64
        },
        low: if upward {
            greater(c.low as int, k.low as int) as i64
        } else {
            lesser(c.low as int, k.low as int) as i64
        },
        first_member: c.first_member,
        last_member: raw_idx as usize,
    }
}

/// The canonical sequence `out` after the raw candle `k` with raw index
/// `raw_idx` has arrived.
pub open spec fn absorb(out: Seq<CanonicalCandle>, k: Kline, raw_idx: int) -> Seq<CanonicalCandle> {
    if out.len() == 0 {
        seq![single(k, 0, raw_idx)]
    } else {
        let last = out[out.len() - 1];
        if in_inclusion(last.high as int, last.low as int, k.high as int, k.low as int) {
            out.drop_last().push(merged(last, k, raw_idx, merges_upward(out)))
        } else {
            out.push(single(k, out.len() as int, raw_idx))
        }
    }
}

/// The canonical sequence of the first `n` raw candles.
pub open spec fn canonical_prefix(klines: Seq<Kline>, n: int) -> Seq<CanonicalCandle>
    decreases n,
{
    if n <= 0 {
        Seq::empty()
    } else {
        absorb(canonical_prefix(klines, n - 1), klines[n - 1], n - 1)
    }
}

/// The canonical sequence of a raw candle sequence.
pub open spec fn canonical_of(klines: Seq<Kline>) -> Seq<CanonicalCandle> {
    canonical_prefix(klines, klines.len() as int)
}

/// Whether `b` can follow `a` in a canonical sequence: its members start
/// right behind those of `a`, and the two do not stand in inclusion.
pub open spec fn candles_linked(a: CanonicalCandle, b: CanonicalCandle) -> bool {
    &&& a.last_member + 1 == b.first_member
    &&& !candles_in_inclusion(a, b)
}

/// The invariant of a canonical sequence: positions count from zero, the
/// members of consecutive candles are consecutive stretches of raw indices
/// that start at zero, and no two neighbours stand in inclusion.
pub open spec fn canonical_well_formed(out: Seq<CanonicalCandle>) -> bool {
    &&& forall|i: int|
        0 <= i < out.len() ==> (#[trigger] out[i]).idx == i && out[i].first_member
            <= out[i].last_member
    &&& out.len() > 0 ==> out[0].first_member == 0
    &&& forall|i: int, j: int|
        0 <= i && j == i + 1 && j < out.len() ==> candles_linked(#[trigger] out[i], #[trigger] out[j])
}

/// Absorbing a raw candle keeps a canonical sequence well formed.
pub proof fn lemma_absorb_well_formed(before: Seq<CanonicalCandle>, k: Kline, n: int)
    requires
        canonical_well_formed(before),
        0 <= n < usize::MAX,
        before.len() <= n,
        before.len() > 0 ==> before[before.len() - 1].last_member == n - 1,
        before.len() == 0 ==> n == 0,
    ensures
        canonical_well_formed(absorb(before, k, n)),
        before.len() <= absorb(before, k, n).len() <= before.len() + 1,
        absorb(before, k, n).len() > 0,
        absorb(before, k, n)[absorb(before, k, n).len() - 1].last_member == n,
{
    let after = absorb(before, k, n);
    if before.len() > 0 {
        let e = before.len() - 1;
        let last = before[e];
        if in_inclusion(last.high as int, last.low as int, k.high as int, k.low as int) {
            assert forall|i: int| 0 <= i < after.len() implies (#[trigger] after[i]).idx == i
                && after[i].first_member <= after[i].last_member by {
                if i < e {
                    assert(after[i] == before[i]);
                }
            }
            assert forall|i: int, j: int| 0 <= i && j == i + 1 && j < after.len() implies candles_linked(
                #[trigger] after[i],
                #[trigger] after[j],
            ) by {
                assert(candles_linked(before[i], before[j]));
            }
        } else {
            assert forall|i: int, j: int| 0 <= i && j == i + 1 && j < after.len() implies candles_linked(
                #[trigger] after[i],
                #[trigger] after[j],
            ) by {
                if j < before.len() {
                    assert(candles_linked(before[i], before[j]));
                }
            }
        }
    }
}

/// The canonical sequence of `n` raw candles is well formed, is no longer
/// than `n`, and its members end at raw index `n - 1`.
pub proof fn lemma_canonical_prefix(klines: Seq<Kline>, n: int)
    requires
        0 <= n <= klines.len(),
        n <= usize::MAX,
    ensures
        canonical_well_formed(canonical_prefix(klines, n)),
        canonical_prefix(klines, n).len() <= n,
        n > 0 ==> canonical_prefix(klines, n).len() > 0 && canonical_prefix(klines, n).last().last_member
            == n - 1,
    decreases n,
{
    if n > 0 {
        lemma_canonical_prefix(klines, n - 1);
        lemma_absorb_well_formed(canonical_prefix(klines, n - 1), klines[n - 1], n - 1);
    }
}

/// Between two neighbours of a canonical sequence, high and low either
/// both rose or both fell.
pub proof fn lemma_neighbours_rise_or_fall(out: Seq<CanonicalCandle>, i: int)
    requires
        canonical_well_formed(out),
        0 <= i,
        i + 1 < out.len(),
    ensures
        rose(out[i], out[i + 1]) != fell(out[i], out[i + 1]),
{
    assert(candles_linked(out[i], out[i + 1]));
}

/// How a canonical sequence `before` lives on in a later one: every candle
/// but the last stays as it is, and the last one keeps its place and its
/// first member and moves only the way it was already heading: down where
/// it fell against the candle before it, up otherwise.
pub open spec fn carried_on(before: Seq<CanonicalCandle>, after: Seq<CanonicalCandle>) -> bool {
    &&& before.len() <= after.len()
    &&& forall|i: int| 0 <= i && i + 1 < before.len() ==> after[i] == #[trigger] before[i]
    &&& before.len() > 0 ==> {
        let e = before.len() - 1;
        let x = before[e];
        let y = after[e];
        &&& y.idx == x.idx
        &&& y.first_member == x.first_member
        &&& y.t_first == x.t_first
        &&& if before.len() >= 2 && fell(before[e - 1], x) {
            y.high <= x.high && y.low <= x.low
        } else {
            y.high >= x.high && y.low >= x.low
        }
    }
}

/// A canonical sequence lives on in itself with one more raw candle
/// absorbed.
pub proof fn lemma_absorb_carries_on(before: Seq<CanonicalCandle>, k: Kline, n: int)
    requires
        canonical_well_formed(before),
    ensures
        carried_on(before, absorb(before, k, n)),
{
    if before.len() >= 2 {
        let e = before.len() - 1;
        assert(candles_linked(before[e - 1], before[e]));
    }
}

/// Living on is transitive along well-formed sequences.
pub proof fn lemma_carried_on_transitive(
    a: Seq<CanonicalCandle>,
    b: Seq<CanonicalCandle>,
    c: Seq<CanonicalCandle>,
)
    requires
        canonical_well_formed(a),
        carried_on(a, b),
        carried_on(b, c),
    ensures
        carried_on(a, c),
{
    if a.len() > 0 {
        let e = a.len() - 1;
        if a.len() >= 2 {
            assert(candles_linked(a[e - 1], a[e]));
            assert(b[e - 1] == a[e - 1]);
        }
        if a.len() < b.len() {
            assert(c[e] == b[e]);
        }
    }
    assert forall|i: int| 0 <= i && i + 1 < a.len() implies c[i] == #[trigger] a[i] by {
        assert(b[i] == a[i]);
        assert(c[i] == b[i]);
    }
}

/// The canonical sequence of a prefix of the raw candles lives on in the
/// canonical sequence of a longer prefix.
pub proof fn lemma_canonical_carries_on(klines: Seq<Kline>, n: int, later: int)
    requires
        0 <= n <= later <= klines.len(),
        later <= usize::MAX,
    ensures
        carried_on(canonical_prefix(klines, n), canonical_prefix(klines, later)),
    decreases later - n,
{
    lemma_canonical_prefix(klines, n);
    if n < later {
        lemma_canonical_carries_on(klines, n, later - 1);
        lemma_canonical_prefix(klines, later - 1);
        lemma_absorb_carries_on(canonical_prefix(klines, later - 1), klines[later - 1], later - 1);
        lemma_carried_on_transitive(
            canonical_prefix(klines, n),
            canonical_prefix(klines, later - 1),
            canonical_prefix(klines, later),
        );
    }
}

/// The canonical sequence of the first `n` raw candles depends on those
/// candles alone.
pub proof fn lemma_canonical_reads_prefix(a: Seq<Kline>, b: Seq<Kline>, n: int)
    requires
        0 <= n <= a.len(),
        n <= b.len(),
        forall|i: int| 0 <= i < n ==> a[i] == b[i],
    ensures
        canonical_prefix(a, n) == canonical_prefix(b, n),
    decreases n,
{
    if n > 0 {
        lemma_canonical_reads_prefix(a, b, n - 1);
    }
}

/// Resolves inclusion between neighbouring candles: a candle that contains
/// its predecessor's canonical candle, or is contained in it, is merged
/// into it, in the direction in which the canonical sequence was moving.
/// The result depends on the candles read so far alone.
pub fn canonicalize(klines: &[Kline]) -> (out: Vec<CanonicalCandle>)
    ensures
        out@ == canonical_of(klines@),
        canonical_well_formed(out@),
        out@.len() <= klines@.len(),
        klines@.len() > 0 ==> out@.len() > 0,
        forall|i: int| 0 <= i < out@.len() ==> (#[trigger] out@[i]).last_member < klines@.len(),
{
    let mut out: Vec<CanonicalCandle> = Vec::new();
    let n = klines.len();
    let mut i: usize = 0;
    while i < n
        invariant
            i <= n,
            n == klines@.len(),
            out@ == canonical_prefix(klines@, i as int),
            out@.len() <= i,
            forall|k: int| 0 <= k < out@.len() ==> (#[trigger] out@[k]).last_member < i,
        decreases n - i,
    {
        let k = klines[i];
        let len = out.len();
        proof {
            lemma_canonical_prefix(klines@, i as int);
            lemma_canonical_prefix(klines@, i + 1);
        }
        if len == 0 {
            out.push(
                CanonicalCandle {
                    idx: 0,
                    t_first: k.timestamp,
                    t_last: k.timestamp,
                    high: k.high,
                    low: k.low,
                    first_member: i,
                    last_member: i,
                },
            );
            assert(out@ =~= absorb(canonical_prefix(klines@, i as int), k, i as int));
        } else {
            let last = out[len - 1];
            let includes = (last.high >= k.high && last.low <= k.low) || (k.high >= last.high && k.low
                <= last.low);
            if includes {
                let upward = len < 2 || !(last.high < out[len - 2].high && last.low < out[len
                    - 2].low);
                let ghost before = out@;
                let m = CanonicalCandle {
                    idx: last.idx,
                    t_first: last.t_first,
                    t_last: k.timestamp,
                    high: if upward {
                        crate::fixed::max_of(last.high, k.high)
                    } else {
                        crate::fixed::min_of(last.high, k.high)
                    },
                    low: if upward {
                        crate::fixed::max_of(last.low, k.low)
                    } else {
                        crate::fixed::min_of(last.low, k.low)
                    },
                    first_member: last.first_member,
                    last_member: i,
                };
                out[len - 1] = m;
                assert(out@ =~= absorb(before, k, i as int));
            } else {
                let ghost before = out@;
                out.push(
                    CanonicalCandle {
                        idx: len,
                        t_first: k.timestamp,
                        t_last: k.timestamp,
                        high: k.high,
                        low: k.low,
                        first_member: i,
                        last_member: i,
                    },
                );
                assert(out@ =~= absorb(before, k, i as int));
            }
        }
        i = i + 1;
    }
    proof {
        lemma_canonical_prefix(klines@, n as int);
    }
    out
}

impl CanonicalCandle {
    /// The raw indices of the members, in order: those from the first
    /// member to the last.
    pub fn members(&self) -> (m: Vec<usize>)
        ensures
            m@.len() == (if self.first_member <= self.last_member {
                self.last_member - self.first_member + 1
            } else {
                0
            }),
            forall|i: int| 0 <= i < m@.len() ==> #[trigger] m@[i] == self.first_member + i,
    {
        let mut m: Vec<usize> = Vec::new();
        if self.first_member > self.last_member {
            return m;
        }
        let mut r: usize = self.first_member;
        m.push(r);
        while r < self.last_member
            invariant
                self.first_member <= r <= self.last_member,
                m@.len() == r - self.first_member + 1,
                forall|i: int| 0 <= i < m@.len() ==> #[trigger] m@[i] == self.first_member + i,
            decreases self.last_member - r,
        {
            r = r + 1;
            m.push(r);
        }
        m
    }
}

} // verus!
