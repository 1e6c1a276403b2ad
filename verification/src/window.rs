//! The last records of a list, as queries ask for them.

use vstd::prelude::*;
use crate::bsp::BuySellPoint;
use crate::bsp::models_of;
use crate::segment::Segment;
use crate::segment::segment_models;

verus! {

/// The last `n` elements of `s`; all of them where `n` is zero or exceeds
/// their number.
pub open spec fn last_window<T>(s: Seq<T>, n: int) -> Seq<T> {
    if n <= 0 || n >= s.len() {
        s
    } else {
        s.subrange(s.len() - n, s.len() as int)
    }
}

/// The index at which the last `n` of `len` elements start.
fn window_start(len: usize, n: usize) -> (from: usize)
    ensures
        from <= len,
        from == (if n == 0 || n >= len {
            0
        } else {
            len - n
        }),
{
    if n == 0 || n >= len {
        0
    } else {
        len - n
    }
}

/// The last `n` elements of `v`; all of them where `n` is zero or exceeds
/// their number.
pub fn tail_of<T: Copy>(v: &Vec<T>, n: usize) -> (out: Vec<T>)
    ensures
        out@ == last_window(v@, n as int),
{
    let len = v.len();
    let from = window_start(len, n);
    let mut out: Vec<T> = Vec::new();
    let mut i: usize = from;
    while i < len
        invariant
            from <= i <= len,
            len == v@.len(),
            out@ == v@.subrange(from as int, i as int),
        decreases len - i,
    {
        out.push(v[i]);
        assert(out@ =~= v@.subrange(from as int, i + 1));
        i = i + 1;
    }
    assert(v@.subrange(0, len as int) =~= v@);
    out
}

/// The last `n` segments of `v`; all of them where `n` is zero or exceeds
/// their number.
pub fn tail_of_segments(v: &Vec<Segment>, n: usize) -> (out: Vec<Segment>)
    ensures
        segment_models(out@) == last_window(segment_models(v@), n as int),
{
    let len = v.len();
    let from = window_start(len, n);
    let ghost all = segment_models(v@);
    let mut out: Vec<Segment> = Vec::new();
    let mut i: usize = from;
    assert(segment_models(out@) =~= all.subrange(from as int, i as int));
    while i < len
        invariant
            from <= i <= len,
            len == v@.len(),
            all == segment_models(v@),
            segment_models(out@) == all.subrange(from as int, i as int),
        decreases len - i,
    {
        let ghost before = segment_models(out@);
        out.push(v[i].duplicate());
        assert(segment_models(out@) =~= before.push(v@[i as int]@));
        assert(before.push(v@[i as int]@) =~= all.subrange(from as int, i + 1));
        i = i + 1;
    }
    assert(all.subrange(0, len as int) =~= all);
    out
}

/// The last `n` buy and sell points of `v`; all of them where `n` is zero
/// or exceeds their number.
pub fn tail_of_points(v: &Vec<BuySellPoint>, n: usize) -> (out: Vec<BuySellPoint>)
    ensures
        models_of(out@) == last_window(models_of(v@), n as int),
{
    let len = v.len();
    let from = window_start(len, n);
    let ghost all = models_of(v@);
    let mut out: Vec<BuySellPoint> = Vec::new();
    let mut i: usize = from;
    assert(models_of(out@) =~= all.subrange(from as int, i as int));
    while i < len
        invariant
            from <= i <= len,
            len == v@.len(),
            all == models_of(v@),
            models_of(out@) == all.subrange(from as int, i as int),
        decreases len - i,
    {
        let ghost before = models_of(out@);
        out.push(v[i].duplicate());
        assert(models_of(out@) =~= before.push(v@[i as int]@));
        assert(before.push(v@[i as int]@) =~= all.subrange(from as int, i + 1));
        i = i + 1;
    }
    assert(all.subrange(0, len as int) =~= all);
    out
}

} // verus!
