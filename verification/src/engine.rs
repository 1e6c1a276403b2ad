//! The candle store of one series: batches are checked on entry, so the
//! series is valid at all times, and every analysis is computed from the
//! candles stored.

use vstd::prelude::*;
use vstd::string::StringExecFns;
use crate::kline::Kline;
use crate::pipeline::Analysis;
use crate::pipeline::EngineConfig;
use crate::pipeline::all_candles_well_formed;
use crate::pipeline::analysis_of;
use crate::pipeline::analyze;
use crate::text::decimal_digits;

verus! {

/// Why a batch of candles was refused.
#[derive(Debug, Clone, Copy, PartialEq, Eq, Structural)]
pub struct InputError {
    /// Position in the batch of the first candle at fault.
    pub first_index: usize,
    /// Number of candles that break the candle invariant.
    pub malformed: usize,
    /// Number of candles that are older than the candle before them.
    pub out_of_order: usize,
}

/// The timestamp of the newest candle of a series.
pub open spec fn last_timestamp(series: Seq<Kline>) -> Option<i64> {
    if series.len() == 0 {
        None
    } else {
        Some(series[series.len() - 1].timestamp)
    }
}

/// Whether candle `i` of a batch is older than the candle before it; for
/// the first candle of the batch that is the newest candle stored, `last`.
pub open spec fn out_of_order_at(last: Option<i64>, batch: Seq<Kline>, i: int) -> bool {
    if i == 0 {
        last is Some && batch[0].timestamp < last->0
    } else {
        batch[i].timestamp < batch[i - 1].timestamp
    }
}

/// Whether candle `i` of a batch is at fault.
pub open spec fn faulty_at(last: Option<i64>, batch: Seq<Kline>, i: int) -> bool {
    !batch[i].well_formed() || out_of_order_at(last, batch, i)
}

/// Whether no candle of the batch is at fault.
pub open spec fn batch_acceptable(last: Option<i64>, batch: Seq<Kline>) -> bool {
    forall|i: int| 0 <= i < batch.len() ==> !faulty_at(last, batch, i)
}

/// Number of malformed candles among the first `n` of a batch.
pub open spec fn malformed_upto(batch: Seq<Kline>, n: int) -> nat
    decreases n,
{
    if n <= 0 {
        0
    } else if batch[n - 1].well_formed() {
        malformed_upto(batch, n - 1)
    } else {
        malformed_upto(batch, n - 1) + 1
    }
}

/// Number of out-of-order candles among the first `n` of a batch.
pub open spec fn out_of_order_upto(last: Option<i64>, batch: Seq<Kline>, n: int) -> nat
    decreases n,
{
    if n <= 0 {
        0
    } else if out_of_order_at(last, batch, n - 1) {
        out_of_order_upto(last, batch, n - 1) + 1
    } else {
        out_of_order_upto(last, batch, n - 1)
    }
}

/// Whether `e` describes the faults of the batch: the first candle at
/// fault, and how many candles are malformed and how many out of order.
pub open spec fn describes_faults(e: InputError, last: Option<i64>, batch: Seq<Kline>) -> bool {
    &&& e.first_index < batch.len()
    &&& faulty_at(last, batch, e.first_index as int)
    &&& forall|j: int| 0 <= j < e.first_index ==> !faulty_at(last, batch, j)
    &&& e.malformed == malformed_upto(batch, batch.len() as int)
    &&& e.out_of_order == out_of_order_upto(last, batch, batch.len() as int)
}

/// A stored series: every candle satisfies the candle invariant, and time
/// does not run backwards.
pub open spec fn series_valid(series: Seq<Kline>) -> bool {
    &&& all_candles_well_formed(series)
    &&& forall|i: int, j: int|
        0 <= i && j == i + 1 && j < series.len() ==> (#[trigger] series[i]).timestamp <= (
        #[trigger] series[j]).timestamp
}

/// The text of an input error.
pub open spec fn error_text(e: InputError) -> Seq<char> {
    "batch rejected: "@ + decimal_digits(e.malformed as nat) + " malformed, "@ + decimal_digits(
        e.out_of_order as nat,
    ) + " out of order, first at index "@ + decimal_digits(e.first_index as nat)
}

impl InputError {
    /// The error in words, with its counts and the first index at fault.
    pub fn message(&self) -> (s: String)
        ensures
            s@ == error_text(*self),
    {
        let mut s = String::from_str("batch rejected: ");
        let malformed = crate::text::render_decimal(self.malformed as u128);
        s.append(malformed.as_str());
        s.append(" malformed, ");
        let out_of_order = crate::text::render_decimal(self.out_of_order as u128);
        s.append(out_of_order.as_str());
        s.append(" out of order, first at index ");
        let first = crate::text::render_decimal(self.first_index as u128);
        s.append(first.as_str());
        s
    }
}

/// Checks a batch against the newest candle stored. The batch passes if
/// every candle satisfies the candle invariant and none is older than the
/// candle before it.
pub fn validate_batch(last: Option<i64>, batch: &[Kline]) -> (r: Result<(), InputError>)
    ensures
        match r {
            Ok(_) => batch_acceptable(last, batch@),
            Err(e) => describes_faults(e, last, batch@),
        },
{
    let n = batch.len();
    let mut first: Option<usize> = None;
    let mut malformed: usize = 0;
    let mut out_of_order: usize = 0;
    let mut i: usize = 0;
    while i < n
        invariant
            i <= n,
            n == batch@.len(),
            malformed == malformed_upto(batch@, i as int),
            out_of_order == out_of_order_upto(last, batch@, i as int),
            malformed <= i,
            out_of_order <= i,
            match first {
                Some(f) => f < i && faulty_at(last, batch@, f as int) && forall|j: int|
                    0 <= j < f ==> !faulty_at(last, batch@, j),
                None => forall|j: int| 0 <= j < i ==> !faulty_at(last, batch@, j),
            },
        decreases n - i,
    {
        let k = batch[i];
        let bad_shape = !k.is_well_formed();
        let bad_order = if i == 0 {
            match last {
                Some(t) => k.timestamp < t,
                None => false,
            }
        } else {
            k.timestamp < batch[i - 1].timestamp
        };
        if bad_shape {
            malformed = malformed + 1;
        }
        if bad_order {
            out_of_order = out_of_order + 1;
        }
        if (bad_shape || bad_order) && first.is_none() {
            first = Some(i);
        }
        i = i + 1;
    }
    match first {
        Some(f) => Err(InputError { first_index: f, malformed, out_of_order }),
        None => Ok(()),
    }
}

/// A valid series that takes an acceptable batch stays valid.
pub proof fn lemma_accepted_batch_keeps_series_valid(series: Seq<Kline>, batch: Seq<Kline>)
    requires
        series_valid(series),
        batch_acceptable(last_timestamp(series), batch),
    ensures
        series_valid(series + batch),
{
    let whole = series + batch;
    let last = last_timestamp(series);
    assert forall|i: int| 0 <= i < whole.len() implies (#[trigger] whole[i]).well_formed() by {
        if i >= series.len() {
            assert(!faulty_at(last, batch, i - series.len()));
        }
    }
    assert forall|i: int, j: int| 0 <= i && j == i + 1 && j < whole.len() implies (
    #[trigger] whole[i]).timestamp <= (#[trigger] whole[j]).timestamp by {
        if j >= series.len() {
            assert(!faulty_at(last, batch, j - series.len()));
        } else {
            assert(series[i].timestamp <= series[j].timestamp);
        }
    }
}

/// Feeding a series in two batches or in one comes to the same: the two
/// batches are accepted exactly where the joined batch is, and the same
/// candles are stored. Every analysis is a function of the candles stored,
/// so it is the same either way.
pub proof fn lemma_batches_join(series: Seq<Kline>, a: Seq<Kline>, b: Seq<Kline>)
    ensures
        batch_acceptable(last_timestamp(series), a + b) <==> (batch_acceptable(
            last_timestamp(series),
            a,
        ) && batch_acceptable(last_timestamp(series + a), b)),
        (series + a) + b == series + (a + b),
        forall|config: EngineConfig| #[trigger]
            analysis_of(config, (series + a) + b) == analysis_of(config, series + (a + b)),
{
    let last = last_timestamp(series);
    let mid = last_timestamp(series + a);
    let joined = a + b;
    assert((series + a) + b =~= series + (a + b));
    if batch_acceptable(last, joined) {
        assert forall|i: int| 0 <= i < a.len() implies !faulty_at(last, a, i) by {
            assert(!faulty_at(last, joined, i));
            if i > 0 {
                assert(joined[i - 1] == a[i - 1]);
            }
        }
        assert forall|i: int| 0 <= i < b.len() implies !faulty_at(mid, b, i) by {
            assert(!faulty_at(last, joined, a.len() + i));
            assert(joined[a.len() + i] == b[i]);
            if i > 0 {
                assert(joined[a.len() + i - 1] == b[i - 1]);
            } else if a.len() > 0 {
                assert(joined[a.len() - 1] == a[a.len() - 1]);
                assert((series + a)[series.len() + a.len() - 1] == a[a.len() - 1]);
            }
        }
    }
    if batch_acceptable(last, a) && batch_acceptable(mid, b) {
        assert forall|i: int| 0 <= i < joined.len() implies !faulty_at(last, joined, i) by {
            if i < a.len() {
                assert(!faulty_at(last, a, i));
                if i > 0 {
                    assert(joined[i - 1] == a[i - 1]);
                }
            } else {
                let k = i - a.len();
                assert(!faulty_at(mid, b, k));
                assert(joined[i] == b[k]);
                if k > 0 {
                    assert(joined[i - 1] == b[k - 1]);
                } else if a.len() > 0 {
                    assert(joined[i - 1] == a[a.len() - 1]);
                    assert((series + a)[series.len() + a.len() - 1] == a[a.len() - 1]);
                }
            }
        }
    }
}

/// The candles of one instrument at one timeframe, with the settings under
/// which they are analysed.
#[derive(Debug)]
pub struct Engine {
    config: EngineConfig,
    klines: Vec<Kline>,
}

impl Engine {
    /// The settings.
    pub closed spec fn config(&self) -> EngineConfig {
        self.config
    }

    /// The candles stored, oldest first.
    pub closed spec fn series(&self) -> Seq<Kline> {
        self.klines@
    }

    /// What holds of every engine: its series is valid.
    #[verifier::type_invariant]
    pub closed spec fn well_formed(&self) -> bool {
        series_valid(self.klines@)
    }

    /// An engine that holds no candle.
    pub fn new(config: EngineConfig) -> (e: Self)
        ensures
            e.config() == config,
            e.series() == Seq::<Kline>::empty(),
    {
        Engine { config, klines: Vec::new() }
    }

    /// Number of candles stored.
    pub fn len(&self) -> (n: usize)
        ensures
            n == self.series().len(),
    {
        self.klines.len()
    }

    /// Takes a batch of candles. An acceptable batch is appended to the
    /// series and its length returned. A batch with a fault is refused as a
    /// whole, and the series stays as it was.
    pub fn submit(&mut self, batch: &[Kline]) -> (r: Result<usize, InputError>)
        ensures
            final(self).config() == old(self).config(),
            series_valid(old(self).series()),
            series_valid(final(self).series()),
            match r {
                Ok(n) => n == batch@.len() && batch_acceptable(
                    last_timestamp(old(self).series()),
                    batch@,
                ) && final(self).series() == old(self).series() + batch@,
                Err(e) => describes_faults(e, last_timestamp(old(self).series()), batch@)
                    && final(self).series() == old(self).series(),
            },
    {
        proof {
            use_type_invariant(&*self);
        }
        let stored = self.klines.len();
        let last = if stored == 0 {
            None
        } else {
            Some(self.klines[stored - 1].timestamp)
        };
        match validate_batch(last, batch) {
            Err(e) => Err(e),
            Ok(_) => {
                let n = batch.len();
                let ghost before = self.klines@;
                let mut series: Vec<Kline> = Vec::new();
                core::mem::swap(&mut self.klines, &mut series);
                let mut i: usize = 0;
                assert(series@ =~= before + batch@.take(0));
                while i < n
                    invariant
                        i <= n,
                        n == batch@.len(),
                        series_valid(before),
                        batch_acceptable(last_timestamp(before), batch@),
                        series@ == before + batch@.take(i as int),
                    decreases n - i,
                {
                    series.push(batch[i]);
                    assert(series@ =~= before + batch@.take(i + 1));
                    i = i + 1;
                }
                proof {
                    assert(batch@.take(n as int) =~= batch@);
                    lemma_accepted_batch_keeps_series_valid(before, batch@);
                }
                core::mem::swap(&mut self.klines, &mut series);
                Ok(n)
            },
        }
    }

    /// The settings.
    pub fn get_config(&self) -> (c: EngineConfig)
        ensures
            c == self.config(),
    {
        self.config
    }

    /// Runs the pipeline over the candles stored.
    pub fn analyze(&self) -> (out: Analysis)
        ensures
            out@ == analysis_of(self.config(), self.series()),
            series_valid(self.series()),
    {
        proof {
            use_type_invariant(self);
        }
        analyze(&self.config, self.klines.as_slice())
    }

    /// Runs the pipeline over the candles stored, under other settings.
    pub fn analyze_with(&self, config: &EngineConfig) -> (out: Analysis)
        ensures
            out@ == analysis_of(*config, self.series()),
            series_valid(self.series()),
    {
        proof {
            use_type_invariant(self);
        }
        analyze(config, self.klines.as_slice())
    }
}

} // verus!
