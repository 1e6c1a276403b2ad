//! Candles, timeframes and candle series.

use vstd::prelude::*;
use vstd::string::StrSliceExecFns;
use vstd::string::StringExecFns;
use crate::fixed::PRICE_LIMIT;

verus! {

/// One OHLCV candle. Prices, volume and turnover are fixed-point values;
/// `timestamp` counts milliseconds since the Unix epoch.
#[derive(Debug, Clone, Copy)]
pub struct Kline {
    /// Time at which the candle opened.
    pub timestamp: i64,
    /// Open price.
    pub open: i64,
    /// High price.
    pub high: i64,
    /// Low price.
    pub low: i64,
    /// Close price.
    pub close: i64,
    /// Traded volume.
    pub volume: i64,
    /// Turnover, where the venue reports it.
    pub turnover: Option<i64>,
}

impl Kline {
    /// Whether `p` lies within the representable price range.
    pub open spec fn price_in_range(p: i64) -> bool {
        -PRICE_LIMIT <= p <= PRICE_LIMIT
    }

    /// The candle invariant: `low <= min(open, close)`,
    /// `max(open, close) <= high`, a volume that is not negative, and all
    /// four prices within the representable range.
    pub open spec fn well_formed(&self) -> bool {
        &&& self.low <= self.open <= self.high
        &&& self.low <= self.close <= self.high
        &&& self.volume >= 0
        &&& Self::price_in_range(self.low)
        &&& Self::price_in_range(self.high)
    }

    /// A candle without turnover.
    pub fn new(timestamp: i64, open: i64, high: i64, low: i64, close: i64, volume: i64) -> (k: Self)
        ensures
            k == (Kline { timestamp, open, high, low, close, volume, turnover: None }),
    {
        Kline { timestamp, open, high, low, close, volume, turnover: None }
    }

    /// Runtime test of the candle invariant.
    pub fn is_well_formed(&self) -> (ok: bool)
        ensures
            ok == self.well_formed(),
    {
        self.low <= self.open && self.open <= self.high && self.low <= self.close && self.close
            <= self.high && self.volume >= 0 && -PRICE_LIMIT <= self.low && self.low <= PRICE_LIMIT
            && -PRICE_LIMIT <= self.high && self.high <= PRICE_LIMIT
    }

    /// Close above open.
    pub fn is_bullish(&self) -> (b: bool)
        ensures
            b == (self.close > self.open),
    {
        self.close > self.open
    }

    /// Close below open.
    pub fn is_bearish(&self) -> (b: bool)
        ensures
            b == (self.close < self.open),
    {
        self.close < self.open
    }

    /// High minus low.
    pub fn range(&self) -> (r: i64)
        requires
            i64::MIN <= self.high - self.low <= i64::MAX,
        ensures
            r == self.high - self.low,
    {
        self.high - self.low
    }

    /// Distance between open and close.
    pub fn body_size(&self) -> (r: i64)
        requires
            crate::fixed::magnitude(self.close - self.open) <= i64::MAX,
        ensures
            r == crate::fixed::magnitude(self.close - self.open),
    {
        if self.close >= self.open {
            self.close - self.open
        } else {
            self.open - self.close
        }
    }

    /// High minus the larger of open and close.
    pub fn upper_shadow(&self) -> (r: i64)
        requires
            i64::MIN <= self.high - crate::fixed::greater(self.open as int, self.close as int)
                <= i64::MAX,
        ensures
            r == self.high - crate::fixed::greater(self.open as int, self.close as int),
    {
        self.high - crate::fixed::max_of(self.open, self.close)
    }

    /// The smaller of open and close, minus low.
    pub fn lower_shadow(&self) -> (r: i64)
        requires
            i64::MIN <= crate::fixed::lesser(self.open as int, self.close as int) - self.low
                <= i64::MAX,
        ensures
            r == crate::fixed::lesser(self.open as int, self.close as int) - self.low,
    {
        crate::fixed::min_of(self.open, self.close) - self.low
    }
}

/// Length of the time bucket of a candle.
#[derive(Debug, Clone, Copy, PartialEq, Eq, Hash, Structural)]
pub enum TimeFrame {
    /// One minute.
    M1,
    /// Three minutes.
    M3,
    /// Five minutes.
    M5,
    /// Fifteen minutes.
    M15,
    /// Thirty minutes.
    M30,
    /// One hour.
    H1,
    /// Four hours.
    H4,
    /// One day.
    D1,
    /// One week.
    W1,
    /// One month, counted as thirty days.
    MN,
}

/// The upper-case form of the letters that occur in timeframe codes; any
/// other character stays as it is.
pub open spec fn fold_case(c: char) -> char {
    if c == 'm' {
        'M'
    } else if c == 'h' {
        'H'
    } else if c == 'd' {
        'D'
    } else if c == 'w' {
        'W'
    } else if c == 'n' {
        'N'
    } else {
        c
    }
}

/// Whether `s` spells `code`, letter case aside.
pub open spec fn spells(s: Seq<char>, code: Seq<char>) -> bool {
    &&& s.len() == code.len()
    &&& forall|i: int| 0 <= i < s.len() ==> fold_case(#[trigger] s[i]) == code[i]
}

/// Whether `s` spells the two characters `a b` or `b a`.
pub open spec fn spells_pair(s: Seq<char>, a: char, b: char) -> bool {
    spells(s, seq![a, b]) || spells(s, seq![b, a])
}

/// The timeframe that a code names, letter case aside: a count followed by
/// a unit letter, or the unit letter first. `m` is the minute; the month is
/// `mn`.
pub open spec fn timeframe_of(s: Seq<char>) -> Option<TimeFrame> {
    if spells_pair(s, '1', 'M') {
        Some(TimeFrame::M1)
    } else if spells_pair(s, '3', 'M') {
        Some(TimeFrame::M3)
    } else if spells_pair(s, '5', 'M') {
        Some(TimeFrame::M5)
    } else if spells(s, seq!['1', '5', 'M']) || spells(s, seq!['M', '1', '5']) {
        Some(TimeFrame::M15)
    } else if spells(s, seq!['3', '0', 'M']) || spells(s, seq!['M', '3', '0']) {
        Some(TimeFrame::M30)
    } else if spells_pair(s, '1', 'H') {
        Some(TimeFrame::H1)
    } else if spells_pair(s, '4', 'H') {
        Some(TimeFrame::H4)
    } else if spells_pair(s, '1', 'D') {
        Some(TimeFrame::D1)
    } else if spells_pair(s, '1', 'W') {
        Some(TimeFrame::W1)
    } else if spells(s, seq!['1', 'M', 'N']) || spells(s, seq!['M', 'N']) {
        Some(TimeFrame::MN)
    } else {
        None
    }
}

/// Upper-case form of a letter that occurs in timeframe codes.
fn fold(c: char) -> (r: char)
    ensures
        r == fold_case(c),
{
    if c == 'm' {
        'M'
    } else if c == 'h' {
        'H'
    } else if c == 'd' {
        'D'
    } else if c == 'w' {
        'W'
    } else if c == 'n' {
        'N'
    } else {
        c
    }
}

/// Whether `s`, of `n` characters, spells `a b`.
fn spells_two(s: &str, n: usize, a: char, b: char) -> (r: bool)
    requires
        n == s@.len(),
    ensures
        r == spells(s@, seq![a, b]),
{
    if n != 2 {
        return false;
    }
    let c0 = fold(s.get_char(0));
    let c1 = fold(s.get_char(1));
    c0 == a && c1 == b
}

/// Whether `s`, of `n` characters, spells `a b c`.
fn spells_three(s: &str, n: usize, a: char, b: char, c: char) -> (r: bool)
    requires
        n == s@.len(),
    ensures
        r == spells(s@, seq![a, b, c]),
{
    if n != 3 {
        return false;
    }
    let c0 = fold(s.get_char(0));
    let c1 = fold(s.get_char(1));
    let c2 = fold(s.get_char(2));
    c0 == a && c1 == b && c2 == c
}

/// Whether `s`, of `n` characters, spells `a b` or `b a`.
fn spells_either(s: &str, n: usize, a: char, b: char) -> (r: bool)
    requires
        n == s@.len(),
    ensures
        r == spells_pair(s@, a, b),
{
    spells_two(s, n, a, b) || spells_two(s, n, b, a)
}

impl TimeFrame {
    /// Minutes in the bucket.
    pub open spec fn minutes_of(self) -> int {
        match self {
            TimeFrame::M1 => 1,
            TimeFrame::M3 => 3,
            TimeFrame::M5 => 5,
            TimeFrame::M15 => 15,
            TimeFrame::M30 => 30,
            TimeFrame::H1 => 60,
            TimeFrame::H4 => 240,
            TimeFrame::D1 => 1440,
            TimeFrame::W1 => 10080,
            TimeFrame::MN => 43200,
        }
    }

    /// The code that names the timeframe.
    pub open spec fn code_of(self) -> Seq<char> {
        match self {
            TimeFrame::M1 => "1m"@,
            TimeFrame::M3 => "3m"@,
            TimeFrame::M5 => "5m"@,
            TimeFrame::M15 => "15m"@,
            TimeFrame::M30 => "30m"@,
            TimeFrame::H1 => "1h"@,
            TimeFrame::H4 => "4h"@,
            TimeFrame::D1 => "1d"@,
            TimeFrame::W1 => "1w"@,
            TimeFrame::MN => "1M"@,
        }
    }

    /// Minutes in the bucket.
    pub fn minutes(&self) -> (m: u32)
        ensures
            m == self.minutes_of(),
    {
        match self {
            TimeFrame::M1 => 1,
            TimeFrame::M3 => 3,
            TimeFrame::M5 => 5,
            TimeFrame::M15 => 15,
            TimeFrame::M30 => 30,
            TimeFrame::H1 => 60,
            TimeFrame::H4 => 240,
            TimeFrame::D1 => 1440,
            TimeFrame::W1 => 10080,
            TimeFrame::MN => 43200,
        }
    }

    /// Seconds in the bucket.
    pub fn seconds(&self) -> (secs: u64)
        ensures
            secs == self.minutes_of() * 60,
    {
        self.minutes() as u64 * 60
    }

    /// Reads a timeframe code, letter case aside.
    pub fn from_str(s: &str) -> (r: Option<Self>)
        ensures
            r == timeframe_of(s@),
    {
        let n = s.unicode_len();
        if spells_either(s, n, '1', 'M') {
            Some(TimeFrame::M1)
        } else if spells_either(s, n, '3', 'M') {
            Some(TimeFrame::M3)
        } else if spells_either(s, n, '5', 'M') {
            Some(TimeFrame::M5)
        } else if spells_three(s, n, '1', '5', 'M') || spells_three(s, n, 'M', '1', '5') {
            Some(TimeFrame::M15)
        } else if spells_three(s, n, '3', '0', 'M') || spells_three(s, n, 'M', '3', '0') {
            Some(TimeFrame::M30)
        } else if spells_either(s, n, '1', 'H') {
            Some(TimeFrame::H1)
        } else if spells_either(s, n, '4', 'H') {
            Some(TimeFrame::H4)
        } else if spells_either(s, n, '1', 'D') {
            Some(TimeFrame::D1)
        } else if spells_either(s, n, '1', 'W') {
            Some(TimeFrame::W1)
        } else if spells_three(s, n, '1', 'M', 'N') || spells_two(s, n, 'M', 'N') {
            Some(TimeFrame::MN)
        } else {
            None
        }
    }

    /// The code that names the timeframe: `1m` for the minute, `1M` for the
    /// month.
    pub fn to_string(&self) -> (s: String)
        ensures
            s@ == self.code_of(),
    {
        match self {
            TimeFrame::M1 => String::from_str("1m"),
            TimeFrame::M3 => String::from_str("3m"),
            TimeFrame::M5 => String::from_str("5m"),
            TimeFrame::M15 => String::from_str("15m"),
            TimeFrame::M30 => String::from_str("30m"),
            TimeFrame::H1 => String::from_str("1h"),
            TimeFrame::H4 => String::from_str("4h"),
            TimeFrame::D1 => String::from_str("1d"),
            TimeFrame::W1 => String::from_str("1w"),
            TimeFrame::MN => String::from_str("1M"),
        }
    }
}

/// The candles of one instrument at one timeframe, oldest first.
#[derive(Debug, Clone)]
pub struct KlineSeries {
    /// Timeframe of the candles.
    pub timeframe: TimeFrame,
    /// The candles, oldest first.
    pub klines: Vec<Kline>,
    /// Name of the instrument.
    pub symbol: String,
}

impl KlineSeries {
    /// An empty series.
    pub fn new(symbol: String, timeframe: TimeFrame) -> (s: Self)
        ensures
            s.symbol == symbol,
            s.timeframe == timeframe,
            s.klines@.len() == 0,
    {
        KlineSeries { symbol, timeframe, klines: Vec::new() }
    }

    /// Appends a candle.
    pub fn push(&mut self, kline: Kline)
        ensures
            final(self).klines@ == old(self).klines@.push(kline),
            final(self).symbol == old(self).symbol,
            final(self).timeframe == old(self).timeframe,
    {
        self.klines.push(kline);
    }

    /// The newest candle.
    pub fn latest(&self) -> (r: Option<&Kline>)
        ensures
            self.klines@.len() == 0 ==> r is None,
            self.klines@.len() > 0 ==> r == Some(&self.klines@[self.klines@.len() - 1]),
    {
        let n = self.klines.len();
        if n == 0 {
            None
        } else {
            Some(&self.klines[n - 1])
        }
    }

    /// The position that `index` names: itself where it is not negative,
    /// else counted back from the end, `-1` being the newest candle.
    pub open spec fn position(len: int, index: int) -> int {
        if index >= 0 {
            index
        } else {
            len + index
        }
    }

    /// The candle at `index`; a negative index counts back from the end.
    pub fn get(&self, index: isize) -> (r: Option<&Kline>)
        ensures
            ({
                let at = Self::position(self.klines@.len() as int, index as int);
                if 0 <= at < self.klines@.len() {
                    r == Some(&self.klines@[at])
                } else {
                    r is None
                }
            }),
    {
        let n = self.klines.len();
        if index >= 0 {
            let at = index as usize;
            if at < n {
                Some(&self.klines[at])
            } else {
                None
            }
        } else {
            let back: usize = (-(index as i128)) as usize;
            if back <= n {
                Some(&self.klines[n - back])
            } else {
                None
            }
        }
    }

    /// Number of candles.
    pub fn len(&self) -> (n: usize)
        ensures
            n == self.klines@.len(),
    {
        self.klines.len()
    }

    /// Whether the series holds no candle.
    pub fn is_empty(&self) -> (b: bool)
        ensures
            b == (self.klines@.len() == 0),
    {
        self.klines.len() == 0
    }
}

} // verus!
