//! Core market data types and the string forms of the trading enums.
//!
//! Timestamps are UTC instants held as milliseconds since the Unix epoch.
use crate::decimal::{lemma_seq_sum_prefix_some, seq_sum, Dec};
use crate::text::{ascii_lower_char, ascii_only, ascii_upper_char, str_eq, to_uppercase, unicode_upper};
use chrono::Datelike;
use vstd::prelude::*;

verus! {

/// Milliseconds in a minute.
pub open spec fn minute_ms() -> int {
    60_000
}

/// Milliseconds in an hour.
pub open spec fn hour_ms() -> int {
    3_600_000
}

/// Milliseconds in a day.
pub open spec fn day_ms() -> int {
    86_400_000
}

/// The timestamps that the library handles: instants within about 250,000 years of the epoch,
/// inside the range of `chrono`'s `DateTime<Utc>`.
pub open spec fn valid_timestamp(ts: int) -> bool {
    -8_000_000_000_000_000 <= ts <= 8_000_000_000_000_000
}

/// The largest multiple of `period` that is not above `ts`.
pub open spec fn floor_to(ts: int, period: int) -> int {
    ts - ts % period
}

/// The day of the month (1 to 31) of the UTC instant `ts_ms` in the proleptic Gregorian
/// calendar: the days counted from 0000-03-01 are split into 400-year eras, the era's days
/// into years and the year's days into months counted from March.
pub open spec fn utc_day_of_month(ts_ms: int) -> int {
    let z = ts_ms / 86_400_000 + 719_468;
    let doe = z % 146_097;
    let yoe = (doe - doe / 1460 + doe / 36_524 - doe / 146_096) / 365;
    let doy = doe - (365 * yoe + yoe / 4 - yoe / 100);
    let mp = (5 * doy + 2) / 153;
    doy - (153 * mp + 2) / 5 + 1
}

/// Calls `DateTime::<Utc>::from_timestamp_millis(..).day()`. Claimed: the result is the UTC
/// calendar day of the month of the instant, as `chrono` documents for `Datelike::day`, in
/// `1..=31`.
#[verifier::external_body]
fn day_of_month(ts_ms: i64) -> (d: u32)
    requires
        valid_timestamp(ts_ms as int),
    ensures
        d == utc_day_of_month(ts_ms as int),
        1 <= d <= 31,
{

    chrono::DateTime::from_timestamp_millis(ts_ms).unwrap().day()
}

/// Flooring to a multiple of `p` lands at most `p - 1` below, on a multiple of `p`, which
/// floors to itself.
proof fn lemma_floor_to(x: int, p: int)
    requires
        p > 0,
    ensures
        floor_to(floor_to(x, p), p) == floor_to(x, p),
        floor_to(x, p) <= x < floor_to(x, p) + p,
{
    vstd::arithmetic::div_mod::lemma_fundamental_div_mod(x, p);
    vstd::arithmetic::div_mod::lemma_mod_multiples_basic(x / p, p);
    assert(floor_to(x, p) == (x / p) * p) by (nonlinear_arith)
        requires
            x == p * (x / p) + (x % p),
            floor_to(x, p) == x - x % p,
    ;
}

/// A multiple of every bar length, larger than any valid timestamp's distance from the epoch.
pub open spec fn epoch_shift() -> int {
    9_000_028_800_000_000
}

/// `ts` rounded down to a multiple of `period`.
fn floor_ms(ts: i64, period: i64) -> (r: i64)
    requires
        -9_000_000_000_000_000 <= ts <= 9_000_000_000_000_000,
        0 < period <= 7 * day_ms(),
        epoch_shift() % (period as int) == 0,
    ensures
        r == floor_to(ts as int, period as int),
        r <= ts,
        ts - r < period,
{
    let shifted: i64 = ts + 9_000_028_800_000_000;
    let rem: i64 = shifted % period;
    proof {
        vstd::arithmetic::div_mod::lemma_add_mod_noop(ts as int, epoch_shift(), period as int);
        vstd::arithmetic::div_mod::lemma_mod_twice(ts as int, period as int);
        vstd::arithmetic::div_mod::lemma_mod_bound(ts as int, period as int);
        assert(rem == (ts as int) % (period as int));
    }
    ts - rem
}
/// Time frame of OHLC bars.
#[derive(Debug, Clone, Copy, PartialEq, Eq, Hash, Structural)]
pub enum Timeframe {
    OneMinute,
    FiveMinutes,
    FifteenMinutes,
    ThirtyMinutes,
    OneHour,
    TwoHour,
    FourHour,
    OneDay,
    ThreeDay,
    OneWeek,
}

impl Timeframe {
    /// The text form of each variant.
    pub open spec fn text(self) -> Seq<char> {
        match self {
            Timeframe::OneMinute => seq!['1', 'm'],
            Timeframe::FiveMinutes => seq!['5', 'm'],
            Timeframe::FifteenMinutes => seq!['1', '5', 'm'],
            Timeframe::ThirtyMinutes => seq!['3', '0', 'm'],
            Timeframe::OneHour => seq!['1', 'h'],
            Timeframe::TwoHour => seq!['2', 'h'],
            Timeframe::FourHour => seq!['4', 'h'],
            Timeframe::OneDay => seq!['1', 'd'],
            Timeframe::ThreeDay => seq!['3', 'd'],
            Timeframe::OneWeek => seq!['1', 'w'],
        }
    }

    /// The variant whose text form is `t`, if any.
    pub open spec fn from_text(t: Seq<char>) -> Option<Timeframe> {
        if t == Timeframe::OneMinute.text() {
            Some(Timeframe::OneMinute)
        } else if t == Timeframe::FiveMinutes.text() {
            Some(Timeframe::FiveMinutes)
        } else if t == Timeframe::FifteenMinutes.text() {
            Some(Timeframe::FifteenMinutes)
        } else if t == Timeframe::ThirtyMinutes.text() {
            Some(Timeframe::ThirtyMinutes)
        } else if t == Timeframe::OneHour.text() {
            Some(Timeframe::OneHour)
        } else if t == Timeframe::TwoHour.text() {
            Some(Timeframe::TwoHour)
        } else if t == Timeframe::FourHour.text() {
            Some(Timeframe::FourHour)
        } else if t == Timeframe::OneDay.text() {
            Some(Timeframe::OneDay)
        } else if t == Timeframe::ThreeDay.text() {
            Some(Timeframe::ThreeDay)
        } else if t == Timeframe::OneWeek.text() {
            Some(Timeframe::OneWeek)
        } else {
            None
        }
    }

    pub fn as_str(&self) -> (r: &'static str)
        ensures
            r@ == self.text(),
    {
        match self {
            Timeframe::OneMinute => {
                proof {
                    reveal_strlit("1m");
                }
                "1m"
            },
            Timeframe::FiveMinutes => {
                proof {
                    reveal_strlit("5m");
                }
                "5m"
            },
            Timeframe::FifteenMinutes => {
                proof {
                    reveal_strlit("15m");
                }
                "15m"
            },
            Timeframe::ThirtyMinutes => {
                proof {
                    reveal_strlit("30m");
                }
                "30m"
            },
            Timeframe::OneHour => {
                proof {
                    reveal_strlit("1h");
                }
                "1h"
            },
            Timeframe::TwoHour => {
                proof {
                    reveal_strlit("2h");
                }
                "2h"
            },
            Timeframe::FourHour => {
                proof {
                    reveal_strlit("4h");
                }
                "4h"
            },
            Timeframe::OneDay => {
                proof {
                    reveal_strlit("1d");
                }
                "1d"
            },
            Timeframe::ThreeDay => {
                proof {
                    reveal_strlit("3d");
                }
                "3d"
            },
            Timeframe::OneWeek => {
                proof {
                    reveal_strlit("1w");
                }
                "1w"
            },
        }
    }

    /// Parses the exact text form.
    pub fn from_str(s: &str) -> (r: Option<Timeframe>)
        ensures
            r == Timeframe::from_text(s@),
    {
        let u = s;
        proof {
            reveal_strlit("1m");
            assert("1m"@ =~= Timeframe::OneMinute.text());
            reveal_strlit("5m");
            assert("5m"@ =~= Timeframe::FiveMinutes.text());
            reveal_strlit("15m");
            assert("15m"@ =~= Timeframe::FifteenMinutes.text());
            reveal_strlit("30m");
            assert("30m"@ =~= Timeframe::ThirtyMinutes.text());
            reveal_strlit("1h");
            assert("1h"@ =~= Timeframe::OneHour.text());
            reveal_strlit("2h");
            assert("2h"@ =~= Timeframe::TwoHour.text());
            reveal_strlit("4h");
            assert("4h"@ =~= Timeframe::FourHour.text());
            reveal_strlit("1d");
            assert("1d"@ =~= Timeframe::OneDay.text());
            reveal_strlit("3d");
            assert("3d"@ =~= Timeframe::ThreeDay.text());
            reveal_strlit("1w");
            assert("1w"@ =~= Timeframe::OneWeek.text());
        }
        if str_eq(u, "1m") {
            Some(Timeframe::OneMinute)
        } else if str_eq(u, "5m") {
            Some(Timeframe::FiveMinutes)
        } else if str_eq(u, "15m") {
            Some(Timeframe::FifteenMinutes)
        } else if str_eq(u, "30m") {
            Some(Timeframe::ThirtyMinutes)
        } else if str_eq(u, "1h") {
            Some(Timeframe::OneHour)
        } else if str_eq(u, "2h") {
            Some(Timeframe::TwoHour)
        } else if str_eq(u, "4h") {
            Some(Timeframe::FourHour)
        } else if str_eq(u, "1d") {
            Some(Timeframe::OneDay)
        } else if str_eq(u, "3d") {
            Some(Timeframe::ThreeDay)
        } else if str_eq(u, "1w") {
            Some(Timeframe::OneWeek)
        } else {
            None
        }
    }

    /// Each variant's text parses back to the variant.
    pub proof fn lemma_text_roundtrip(self)
        ensures
            Timeframe::from_text(self.text()) == Some(self),
    {
    }

    /// The ordering level of the timeframe (smaller is finer).
    pub open spec fn level_spec(self) -> u8 {
        match self {
            Timeframe::OneMinute => 1,
            Timeframe::FiveMinutes => 2,
            Timeframe::FifteenMinutes => 3,
            Timeframe::ThirtyMinutes => 4,
            Timeframe::OneHour => 5,
            Timeframe::TwoHour => 6,
            Timeframe::FourHour => 7,
            Timeframe::OneDay => 8,
            Timeframe::ThreeDay => 9,
            Timeframe::OneWeek => 10,
        }
    }

    /// The level of the timeframe, used for sorting: the smaller the value, the lower the level.
    pub fn level(&self) -> (r: u8)
        ensures
            r == self.level_spec(),
    {
        match self {
            Timeframe::OneMinute => 1,
            Timeframe::FiveMinutes => 2,
            Timeframe::FifteenMinutes => 3,
            Timeframe::ThirtyMinutes => 4,
            Timeframe::OneHour => 5,
            Timeframe::TwoHour => 6,
            Timeframe::FourHour => 7,
            Timeframe::OneDay => 8,
            Timeframe::ThreeDay => 9,
            Timeframe::OneWeek => 10,
        }
    }

    /// The least number of bars of each timeframe.
    pub open spec fn warmup_spec(self) -> usize {
        match self {
            Timeframe::OneMinute => 500,
            Timeframe::FiveMinutes => 500,
            Timeframe::FifteenMinutes => 300,
            Timeframe::ThirtyMinutes => 200,
            Timeframe::OneHour => 200,
            Timeframe::TwoHour => 150,
            Timeframe::FourHour => 150,
            Timeframe::OneDay => 100,
            Timeframe::ThreeDay => 50,
            Timeframe::OneWeek => 50,
        }
    }

    /// The least number of bars this timeframe needs (indicator warm-up and cache checks).
    pub fn min_warmup_bars(&self) -> (r: usize)
        ensures
            r == self.warmup_spec(),
    {
        match self {
            Timeframe::OneMinute => 500,
            Timeframe::FiveMinutes => 500,
            Timeframe::FifteenMinutes => 300,
            Timeframe::ThirtyMinutes => 200,
            Timeframe::OneHour => 200,
            Timeframe::TwoHour => 150,
            Timeframe::FourHour => 150,
            Timeframe::OneDay => 100,
            Timeframe::ThreeDay => 50,
            Timeframe::OneWeek => 50,
        }
    }

    /// The length of one bar, in milliseconds.
    pub open spec fn duration_spec(self) -> int {
        match self {
            Timeframe::OneMinute => minute_ms(),
            Timeframe::FiveMinutes => 5 * minute_ms(),
            Timeframe::FifteenMinutes => 15 * minute_ms(),
            Timeframe::ThirtyMinutes => 30 * minute_ms(),
            Timeframe::OneHour => hour_ms(),
            Timeframe::TwoHour => 2 * hour_ms(),
            Timeframe::FourHour => 4 * hour_ms(),
            Timeframe::OneDay => day_ms(),
            Timeframe::ThreeDay => 3 * day_ms(),
            Timeframe::OneWeek => 7 * day_ms(),
        }
    }

    /// The length of one bar, in milliseconds.
    pub fn as_duration_ms(&self) -> (r: i64)
        ensures
            r == self.duration_spec(),
    {
        match self {
            Timeframe::OneMinute => 60_000,
            Timeframe::FiveMinutes => 300_000,
            Timeframe::FifteenMinutes => 900_000,
            Timeframe::ThirtyMinutes => 1_800_000,
            Timeframe::OneHour => 3_600_000,
            Timeframe::TwoHour => 7_200_000,
            Timeframe::FourHour => 14_400_000,
            Timeframe::OneDay => 86_400_000,
            Timeframe::ThreeDay => 259_200_000,
            Timeframe::OneWeek => 604_800_000,
        }
    }

    /// The start of the window of this timeframe that holds `ts`.
    ///
    /// Minute and hour windows are aligned within the UTC day, day windows start at UTC midnight,
    /// three-day windows start on the 1st, 4th, ..., 25th and 28th of the month (days 29 to 31
    /// go to the 28th), and week windows start on Monday (the epoch week's Monday is 1970-01-05, four days in).
    pub open spec fn align_spec(self, ts: int) -> int {
        match self {
            Timeframe::OneMinute => floor_to(ts, minute_ms()),
            Timeframe::FiveMinutes => floor_to(ts, 5 * minute_ms()),
            Timeframe::FifteenMinutes => floor_to(ts, 15 * minute_ms()),
            Timeframe::ThirtyMinutes => floor_to(ts, 30 * minute_ms()),
            Timeframe::OneHour => floor_to(ts, hour_ms()),
            Timeframe::TwoHour => floor_to(ts, 2 * hour_ms()),
            Timeframe::FourHour => floor_to(ts, 4 * hour_ms()),
            Timeframe::OneDay => floor_to(ts, day_ms()),
            Timeframe::ThreeDay => {
                let day = utc_day_of_month(ts);
                let first = ((day - 1) / 3) * 3 + 1;
                let target = if first < 28 { first } else { 28 };
                floor_to(ts, day_ms()) - (day - target) * day_ms()
            },
            Timeframe::OneWeek => floor_to(ts - 4 * day_ms(), 7 * day_ms()) + 4 * day_ms(),
        }
    }

    /// Aligning is idempotent for the timeframes of fixed length: the start of a window is
    /// aligned to itself, and every instant lies in the window that starts at its alignment,
    /// less than one bar after its start.
    pub proof fn lemma_align_idempotent(self, ts: int)
        requires
            self != Timeframe::ThreeDay,
        ensures
            self.align_spec(self.align_spec(ts)) == self.align_spec(ts),
            self.align_spec(ts) <= ts < self.align_spec(ts) + self.duration_spec(),
    {
        let p = self.duration_spec();
        assert(p > 0);
        if self == Timeframe::OneWeek {
            lemma_floor_to(ts - 4 * day_ms(), p);
            lemma_floor_to(floor_to(ts - 4 * day_ms(), p), p);
        } else {
            lemma_floor_to(ts, p);
            lemma_floor_to(floor_to(ts, p), p);
        }
    }

    /// The start of the window of this timeframe that holds the instant `ts` (milliseconds).
    pub fn align_timestamp(&self, ts: i64) -> (r: i64)
        requires
            valid_timestamp(ts as int),
        ensures
            r == self.align_spec(ts as int),
            r <= ts,
    {
        match self {
            Timeframe::OneMinute => floor_ms(ts, 60_000),
            Timeframe::FiveMinutes => floor_ms(ts, 300_000),
            Timeframe::FifteenMinutes => floor_ms(ts, 900_000),
            Timeframe::ThirtyMinutes => floor_ms(ts, 1_800_000),
            Timeframe::OneHour => floor_ms(ts, 3_600_000),
            Timeframe::TwoHour => floor_ms(ts, 7_200_000),
            Timeframe::FourHour => floor_ms(ts, 14_400_000),
            Timeframe::OneDay => floor_ms(ts, 86_400_000),
            Timeframe::ThreeDay => {
                let day: u32 = day_of_month(ts);
                let first: u32 = ((day - 1) / 3) * 3 + 1;
                let target: u32 = if first < 28 {
                    first
                } else {
                    28
                };
                let midnight: i64 = floor_ms(ts, 86_400_000);
                midnight - ((day - target) as i64) * 86_400_000
            },
            Timeframe::OneWeek => floor_ms(ts - 345_600_000, 604_800_000) + 345_600_000,
        }
    }

}
/// Order side (buy/sell).
#[derive(Debug, Clone, Copy, PartialEq, Eq, Hash, Structural)]
pub enum OrderSide {
    Buy,
    Sell,
}

impl OrderSide {
    /// The text form of each variant.
    pub open spec fn text(self) -> Seq<char> {
        match self {
            OrderSide::Buy => seq!['B', 'U', 'Y'],
            OrderSide::Sell => seq!['S', 'E', 'L', 'L'],
        }
    }

    /// The variant whose text form is `t`, if any.
    pub open spec fn from_text(t: Seq<char>) -> Option<OrderSide> {
        if t == OrderSide::Buy.text() {
            Some(OrderSide::Buy)
        } else if t == OrderSide::Sell.text() {
            Some(OrderSide::Sell)
        } else {
            None
        }
    }

    pub fn as_str(&self) -> (r: &'static str)
        ensures
            r@ == self.text(),
    {
        match self {
            OrderSide::Buy => {
                proof {
                    reveal_strlit("BUY");
                }
                "BUY"
            },
            OrderSide::Sell => {
                proof {
                    reveal_strlit("SELL");
                }
                "SELL"
            },
        }
    }

    /// Parses the text form, ignoring case (the text is case-mapped by `str::to_uppercase`).
    pub fn from_str(s: &str) -> (r: Option<OrderSide>)
        ensures
            r == OrderSide::from_text(unicode_upper(s@)),
            ascii_only(s@) ==> r == OrderSide::from_text(s@.map_values(|c: char| ascii_upper_char(c))),
    {
        let mapped = to_uppercase(s);
        let u = mapped.as_str();
        proof {
            reveal_strlit("BUY");
            assert("BUY"@ =~= OrderSide::Buy.text());
            reveal_strlit("SELL");
            assert("SELL"@ =~= OrderSide::Sell.text());
        }
        if str_eq(u, "BUY") {
            Some(OrderSide::Buy)
        } else if str_eq(u, "SELL") {
            Some(OrderSide::Sell)
        } else {
            None
        }
    }

    /// Each variant's text is ASCII, is left as it is by the case mapping, and parses back
    /// to the variant.
    pub proof fn lemma_text_roundtrip(self)
        ensures
            ascii_only(self.text()),
            self.text().map_values(|c: char| ascii_upper_char(c)) == self.text(),
            OrderSide::from_text(self.text()) == Some(self),
    {
        match self {
            OrderSide::Buy => {
                assert(self.text().map_values(|c: char| ascii_upper_char(c)) =~= self.text());
            },
            OrderSide::Sell => {
                assert(self.text().map_values(|c: char| ascii_upper_char(c)) =~= self.text());
            },
        }
    }

}

/// Order type.
#[derive(Debug, Clone, Copy, PartialEq, Eq, Hash, Structural)]
pub enum OrderType {
    Market,
    Limit,
    StopLoss,
    StopLossLimit,
    TakeProfit,
    TakeProfitLimit,
    LimitMaker,
}

impl OrderType {
    /// The text form of each variant.
    pub open spec fn text(self) -> Seq<char> {
        match self {
            OrderType::Market => seq!['M', 'A', 'R', 'K', 'E', 'T'],
            OrderType::Limit => seq!['L', 'I', 'M', 'I', 'T'],
            OrderType::StopLoss => seq!['S', 'T', 'O', 'P', '_', 'L', 'O', 'S', 'S'],
            OrderType::StopLossLimit => seq!['S', 'T', 'O', 'P', '_', 'L', 'O', 'S', 'S', '_', 'L', 'I', 'M', 'I', 'T'],
            OrderType::TakeProfit => seq!['T', 'A', 'K', 'E', '_', 'P', 'R', 'O', 'F', 'I', 'T'],
            OrderType::TakeProfitLimit => seq!['T', 'A', 'K', 'E', '_', 'P', 'R', 'O', 'F', 'I', 'T', '_', 'L', 'I', 'M', 'I', 'T'],
            OrderType::LimitMaker => seq!['L', 'I', 'M', 'I', 'T', '_', 'M', 'A', 'K', 'E', 'R'],
        }
    }

    /// The variant whose text form is `t`, if any.
    pub open spec fn from_text(t: Seq<char>) -> Option<OrderType> {
        if t == OrderType::Market.text() {
            Some(OrderType::Market)
        } else if t == OrderType::Limit.text() {
            Some(OrderType::Limit)
        } else if t == OrderType::StopLoss.text() {
            Some(OrderType::StopLoss)
        } else if t == OrderType::StopLossLimit.text() {
            Some(OrderType::StopLossLimit)
        } else if t == OrderType::TakeProfit.text() {
            Some(OrderType::TakeProfit)
        } else if t == OrderType::TakeProfitLimit.text() {
            Some(OrderType::TakeProfitLimit)
        } else if t == OrderType::LimitMaker.text() {
            Some(OrderType::LimitMaker)
        } else {
            None
        }
    }

    pub fn as_str(&self) -> (r: &'static str)
        ensures
            r@ == self.text(),
    {
        match self {
            OrderType::Market => {
                proof {
                    reveal_strlit("MARKET");
                }
                "MARKET"
            },
            OrderType::Limit => {
                proof {
                    reveal_strlit("LIMIT");
                }
                "LIMIT"
            },
            OrderType::StopLoss => {
                proof {
                    reveal_strlit("STOP_LOSS");
                }
                "STOP_LOSS"
            },
            OrderType::StopLossLimit => {
                proof {
                    reveal_strlit("STOP_LOSS_LIMIT");
                }
                "STOP_LOSS_LIMIT"
            },
            OrderType::TakeProfit => {
                proof {
                    reveal_strlit("TAKE_PROFIT");
                }
                "TAKE_PROFIT"
            },
            OrderType::TakeProfitLimit => {
                proof {
                    reveal_strlit("TAKE_PROFIT_LIMIT");
                }
                "TAKE_PROFIT_LIMIT"
            },
            OrderType::LimitMaker => {
                proof {
                    reveal_strlit("LIMIT_MAKER");
                }
                "LIMIT_MAKER"
            },
        }
    }

    /// Parses the text form, ignoring case (the text is case-mapped by `str::to_uppercase`).
    pub fn from_str(s: &str) -> (r: Option<OrderType>)
        ensures
            r == OrderType::from_text(unicode_upper(s@)),
            ascii_only(s@) ==> r == OrderType::from_text(s@.map_values(|c: char| ascii_upper_char(c))),
    {
        let mapped = to_uppercase(s);
        let u = mapped.as_str();
        proof {
            reveal_strlit("MARKET");
            assert("MARKET"@ =~= OrderType::Market.text());
            reveal_strlit("LIMIT");
            assert("LIMIT"@ =~= OrderType::Limit.text());
            reveal_strlit("STOP_LOSS");
            assert("STOP_LOSS"@ =~= OrderType::StopLoss.text());
            reveal_strlit("STOP_LOSS_LIMIT");
            assert("STOP_LOSS_LIMIT"@ =~= OrderType::StopLossLimit.text());
            reveal_strlit("TAKE_PROFIT");
            assert("TAKE_PROFIT"@ =~= OrderType::TakeProfit.text());
            reveal_strlit("TAKE_PROFIT_LIMIT");
            assert("TAKE_PROFIT_LIMIT"@ =~= OrderType::TakeProfitLimit.text());
            reveal_strlit("LIMIT_MAKER");
            assert("LIMIT_MAKER"@ =~= OrderType::LimitMaker.text());
        }
        if str_eq(u, "MARKET") {
            Some(OrderType::Market)
        } else if str_eq(u, "LIMIT") {
            Some(OrderType::Limit)
        } else if str_eq(u, "STOP_LOSS") {
            Some(OrderType::StopLoss)
        } else if str_eq(u, "STOP_LOSS_LIMIT") {
            Some(OrderType::StopLossLimit)
        } else if str_eq(u, "TAKE_PROFIT") {
            Some(OrderType::TakeProfit)
        } else if str_eq(u, "TAKE_PROFIT_LIMIT") {
            Some(OrderType::TakeProfitLimit)
        } else if str_eq(u, "LIMIT_MAKER") {
            Some(OrderType::LimitMaker)
        } else {
            None
        }
    }

    /// Each variant's text is ASCII, is left as it is by the case mapping, and parses back
    /// to the variant.
    pub proof fn lemma_text_roundtrip(self)
        ensures
            ascii_only(self.text()),
            self.text().map_values(|c: char| ascii_upper_char(c)) == self.text(),
            OrderType::from_text(self.text()) == Some(self),
    {
        match self {
            OrderType::Market => {
                assert(self.text().map_values(|c: char| ascii_upper_char(c)) =~= self.text());
            },
            OrderType::Limit => {
                assert(self.text().map_values(|c: char| ascii_upper_char(c)) =~= self.text());
            },
            OrderType::StopLoss => {
                assert(self.text().map_values(|c: char| ascii_upper_char(c)) =~= self.text());
            },
            OrderType::StopLossLimit => {
                assert(self.text().map_values(|c: char| ascii_upper_char(c)) =~= self.text());
            },
            OrderType::TakeProfit => {
                assert(self.text().map_values(|c: char| ascii_upper_char(c)) =~= self.text());
            },
            OrderType::TakeProfitLimit => {
                assert(self.text().map_values(|c: char| ascii_upper_char(c)) =~= self.text());
            },
            OrderType::LimitMaker => {
                assert(self.text().map_values(|c: char| ascii_upper_char(c)) =~= self.text());
            },
        }
    }

}

/// Order status.
#[derive(Debug, Clone, Copy, PartialEq, Eq, Hash, Structural)]
pub enum OrderStatus {
    New,
    PartiallyFilled,
    Filled,
    Canceled,
    PendingCancel,
    Rejected,
    Expired,
}

impl OrderStatus {
    /// The text form of each variant.
    pub open spec fn text(self) -> Seq<char> {
        match self {
            OrderStatus::New => seq!['N', 'E', 'W'],
            OrderStatus::PartiallyFilled => seq!['P', 'A', 'R', 'T', 'I', 'A', 'L', 'L', 'Y', '_', 'F', 'I', 'L', 'L', 'E', 'D'],
            OrderStatus::Filled => seq!['F', 'I', 'L', 'L', 'E', 'D'],
            OrderStatus::Canceled => seq!['C', 'A', 'N', 'C', 'E', 'L', 'E', 'D'],
            OrderStatus::PendingCancel => seq!['P', 'E', 'N', 'D', 'I', 'N', 'G', '_', 'C', 'A', 'N', 'C', 'E', 'L'],
            OrderStatus::Rejected => seq!['R', 'E', 'J', 'E', 'C', 'T', 'E', 'D'],
            OrderStatus::Expired => seq!['E', 'X', 'P', 'I', 'R', 'E', 'D'],
        }
    }

    /// The variant whose text form is `t`, if any.
    pub open spec fn from_text(t: Seq<char>) -> Option<OrderStatus> {
        if t == OrderStatus::New.text() {
            Some(OrderStatus::New)
        } else if t == OrderStatus::PartiallyFilled.text() {
            Some(OrderStatus::PartiallyFilled)
        } else if t == OrderStatus::Filled.text() {
            Some(OrderStatus::Filled)
        } else if t == OrderStatus::Canceled.text() {
            Some(OrderStatus::Canceled)
        } else if t == OrderStatus::PendingCancel.text() {
            Some(OrderStatus::PendingCancel)
        } else if t == OrderStatus::Rejected.text() {
            Some(OrderStatus::Rejected)
        } else if t == OrderStatus::Expired.text() {
            Some(OrderStatus::Expired)
        } else {
            None
        }
    }

    pub fn as_str(&self) -> (r: &'static str)
        ensures
            r@ == self.text(),
    {
        match self {
            OrderStatus::New => {
                proof {
                    reveal_strlit("NEW");
                }
                "NEW"
            },
            OrderStatus::PartiallyFilled => {
                proof {
                    reveal_strlit("PARTIALLY_FILLED");
                }
                "PARTIALLY_FILLED"
            },
            OrderStatus::Filled => {
                proof {
                    reveal_strlit("FILLED");
                }
                "FILLED"
            },
            OrderStatus::Canceled => {
                proof {
                    reveal_strlit("CANCELED");
                }
                "CANCELED"
            },
            OrderStatus::PendingCancel => {
                proof {
                    reveal_strlit("PENDING_CANCEL");
                }
                "PENDING_CANCEL"
            },
            OrderStatus::Rejected => {
                proof {
                    reveal_strlit("REJECTED");
                }
                "REJECTED"
            },
            OrderStatus::Expired => {
                proof {
                    reveal_strlit("EXPIRED");
                }
                "EXPIRED"
            },
        }
    }

    /// Parses the text form, ignoring case (the text is case-mapped by `str::to_uppercase`).
    pub fn from_str(s: &str) -> (r: Option<OrderStatus>)
        ensures
            r == OrderStatus::from_text(unicode_upper(s@)),
            ascii_only(s@) ==> r == OrderStatus::from_text(s@.map_values(|c: char| ascii_upper_char(c))),
    {
        let mapped = to_uppercase(s);
        let u = mapped.as_str();
        proof {
            reveal_strlit("NEW");
            assert("NEW"@ =~= OrderStatus::New.text());
            reveal_strlit("PARTIALLY_FILLED");
            assert("PARTIALLY_FILLED"@ =~= OrderStatus::PartiallyFilled.text());
            reveal_strlit("FILLED");
            assert("FILLED"@ =~= OrderStatus::Filled.text());
            reveal_strlit("CANCELED");
            assert("CANCELED"@ =~= OrderStatus::Canceled.text());
            reveal_strlit("PENDING_CANCEL");
            assert("PENDING_CANCEL"@ =~= OrderStatus::PendingCancel.text());
            reveal_strlit("REJECTED");
            assert("REJECTED"@ =~= OrderStatus::Rejected.text());
            reveal_strlit("EXPIRED");
            assert("EXPIRED"@ =~= OrderStatus::Expired.text());
        }
        if str_eq(u, "NEW") {
            Some(OrderStatus::New)
        } else if str_eq(u, "PARTIALLY_FILLED") {
            Some(OrderStatus::PartiallyFilled)
        } else if str_eq(u, "FILLED") {
            Some(OrderStatus::Filled)
        } else if str_eq(u, "CANCELED") {
            Some(OrderStatus::Canceled)
        } else if str_eq(u, "PENDING_CANCEL") {
            Some(OrderStatus::PendingCancel)
        } else if str_eq(u, "REJECTED") {
            Some(OrderStatus::Rejected)
        } else if str_eq(u, "EXPIRED") {
            Some(OrderStatus::Expired)
        } else {
            None
        }
    }

    /// Each variant's text is ASCII, is left as it is by the case mapping, and parses back
    /// to the variant.
    pub proof fn lemma_text_roundtrip(self)
        ensures
            ascii_only(self.text()),
            self.text().map_values(|c: char| ascii_upper_char(c)) == self.text(),
            OrderStatus::from_text(self.text()) == Some(self),
    {
        match self {
            OrderStatus::New => {
                assert(self.text().map_values(|c: char| ascii_upper_char(c)) =~= self.text());
            },
            OrderStatus::PartiallyFilled => {
                assert(self.text().map_values(|c: char| ascii_upper_char(c)) =~= self.text());
            },
            OrderStatus::Filled => {
                assert(self.text().map_values(|c: char| ascii_upper_char(c)) =~= self.text());
            },
            OrderStatus::Canceled => {
                assert(self.text().map_values(|c: char| ascii_upper_char(c)) =~= self.text());
            },
            OrderStatus::PendingCancel => {
                assert(self.text().map_values(|c: char| ascii_upper_char(c)) =~= self.text());
            },
            OrderStatus::Rejected => {
                assert(self.text().map_values(|c: char| ascii_upper_char(c)) =~= self.text());
            },
            OrderStatus::Expired => {
                assert(self.text().map_values(|c: char| ascii_upper_char(c)) =~= self.text());
            },
        }
    }

    /// Whether the order is in a terminal state.
    pub fn is_terminal(&self) -> (r: bool)
        ensures
            r == (*self == OrderStatus::Filled || *self == OrderStatus::Canceled || *self
                == OrderStatus::Rejected || *self == OrderStatus::Expired),
    {
        match self {
            OrderStatus::Filled | OrderStatus::Canceled | OrderStatus::Rejected
            | OrderStatus::Expired => true,
            _ => false,
        }
    }

    /// Whether the order is active (can still be filled).
    pub fn is_active(&self) -> (r: bool)
        ensures
            r == (*self == OrderStatus::New || *self == OrderStatus::PartiallyFilled),
    {
        match self {
            OrderStatus::New | OrderStatus::PartiallyFilled => true,
            _ => false,
        }
    }

}

/// Time in force policy.
#[derive(Debug, Clone, Copy, PartialEq, Eq, Hash, Structural)]
pub enum TimeInForce {
    /// Good Till Cancel
    Gtc,
    /// Immediate or Cancel
    Ioc,
    /// Fill or Kill
    Fok,
}

impl TimeInForce {
    /// The text form of each variant.
    pub open spec fn text(self) -> Seq<char> {
        match self {
            TimeInForce::Gtc => seq!['G', 'T', 'C'],
            TimeInForce::Ioc => seq!['I', 'O', 'C'],
            TimeInForce::Fok => seq!['F', 'O', 'K'],
        }
    }

    /// The variant whose text form is `t`, if any.
    pub open spec fn from_text(t: Seq<char>) -> Option<TimeInForce> {
        if t == TimeInForce::Gtc.text() {
            Some(TimeInForce::Gtc)
        } else if t == TimeInForce::Ioc.text() {
            Some(TimeInForce::Ioc)
        } else if t == TimeInForce::Fok.text() {
            Some(TimeInForce::Fok)
        } else {
            None
        }
    }

    pub fn as_str(&self) -> (r: &'static str)
        ensures
            r@ == self.text(),
    {
        match self {
            TimeInForce::Gtc => {
                proof {
                    reveal_strlit("GTC");
                }
                "GTC"
            },
            TimeInForce::Ioc => {
                proof {
                    reveal_strlit("IOC");
                }
                "IOC"
            },
            TimeInForce::Fok => {
                proof {
                    reveal_strlit("FOK");
                }
                "FOK"
            },
        }
    }

    /// Parses the text form, ignoring case (the text is case-mapped by `str::to_uppercase`).
    pub fn from_str(s: &str) -> (r: Option<TimeInForce>)
        ensures
            r == TimeInForce::from_text(unicode_upper(s@)),
            ascii_only(s@) ==> r == TimeInForce::from_text(s@.map_values(|c: char| ascii_upper_char(c))),
    {
        let mapped = to_uppercase(s);
        let u = mapped.as_str();
        proof {
            reveal_strlit("GTC");
            assert("GTC"@ =~= TimeInForce::Gtc.text());
            reveal_strlit("IOC");
            assert("IOC"@ =~= TimeInForce::Ioc.text());
            reveal_strlit("FOK");
            assert("FOK"@ =~= TimeInForce::Fok.text());
        }
        if str_eq(u, "GTC") {
            Some(TimeInForce::Gtc)
        } else if str_eq(u, "IOC") {
            Some(TimeInForce::Ioc)
        } else if str_eq(u, "FOK") {
            Some(TimeInForce::Fok)
        } else {
            None
        }
    }

    /// Each variant's text is ASCII, is left as it is by the case mapping, and parses back
    /// to the variant.
    pub proof fn lemma_text_roundtrip(self)
        ensures
            ascii_only(self.text()),
            self.text().map_values(|c: char| ascii_upper_char(c)) == self.text(),
            TimeInForce::from_text(self.text()) == Some(self),
    {
        match self {
            TimeInForce::Gtc => {
                assert(self.text().map_values(|c: char| ascii_upper_char(c)) =~= self.text());
            },
            TimeInForce::Ioc => {
                assert(self.text().map_values(|c: char| ascii_upper_char(c)) =~= self.text());
            },
            TimeInForce::Fok => {
                assert(self.text().map_values(|c: char| ascii_upper_char(c)) =~= self.text());
            },
        }
    }

}

/// Signal type for strategy decisions.
#[derive(Debug, Clone, Copy, PartialEq, Eq, Hash, Structural)]
pub enum SignalType {
    Buy,
    Sell,
    Hold,
}

impl SignalType {
    /// The text form of each variant.
    pub open spec fn text(self) -> Seq<char> {
        match self {
            SignalType::Buy => seq!['B', 'U', 'Y'],
            SignalType::Sell => seq!['S', 'E', 'L', 'L'],
            SignalType::Hold => seq!['H', 'O', 'L', 'D'],
        }
    }

    /// The variant whose text form is `t`, if any.
    pub open spec fn from_text(t: Seq<char>) -> Option<SignalType> {
        if t == SignalType::Buy.text() {
            Some(SignalType::Buy)
        } else if t == SignalType::Sell.text() {
            Some(SignalType::Sell)
        } else if t == SignalType::Hold.text() {
            Some(SignalType::Hold)
        } else {
            None
        }
    }

    pub fn as_str(&self) -> (r: &'static str)
        ensures
            r@ == self.text(),
    {
        match self {
            SignalType::Buy => {
                proof {
                    reveal_strlit("BUY");
                }
                "BUY"
            },
            SignalType::Sell => {
                proof {
                    reveal_strlit("SELL");
                }
                "SELL"
            },
            SignalType::Hold => {
                proof {
                    reveal_strlit("HOLD");
                }
                "HOLD"
            },
        }
    }

    /// Parses the text form, ignoring case (the text is case-mapped by `str::to_uppercase`).
    pub fn from_str(s: &str) -> (r: Option<SignalType>)
        ensures
            r == SignalType::from_text(unicode_upper(s@)),
            ascii_only(s@) ==> r == SignalType::from_text(s@.map_values(|c: char| ascii_upper_char(c))),
    {
        let mapped = to_uppercase(s);
        let u = mapped.as_str();
        proof {
            reveal_strlit("BUY");
            assert("BUY"@ =~= SignalType::Buy.text());
            reveal_strlit("SELL");
            assert("SELL"@ =~= SignalType::Sell.text());
            reveal_strlit("HOLD");
            assert("HOLD"@ =~= SignalType::Hold.text());
        }
        if str_eq(u, "BUY") {
            Some(SignalType::Buy)
        } else if str_eq(u, "SELL") {
            Some(SignalType::Sell)
        } else if str_eq(u, "HOLD") {
            Some(SignalType::Hold)
        } else {
            None
        }
    }

    /// Each variant's text is ASCII, is left as it is by the case mapping, and parses back
    /// to the variant.
    pub proof fn lemma_text_roundtrip(self)
        ensures
            ascii_only(self.text()),
            self.text().map_values(|c: char| ascii_upper_char(c)) == self.text(),
            SignalType::from_text(self.text()) == Some(self),
    {
        match self {
            SignalType::Buy => {
                assert(self.text().map_values(|c: char| ascii_upper_char(c)) =~= self.text());
            },
            SignalType::Sell => {
                assert(self.text().map_values(|c: char| ascii_upper_char(c)) =~= self.text());
            },
            SignalType::Hold => {
                assert(self.text().map_values(|c: char| ascii_upper_char(c)) =~= self.text());
            },
        }
    }

}

/// Position side.
#[derive(Debug, Clone, Copy, PartialEq, Eq, Hash, Structural)]
pub enum PositionSide {
    Long,
    Short,
    Flat,
}

impl PositionSide {
    /// The text form of each variant.
    pub open spec fn text(self) -> Seq<char> {
        match self {
            PositionSide::Long => seq!['L', 'O', 'N', 'G'],
            PositionSide::Short => seq!['S', 'H', 'O', 'R', 'T'],
            PositionSide::Flat => seq!['N', 'O', 'N', 'E'],
        }
    }

    /// The variant whose text form is `t`, if any.
    pub open spec fn from_text(t: Seq<char>) -> Option<PositionSide> {
        if t == PositionSide::Long.text() {
            Some(PositionSide::Long)
        } else if t == PositionSide::Short.text() {
            Some(PositionSide::Short)
        } else if t == PositionSide::Flat.text() {
            Some(PositionSide::Flat)
        } else {
            None
        }
    }

    pub fn as_str(&self) -> (r: &'static str)
        ensures
            r@ == self.text(),
    {
        match self {
            PositionSide::Long => {
                proof {
                    reveal_strlit("LONG");
                }
                "LONG"
            },
            PositionSide::Short => {
                proof {
                    reveal_strlit("SHORT");
                }
                "SHORT"
            },
            PositionSide::Flat => {
                proof {
                    reveal_strlit("NONE");
                }
                "NONE"
            },
        }
    }

    /// Parses the text form, ignoring case (the text is case-mapped by `str::to_uppercase`).
    pub fn from_str(s: &str) -> (r: Option<PositionSide>)
        ensures
            r == PositionSide::from_text(unicode_upper(s@)),
            ascii_only(s@) ==> r == PositionSide::from_text(s@.map_values(|c: char| ascii_upper_char(c))),
    {
        let mapped = to_uppercase(s);
        let u = mapped.as_str();
        proof {
            reveal_strlit("LONG");
            assert("LONG"@ =~= PositionSide::Long.text());
            reveal_strlit("SHORT");
            assert("SHORT"@ =~= PositionSide::Short.text());
            reveal_strlit("NONE");
            assert("NONE"@ =~= PositionSide::Flat.text());
        }
        if str_eq(u, "LONG") {
            Some(PositionSide::Long)
        } else if str_eq(u, "SHORT") {
            Some(PositionSide::Short)
        } else if str_eq(u, "NONE") {
            Some(PositionSide::Flat)
        } else {
            None
        }
    }

    /// Each variant's text is ASCII, is left as it is by the case mapping, and parses back
    /// to the variant.
    pub proof fn lemma_text_roundtrip(self)
        ensures
            ascii_only(self.text()),
            self.text().map_values(|c: char| ascii_upper_char(c)) == self.text(),
            PositionSide::from_text(self.text()) == Some(self),
    {
        match self {
            PositionSide::Long => {
                assert(self.text().map_values(|c: char| ascii_upper_char(c)) =~= self.text());
            },
            PositionSide::Short => {
                assert(self.text().map_values(|c: char| ascii_upper_char(c)) =~= self.text());
            },
            PositionSide::Flat => {
                assert(self.text().map_values(|c: char| ascii_upper_char(c)) =~= self.text());
            },
        }
    }

}

/// Position mode of an account: one position per symbol, or a long and a short one (hedge).
#[derive(Debug, Clone, Copy, PartialEq, Eq, Hash, Structural)]
pub enum PositionMode {
    OneWay,
    Hedge,
}

/// Margin type.
#[derive(Debug, Clone, Copy, PartialEq, Eq, Hash, Structural)]
pub enum MarginType {
    Isolated,
    Crossed,
}

impl MarginType {
    /// The text form of each variant.
    pub open spec fn text(self) -> Seq<char> {
        match self {
            MarginType::Isolated => seq!['I', 'S', 'O', 'L', 'A', 'T', 'E', 'D'],
            MarginType::Crossed => seq!['C', 'R', 'O', 'S', 'S', 'E', 'D'],
        }
    }

    /// The variant whose text form is `t`, if any.
    pub open spec fn from_text(t: Seq<char>) -> Option<MarginType> {
        if t == MarginType::Isolated.text() {
            Some(MarginType::Isolated)
        } else if t == MarginType::Crossed.text() {
            Some(MarginType::Crossed)
        } else {
            None
        }
    }

    pub fn as_str(&self) -> (r: &'static str)
        ensures
            r@ == self.text(),
    {
        match self {
            MarginType::Isolated => {
                proof {
                    reveal_strlit("ISOLATED");
                }
                "ISOLATED"
            },
            MarginType::Crossed => {
                proof {
                    reveal_strlit("CROSSED");
                }
                "CROSSED"
            },
        }
    }

    /// Parses the text form, ignoring case (the text is case-mapped by `str::to_uppercase`).
    pub fn from_str(s: &str) -> (r: Option<MarginType>)
        ensures
            r == MarginType::from_text(unicode_upper(s@)),
            ascii_only(s@) ==> r == MarginType::from_text(s@.map_values(|c: char| ascii_upper_char(c))),
    {
        let mapped = to_uppercase(s);
        let u = mapped.as_str();
        proof {
            reveal_strlit("ISOLATED");
            assert("ISOLATED"@ =~= MarginType::Isolated.text());
            reveal_strlit("CROSSED");
            assert("CROSSED"@ =~= MarginType::Crossed.text());
        }
        if str_eq(u, "ISOLATED") {
            Some(MarginType::Isolated)
        } else if str_eq(u, "CROSSED") {
            Some(MarginType::Crossed)
        } else {
            None
        }
    }

    /// Each variant's text is ASCII, is left as it is by the case mapping, and parses back
    /// to the variant.
    pub proof fn lemma_text_roundtrip(self)
        ensures
            ascii_only(self.text()),
            self.text().map_values(|c: char| ascii_upper_char(c)) == self.text(),
            MarginType::from_text(self.text()) == Some(self),
    {
        match self {
            MarginType::Isolated => {
                assert(self.text().map_values(|c: char| ascii_upper_char(c)) =~= self.text());
            },
            MarginType::Crossed => {
                assert(self.text().map_values(|c: char| ascii_upper_char(c)) =~= self.text());
            },
        }
    }

}

/// Trading direction of a tick.
#[derive(Debug, Clone, Copy, PartialEq, Eq, Hash, Structural)]
pub enum TradeSide {
    Buy,
    Sell,
}

impl TradeSide {
    /// The text stored in the database for the side.
    pub open spec fn db_text(self) -> Seq<char> {
        match self {
            TradeSide::Buy => seq!['B', 'U', 'Y'],
            TradeSide::Sell => seq!['S', 'E', 'L', 'L'],
        }
    }

    /// The database text form of the side.
    pub fn as_db_str(&self) -> (r: &'static str)
        ensures
            r@ == self.db_text(),
    {
        match self {
            TradeSide::Buy => {
                proof {
                    reveal_strlit("BUY");
                }
                "BUY"
            },
            TradeSide::Sell => {
                proof {
                    reveal_strlit("SELL");
                }
                "SELL"
            },
        }
    }
}

/// One trade of the market, as stored in the tick table.
#[derive(Debug, Clone)]
pub struct TickData {
    /// UTC instant, in milliseconds since the epoch.
    pub timestamp: i64,
    /// Trading pair, such as "BTCUSDT".
    pub symbol: String,
    pub price: Dec,
    pub quantity: Dec,
    pub side: TradeSide,
    /// Original transaction ID.
    pub trade_id: String,
    /// Whether the buyer is the maker.
    pub is_buyer_maker: bool,
}

impl TickData {
    pub fn new(
        timestamp: i64,
        symbol: String,
        price: Dec,
        quantity: Dec,
        side: TradeSide,
        trade_id: String,
        is_buyer_maker: bool,
    ) -> (r: TickData)
        ensures
            r == (TickData { timestamp, symbol, price, quantity, side, trade_id, is_buyer_maker }),
    {
        TickData { timestamp, symbol, price, quantity, side, trade_id, is_buyer_maker }
    }

    /// A copy of the tick.
    pub fn duplicate(&self) -> (r: TickData)
        ensures
            r == *self,
    {
        TickData {
            timestamp: self.timestamp,
            symbol: self.symbol.clone(),
            price: self.price,
            quantity: self.quantity,
            side: self.side,
            trade_id: self.trade_id.clone(),
            is_buyer_maker: self.is_buyer_maker,
        }
    }
}

/// One evaluation of a live strategy, as logged.
#[derive(Debug, Clone)]
pub struct LiveStrategyLog {
    /// UTC instant, in milliseconds since the epoch.
    pub timestamp: i64,
    /// The strategy signal this evaluation belongs to, for end-to-end tracing.
    pub signal_id: Option<u128>,
    /// The strategy instance, if any.
    pub instance_id: Option<u128>,
    pub strategy_id: String,
    pub symbol: String,
    pub current_price: Dec,
    /// BUY, SELL or HOLD.
    pub signal_type: String,
    /// entry, exit or reverse.
    pub signal_intent: String,
    /// futures, spot or both.
    pub market_type: String,
    pub portfolio_value: Dec,
    pub total_pnl: Dec,
    pub cache_hit: bool,
    pub processing_time_us: u64,
    pub entry_price: Option<Dec>,
    pub stop_loss: Option<Dec>,
    pub take_profit: Option<Dec>,
    pub position_quantity: Option<Dec>,
    pub unrealized_pnl: Option<Dec>,
}

/// Query parameters for ticks.
#[derive(Debug, Clone)]
pub struct TickQuery {
    pub symbol: String,
    pub start_time: Option<i64>,
    pub end_time: Option<i64>,
    pub limit: Option<u32>,
    pub trade_side: Option<TradeSide>,
}

impl TickQuery {
    /// A query for all ticks of the symbol.
    pub fn new(symbol: String) -> (r: TickQuery)
        ensures
            r == (TickQuery { symbol, start_time: None, end_time: None, limit: None, trade_side: None }),
    {
        TickQuery { symbol, start_time: None, end_time: None, limit: None, trade_side: None }
    }
}

/// Database statistics.
#[derive(Debug, Clone)]
pub struct DbStats {
    pub symbol: Option<String>,
    pub total_records: u64,
    pub earliest_timestamp: Option<i64>,
    pub latest_timestamp: Option<i64>,
}

/// Per-symbol data information.
#[derive(Debug, Clone)]
pub struct SymbolDataInfo {
    pub symbol: String,
    pub records_count: u64,
    pub earliest_time: Option<i64>,
    pub latest_time: Option<i64>,
    pub min_price: Option<Dec>,
    pub max_price: Option<Dec>,
    pub total_volume_usd: Dec,
}

/// Backtest data information for user selection.
#[derive(Debug, Clone)]
pub struct BacktestDataInfo {
    pub total_records: u64,
    pub symbols_count: u64,
    pub earliest_time: Option<i64>,
    pub latest_time: Option<i64>,
    pub symbol_info: Vec<SymbolDataInfo>,
}

/// The index of the first entry for `symbol`, if any.
pub open spec fn first_index_of(infos: Seq<SymbolDataInfo>, symbol: Seq<char>) -> Option<int> {
    if exists|i: int| 0 <= i < infos.len() && infos[i].symbol@ == symbol {
        let i = choose|i: int|
            0 <= i < infos.len() && infos[i].symbol@ == symbol && forall|j: int|
                0 <= j < i ==> infos[j].symbol@ != symbol;
        Some(i)
    } else {
        None
    }
}

impl BacktestDataInfo {
    /// The first entry for the symbol, if any.
    pub fn get_symbol_info(&self, symbol: &str) -> (r: Option<&SymbolDataInfo>)
        ensures
            match r {
                Some(info) => exists|i: int|
                    0 <= i < self.symbol_info@.len() && self.symbol_info@[i] == *info
                        && info.symbol@ == symbol@ && forall|j: int|
                        0 <= j < i ==> self.symbol_info@[j].symbol@ != symbol@,
                None => forall|i: int|
                    0 <= i < self.symbol_info@.len() ==> self.symbol_info@[i].symbol@ != symbol@,
            },
    {
        let mut i: usize = 0;
        while i < self.symbol_info.len()
            invariant
                i <= self.symbol_info@.len(),
                forall|j: int| 0 <= j < i ==> self.symbol_info@[j].symbol@ != symbol@,
            decreases self.symbol_info@.len() - i,
        {
            if str_eq(self.symbol_info[i].symbol.as_str(), symbol) {
                return Some(&self.symbol_info[i]);
            }
            i = i + 1;
        }
        None
    }

    /// The symbols that have data, in order.
    pub fn get_available_symbols(&self) -> (r: Vec<String>)
        ensures
            r@.len() == self.symbol_info@.len(),
            forall|i: int| 0 <= i < r@.len() ==> r@[i] == self.symbol_info@[i].symbol,
    {
        let mut out: Vec<String> = Vec::new();
        let mut i: usize = 0;
        while i < self.symbol_info.len()
            invariant
                i <= self.symbol_info@.len(),
                out@.len() == i,
                forall|j: int| 0 <= j < i ==> out@[j] == self.symbol_info@[j].symbol,
            decreases self.symbol_info@.len() - i,
        {
            out.push(self.symbol_info[i].symbol.clone());
            i = i + 1;
        }
        out
    }

    /// Whether the symbol has at least `min_records` records.
    pub fn has_sufficient_data(&self, symbol: &str, min_records: u64) -> (r: bool)
        ensures
            r == exists|i: int|
                0 <= i < self.symbol_info@.len() && self.symbol_info@[i].symbol@ == symbol@
                    && (forall|j: int| 0 <= j < i ==> self.symbol_info@[j].symbol@ != symbol@)
                    && self.symbol_info@[i].records_count >= min_records,
    {
        match self.get_symbol_info(symbol) {
            Some(info) => info.records_count >= min_records,
            None => false,
        }
    }
}

/// One OHLC bar.
#[derive(Debug, Clone)]
pub struct OHLCData {
    /// Start of the bar's window, in milliseconds since the epoch.
    pub timestamp: i64,
    pub symbol: String,
    pub timeframe: Timeframe,
    pub open: Dec,
    pub high: Dec,
    pub low: Dec,
    pub close: Dec,
    pub volume: Dec,
    pub trade_count: u64,
}

impl OHLCData {
    pub fn new(
        timestamp: i64,
        symbol: String,
        timeframe: Timeframe,
        open: Dec,
        high: Dec,
        low: Dec,
        close: Dec,
        volume: Dec,
        trade_count: u64,
    ) -> (r: OHLCData)
        ensures
            r == (OHLCData {
                timestamp,
                symbol,
                timeframe,
                open,
                high,
                low,
                close,
                volume,
                trade_count,
            }),
    {
        OHLCData { timestamp, symbol, timeframe, open, high, low, close, volume, trade_count }
    }

    /// A copy of the bar.
    pub fn duplicate(&self) -> (r: OHLCData)
        ensures
            r == *self,
    {
        OHLCData {
            timestamp: self.timestamp,
            symbol: self.symbol.clone(),
            timeframe: self.timeframe,
            open: self.open,
            high: self.high,
            low: self.low,
            close: self.close,
            volume: self.volume,
            trade_count: self.trade_count,
        }
    }

    /// The bar built from the ticks of one window, or `None` for no ticks.
    pub fn from_ticks(ticks: &[TickData], timeframe: Timeframe, window_start: i64) -> (r: Option<
        OHLCData,
    >)
        requires
            ticks@.len() > 0 ==> seq_sum(tick_quantities(ticks@)) is Some,
        ensures
            ticks@.len() == 0 ==> r is None,
            ticks@.len() > 0 ==> r == Some(
                OHLCData {
                    timestamp: window_start,
                    symbol: ticks@[0].symbol,
                    timeframe,
                    open: ticks@[0].price,
                    high: running_high(tick_prices(ticks@), ticks@.len() as nat),
                    low: running_low(tick_prices(ticks@), ticks@.len() as nat),
                    close: ticks@[ticks@.len() - 1].price,
                    volume: seq_sum(tick_quantities(ticks@))->0,
                    trade_count: ticks@.len() as u64,
                },
            ),
    {
        if ticks.len() == 0 {
            return None;
        }
        let symbol = ticks[0].symbol.clone();
        let open = ticks[0].price;
        let mut high = ticks[0].price;
        let mut low = ticks[0].price;
        let close = ticks[ticks.len() - 1].price;
        let mut volume = Dec::zero();
        let ghost prices = tick_prices(ticks@);
        let ghost quantities = tick_quantities(ticks@);
        proof {
            assert forall|k: nat| k <= ticks@.len() implies (#[trigger] seq_sum(quantities.take(k as int))) is Some by {
                lemma_seq_sum_prefix_some(quantities, k);
            }
        }
        let mut i: usize = 0;
        while i < ticks.len()
            invariant
                prices == tick_prices(ticks@),
                quantities == tick_quantities(ticks@),
                0 < ticks@.len(),
                0 <= i <= ticks@.len(),
                seq_sum(quantities) is Some,
                forall|k: nat| k <= ticks@.len() ==> (#[trigger] seq_sum(quantities.take(k as int))) is Some,
                high == running_high(prices, if i == 0 { 1 } else { i as nat }),
                low == running_low(prices, if i == 0 { 1 } else { i as nat }),
                volume == seq_sum(quantities.take(i as int))->0,
            decreases ticks@.len() - i,
        {
            let price = ticks[i].price;
            if price.gt(&high) {
                high = price;
            }
            if price.lt(&low) {
                low = price;
            }
            proof {
                assert(quantities.take(i + 1).drop_last() =~= quantities.take(i as int));
                assert(seq_sum(quantities.take(i + 1)) is Some);
            }
            volume = volume.add(ticks[i].quantity);
            i = i + 1;
        }
        proof {
            assert(quantities.take(ticks@.len() as int) =~= quantities);
        }
        Some(
            OHLCData::new(
                window_start,
                symbol,
                timeframe,
                open,
                high,
                low,
                close,
                volume,
                ticks.len() as u64,
            ),
        )
    }
}

/// The prices of the ticks.
pub open spec fn tick_prices(ticks: Seq<TickData>) -> Seq<Dec> {
    ticks.map_values(|t: TickData| t.price)
}

/// The quantities of the ticks.
pub open spec fn tick_quantities(ticks: Seq<TickData>) -> Seq<Dec> {
    ticks.map_values(|t: TickData| t.quantity)
}

/// The highest of the first `n` values, the earliest one kept on ties (`n >= 1`).
pub open spec fn running_high(s: Seq<Dec>, n: nat) -> Dec
    decreases n,
{
    if n <= 1 {
        s[0]
    } else {
        let prev = running_high(s, (n - 1) as nat);
        if s[n - 1].value() > prev.value() {
            s[n - 1]
        } else {
            prev
        }
    }
}

/// The lowest of the first `n` values, the earliest one kept on ties (`n >= 1`).
pub open spec fn running_low(s: Seq<Dec>, n: nat) -> Dec
    decreases n,
{
    if n <= 1 {
        s[0]
    } else {
        let prev = running_low(s, (n - 1) as nat);
        if s[n - 1].value() < prev.value() {
            s[n - 1]
        } else {
            prev
        }
    }
}

} // verus!
