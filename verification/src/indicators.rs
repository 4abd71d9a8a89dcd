//! Trend analysis types and the moving-average, RSI and MACD indicators.
use crate::decimal::{
    decimal_checked_add, decimal_checked_div, decimal_checked_mul, decimal_checked_sub,
    keeps_whole_bounds, lemma_seq_sum_prefix_some, lemma_units, seq_sum, units, Dec,
};
use crate::types::Timeframe;
use vstd::pervasive::VecAdditionalExecFns;
use vstd::prelude::*;
use vstd::string::StringExecFns;

verus! {

/// Direction of a trend.
#[derive(Debug, Clone, Copy, PartialEq, Eq, Structural)]
pub enum TrendDirection {
    Bullish,
    Bearish,
    Neutral,
}

impl TrendDirection {
    pub fn is_bullish(&self) -> (r: bool)
        ensures
            r == (*self == TrendDirection::Bullish),
    {
        match self {
            TrendDirection::Bullish => true,
            _ => false,
        }
    }

    pub fn is_bearish(&self) -> (r: bool)
        ensures
            r == (*self == TrendDirection::Bearish),
    {
        match self {
            TrendDirection::Bearish => true,
            _ => false,
        }
    }

    pub fn is_neutral(&self) -> (r: bool)
        ensures
            r == (*self == TrendDirection::Neutral),
    {
        match self {
            TrendDirection::Neutral => true,
            _ => false,
        }
    }
}

/// The analysis of one timeframe.
#[derive(Debug, Clone)]
pub struct TrendAnalysis {
    pub direction: TrendDirection,
    /// Confidence, from 0 to 1.
    pub confidence: Dec,
    pub description: String,
}

impl TrendAnalysis {
    pub fn new(direction: TrendDirection, confidence: Dec, description: String) -> (r: TrendAnalysis)
        ensures
            r == (TrendAnalysis { direction, confidence, description }),
    {
        TrendAnalysis { direction, confidence, description }
    }

    /// A bullish analysis.
    pub fn bullish(confidence: Dec, description: &str) -> (r: TrendAnalysis)
        ensures
            r.direction == TrendDirection::Bullish,
            r.confidence == confidence,
            r.description@ == description@,
    {
        TrendAnalysis::new(TrendDirection::Bullish, confidence, String::from_str(description))
    }

    /// A bearish analysis.
    pub fn bearish(confidence: Dec, description: &str) -> (r: TrendAnalysis)
        ensures
            r.direction == TrendDirection::Bearish,
            r.confidence == confidence,
            r.description@ == description@,
    {
        TrendAnalysis::new(TrendDirection::Bearish, confidence, String::from_str(description))
    }

    /// A neutral analysis.
    pub fn neutral(confidence: Dec, description: &str) -> (r: TrendAnalysis)
        ensures
            r.direction == TrendDirection::Neutral,
            r.confidence == confidence,
            r.description@ == description@,
    {
        TrendAnalysis::new(TrendDirection::Neutral, confidence, String::from_str(description))
    }

    /// A copy of the analysis.
    pub fn duplicate(&self) -> (r: TrendAnalysis)
        ensures
            r == *self,
    {
        TrendAnalysis {
            direction: self.direction,
            confidence: self.confidence,
            description: self.description.clone(),
        }
    }
}

/// Direction of an entry.
#[derive(Debug, Clone, Copy, PartialEq, Eq, Structural)]
pub enum EntryDirection {
    Long,
    Short,
}

/// The combined analysis of several timeframes.
#[derive(Debug, Clone)]
pub struct MultiTimeframeAnalysis {
    /// The analysis of each timeframe.
    pub timeframe_analyses: Vec<(Timeframe, TrendAnalysis)>,
    pub overall_direction: TrendDirection,
    pub overall_confidence: Dec,
    /// Whether an entry is allowed.
    pub entry_allowed: bool,
    pub entry_direction: Option<EntryDirection>,
}

impl MultiTimeframeAnalysis {
    /// Whether the two analyses hold the same values.
    pub open spec fn same_as(self, other: MultiTimeframeAnalysis) -> bool {
        &&& self.timeframe_analyses@ == other.timeframe_analyses@
        &&& self.overall_direction == other.overall_direction
        &&& self.overall_confidence == other.overall_confidence
        &&& self.entry_allowed == other.entry_allowed
        &&& self.entry_direction == other.entry_direction
    }

    /// A copy of the analysis.
    pub fn duplicate(&self) -> (r: MultiTimeframeAnalysis)
        ensures
            r.same_as(*self),
    {
        let mut items: Vec<(Timeframe, TrendAnalysis)> = Vec::new();
        let mut i: usize = 0;
        while i < self.timeframe_analyses.len()
            invariant
                i <= self.timeframe_analyses@.len(),
                items@ == self.timeframe_analyses@.take(i as int),
            decreases self.timeframe_analyses@.len() - i,
        {
            let entry = (self.timeframe_analyses[i].0, self.timeframe_analyses[i].1.duplicate());
            items.push(entry);
            proof {
                assert(items@ =~= self.timeframe_analyses@.take(i + 1));
            }
            i = i + 1;
        }
        proof {
            assert(items@ =~= self.timeframe_analyses@);
        }
        MultiTimeframeAnalysis {
            timeframe_analyses: items,
            overall_direction: self.overall_direction,
            overall_confidence: self.overall_confidence,
            entry_allowed: self.entry_allowed,
            entry_direction: self.entry_direction,
        }
    }
}

// ----- moving averages -----

/// `Decimal::from(n)` for a count.
pub open spec fn count_dec(n: int) -> Dec {
    Dec::spec_new(n, 0)
}

/// The EMA weight `2 / (period + 1)`.
pub open spec fn ema_multiplier(period: nat) -> Option<Dec> {
    decimal_checked_div(count_dec(2), count_dec((period + 1) as int))
}

/// One EMA step: `price * mult + prev * (1 - mult)`.
pub open spec fn ema_step(price: Dec, prev: Dec, mult: Dec) -> Option<Dec> {
    match (decimal_checked_mul(price, mult), decimal_checked_sub(count_dec(1), mult)) {
        (Some(a), Some(rest)) => match decimal_checked_mul(prev, rest) {
            Some(b) => decimal_checked_add(a, b),
            None => None,
        },
        _ => None,
    }
}

/// The first `n` EMA values (`n >= 1`), starting from `first`.
pub open spec fn ema_prefix(prices: Seq<Dec>, mult: Dec, first: Dec, n: nat) -> Option<Seq<Dec>>
    decreases n,
{
    if n <= 1 {
        Some(seq![first])
    } else {
        match ema_prefix(prices, mult, first, (n - 1) as nat) {
            Some(e) => match ema_step(prices[n - 1], e.last(), mult) {
                Some(v) => Some(e.push(v)),
                None => None,
            },
            None => None,
        }
    }
}

/// The average of the first `min(period, len)` prices, the first EMA value.
pub open spec fn ema_seed(prices: Seq<Dec>, period: nat) -> Option<Dec> {
    let m = if period < prices.len() { period } else { prices.len() };
    match seq_sum(prices.take(m as int)) {
        Some(total) => decimal_checked_div(total, count_dec(m as int)),
        None => None,
    }
}

/// The EMA of the prices: empty for no prices or a zero period, else one value per price, the
/// first being the average of the first `period` prices. `None` where `Decimal` would panic.
pub open spec fn ema_spec(prices: Seq<Dec>, period: nat) -> Option<Seq<Dec>> {
    if prices.len() == 0 || period == 0 {
        Some(Seq::empty())
    } else {
        match (ema_multiplier(period), ema_seed(prices, period)) {
            (Some(mult), Some(first)) => ema_prefix(prices, mult, first, prices.len()),
            _ => None,
        }
    }
}

pub proof fn lemma_ema_prefix_len(prices: Seq<Dec>, mult: Dec, first: Dec, n: nat)
    requires
        n >= 1,
        ema_prefix(prices, mult, first, n) is Some,
    ensures
        ema_prefix(prices, mult, first, n)->0.len() == n,
        forall|k: nat| 1 <= k <= n ==> (#[trigger] ema_prefix(prices, mult, first, k)) is Some
            && ema_prefix(prices, mult, first, k)->0 == ema_prefix(prices, mult, first, n)->0.take(k as int),
    decreases n,
{
    if n > 1 {
        lemma_ema_prefix_len(prices, mult, first, (n - 1) as nat);
        let e = ema_prefix(prices, mult, first, (n - 1) as nat)->0;
        let v = ema_step(prices[n - 1], e.last(), mult)->0;
        assert(e.push(v).take((n - 1) as int) =~= e);
        assert(e.push(v).take(n as int) =~= e.push(v));
        assert forall|k: nat| 1 <= k <= n implies (#[trigger] ema_prefix(prices, mult, first, k)) is Some
            && ema_prefix(prices, mult, first, k)->0 == ema_prefix(prices, mult, first, n)->0.take(
            k as int,
        ) by {
            if k < n {
                assert(e.push(v).take(k as int) =~= e.take(k as int));
            }
        }
    }
}

/// Once a prefix of the EMA is undefined, so is every longer one.
pub proof fn lemma_ema_prefix_none(prices: Seq<Dec>, mult: Dec, first: Dec, k: nat, n: nat)
    requires
        1 <= k <= n,
        ema_prefix(prices, mult, first, k) is None,
    ensures
        ema_prefix(prices, mult, first, n) is None,
    decreases n - k,
{
    if k < n {
        lemma_ema_prefix_none(prices, mult, first, k, (n - 1) as nat);
    }
}

/// The exponential moving average of the prices, or `None` where `Decimal` would panic.
pub fn try_calculate_ema(prices: &[Dec], period: usize) -> (r: Option<Vec<Dec>>)
    requires
        period < usize::MAX,
    ensures
        match r {
            Some(v) => ema_spec(prices@, period as nat) == Some(v@),
            None => ema_spec(prices@, period as nat) is None,
        },
        r is Some ==> r->0@.len() == if period == 0 { 0 } else { prices@.len() },
{
    if prices.len() == 0 || period == 0 {
        return Some(Vec::new());
    }
    let multiplier = match Dec::from_int(2).checked_div(Dec::from_usize(period + 1)) {
        Some(m) => m,
        None => return None,
    };
    let m = if period < prices.len() {
        period
    } else {
        prices.len()
    };
    proof {
        assert(prices@.subrange(0, m as int) =~= prices@.take(m as int));
    }
    let first_sma = match Dec::try_sum_slice(&prices[0..m]) {
        Some(total) => match total.checked_div(Dec::from_usize(m)) {
            Some(v) => v,
            None => return None,
        },
        None => return None,
    };
    let mut ema: Vec<Dec> = Vec::new();
    ema.push(first_sma);
    let ghost n = prices@.len();
    proof {
        assert(ema@ =~= seq![first_sma]);
    }
    let mut i: usize = 1;
    while i < prices.len()
        invariant
            n == prices@.len(),
            1 <= i <= n,
            period > 0,
            ema_multiplier(period as nat) == Some(multiplier),
            ema_seed(prices@, period as nat) == Some(first_sma),
            ema_prefix(prices@, multiplier, first_sma, i as nat) == Some(ema@),
            ema@.len() == i,
        decreases n - i,
    {
        let prev = ema[i - 1];
        let step = match prices[i].checked_mul(multiplier) {
            Some(a) => match Dec::from_int(1).checked_sub(multiplier) {
                Some(rest) => match prev.checked_mul(rest) {
                    Some(b) => a.checked_add(b),
                    None => None,
                },
                None => None,
            },
            None => None,
        };
        proof {
            assert(prev == ema@.last());
        }
        match step {
            Some(value) => {
                ema.push(value);
            },
            None => {
                proof {
                    assert(ema_step(prices@[i as int], prev, multiplier) is None);
                    assert(ema_prefix(prices@, multiplier, first_sma, (i + 1) as nat) is None);
                    lemma_ema_prefix_none(prices@, multiplier, first_sma, (i + 1) as nat, n);
                }
                return None;
            },
        }
        i = i + 1;
    }
    Some(ema)
}

/// The exponential moving average of the prices.
pub fn calculate_ema(prices: &[Dec], period: usize) -> (r: Vec<Dec>)
    requires
        period < usize::MAX,
        ema_spec(prices@, period as nat) is Some,
    ensures
        r@ == ema_spec(prices@, period as nat)->0,
{
    match try_calculate_ema(prices, period) {
        Some(v) => v,
        None => vstd::pervasive::unreached(),
    }
}

/// The start of the SMA window that ends at index `i`.
pub open spec fn sma_window_start(i: int, period: int) -> int {
    if i >= period {
        i - period + 1
    } else {
        0
    }
}

/// The SMA value at index `i`: the average of the window ending there.
pub open spec fn sma_at(prices: Seq<Dec>, period: nat, i: int) -> Option<Dec> {
    let start = sma_window_start(i, period as int);
    match seq_sum(prices.subrange(start, i + 1)) {
        Some(total) => decimal_checked_div(total, count_dec(i + 1 - start)),
        None => None,
    }
}

/// The SMA is defined at every index.
pub open spec fn sma_ok(prices: Seq<Dec>, period: nat) -> bool {
    forall|i: int| 0 <= i < prices.len() ==> (#[trigger] sma_at(prices, period, i)) is Some
}

/// The simple moving average: at each index, the average of the last `period` prices up to it
/// (fewer at the start); empty for no prices or a zero period.
pub open spec fn sma_spec(prices: Seq<Dec>, period: nat) -> Seq<Dec> {
    if prices.len() == 0 || period == 0 {
        Seq::empty()
    } else {
        Seq::new(prices.len(), |i: int| sma_at(prices, period, i)->0)
    }
}

/// The simple moving average of the prices.
pub fn calculate_sma(prices: &[Dec], period: usize) -> (r: Vec<Dec>)
    requires
        period > 0 && prices@.len() > 0 ==> sma_ok(prices@, period as nat),
    ensures
        r@ == sma_spec(prices@, period as nat),
{
    if prices.len() == 0 || period == 0 {
        return Vec::new();
    }
    let mut sma: Vec<Dec> = Vec::new();
    let mut i: usize = 0;
    while i < prices.len()
        invariant
            0 < period,
            0 < prices@.len(),
            sma_ok(prices@, period as nat),
            i <= prices@.len(),
            sma@.len() == i,
            forall|j: int| 0 <= j < i ==> sma@[j] == sma_at(prices@, period as nat, j)->0,
        decreases prices@.len() - i,
    {
        let start = if i >= period {
            i - period + 1
        } else {
            0
        };
        proof {
            assert(sma_at(prices@, period as nat, i as int) is Some);
        }
        let window = &prices[start..i + 1];
        let avg = Dec::sum_slice(window).div(Dec::from_usize(i + 1 - start));
        sma.push(avg);
        i = i + 1;
    }
    proof {
        assert(sma@ =~= sma_spec(prices@, period as nat));
    }
    sma
}

// ----- RSI -----

/// The gain between consecutive prices: the change when positive, else zero.
pub open spec fn gain_at(prices: Seq<Dec>, i: int) -> Dec {
    let change = decimal_checked_sub(prices[i + 1], prices[i])->0;
    if change.value() > 0 {
        change
    } else {
        Dec::spec_zero()
    }
}

/// The loss between consecutive prices: the negated change when not positive, else zero.
pub open spec fn loss_at(prices: Seq<Dec>, i: int) -> Dec {
    let change = decimal_checked_sub(prices[i + 1], prices[i])->0;
    if change.value() > 0 {
        Dec::spec_zero()
    } else {
        crate::decimal::neg_of(change)
    }
}

/// The gains of the price series (one fewer than the prices).
pub open spec fn gains_of(prices: Seq<Dec>) -> Seq<Dec> {
    Seq::new((prices.len() - 1) as nat, |i: int| gain_at(prices, i))
}

/// The losses of the price series (one fewer than the prices).
pub open spec fn losses_of(prices: Seq<Dec>) -> Seq<Dec> {
    Seq::new((prices.len() - 1) as nat, |i: int| loss_at(prices, i))
}

/// `100 - 100 / (1 + avg_gain / avg_loss)`, or 100 for a zero average loss.
pub open spec fn rsi_from(avg_gain: Dec, avg_loss: Dec) -> Option<Dec> {
    if avg_loss.value() == 0 {
        Some(count_dec(100))
    } else {
        match decimal_checked_div(avg_gain, avg_loss) {
            Some(rs) => match decimal_checked_add(count_dec(1), rs) {
                Some(d) => match decimal_checked_div(count_dec(100), d) {
                    Some(q) => decimal_checked_sub(count_dec(100), q),
                    None => None,
                },
                None => None,
            },
            None => None,
        }
    }
}

/// The average of the `period` values of `s` ending at index `i`.
pub open spec fn window_avg(s: Seq<Dec>, i: int, period: nat) -> Option<Dec> {
    match seq_sum(s.subrange(i - period + 1, i + 1)) {
        Some(total) => decimal_checked_div(total, count_dec(period as int)),
        None => None,
    }
}

/// The RSI computed from the gains and losses of the `period` price changes ending at change
/// `i` (it is reported at price index `i + 1`).
pub open spec fn rsi_value_at(prices: Seq<Dec>, period: nat, i: int) -> Option<Dec> {
    match (window_avg(gains_of(prices), i, period), window_avg(losses_of(prices), i, period)) {
        (Some(g), Some(l)) => rsi_from(g, l),
        _ => None,
    }
}

/// Every price change can be computed.
pub open spec fn changes_ok(prices: Seq<Dec>) -> bool {
    forall|i: int| 0 <= i < prices.len() - 1 ==> #[trigger] crate::decimal::can_sub(prices[i + 1], prices[i])
}

/// Nothing in `calculate_rsi` overflows or divides by zero.
pub open spec fn rsi_ok(prices: Seq<Dec>, period: nat) -> bool {
    prices.len() >= 2 ==> {
        &&& changes_ok(prices)
        &&& forall|i: int| period <= i < prices.len() - 1 ==> (#[trigger] rsi_value_at(prices, period, i)) is Some
    }
}

/// The RSI series: one entry per price, `None` for the first `period + 1` prices (all of them
/// for fewer than two prices), else the RSI of the last `period` changes.
pub open spec fn rsi_spec(prices: Seq<Dec>, period: nat) -> Seq<Option<Dec>> {
    Seq::new(
        prices.len(),
        |k: int|
            if prices.len() >= 2 && period + 1 <= k {
                Some(rsi_value_at(prices, period, k - 1)->0)
            } else {
                None
            },
    )
}

/// Where the RSI `x` of an average gain `g` and an average loss `l` stands: 100 without a loss;
/// otherwise, for gains that are not negative, between 0 and 100, at least 50 when the gain is
/// at least the loss and at most 50 when it is at most the loss.
pub open spec fn rsi_in_line(g: Dec, l: Dec, x: Dec) -> bool {
    &&& l.value() == 0 ==> x.value() == units(100)
    &&& 0 < l.value() && 0 <= g.value() ==> 0 <= x.value() <= units(100)
    &&& 0 < l.value() <= g.value() ==> units(50) <= x.value()
    &&& 0 <= g.value() <= l.value() && 0 < l.value() ==> x.value() <= units(50)
}

/// The steps `rs = g / l`, `d = 1 + rs`, `q = 100 / d`, `x = 100 - q` put the RSI in line with
/// the gain and the loss, whatever each step rounds.
proof fn lemma_rsi_steps(g: Dec, l: Dec, rs: Dec, d: Dec, q: Dec, x: Dec)
    requires
        l.value() != 0,
        l.value() > 0 ==> keeps_whole_bounds(g.value() * units(1), l.value(), rs),
        keeps_whole_bounds(units(1) + rs.value(), 1, d),
        d.value() > 0 ==> keeps_whole_bounds(units(100) * units(1), d.value(), q),
        keeps_whole_bounds(units(100) - q.value(), 1, x),
    ensures
        rsi_in_line(g, l, x),
{
    lemma_units(0);
    lemma_units(2);
    lemma_units(50);
    lemma_units(100);
    let u = units(1);
    let gv = g.value();
    let lv = l.value();
    if 0 <= gv && 0 < lv {
        assert(gv * u >= units(0) * lv) by (nonlinear_arith)
            requires
                gv >= 0,
                u > 0,
                units(0) == 0,
        ;
        assert(rs.value() >= units(0));
        assert(units(1) + rs.value() >= units(1) * 1);
        assert(d.value() >= units(1));
        let dv = d.value();
        assert(units(100) * u >= units(0) * dv);
        assert(units(100) * u <= units(100) * dv) by (nonlinear_arith)
            requires
                dv >= u,
                units(100) == 100 * u,
                u > 0,
        ;
        assert(q.value() >= units(0) && q.value() <= units(100));
        assert(units(100) - q.value() >= units(0) * 1);
        assert(units(100) - q.value() <= units(100) * 1);
        assert(x.value() >= units(0) && x.value() <= units(100));
        if gv <= lv {
            assert(gv * u <= units(1) * lv) by (nonlinear_arith)
                requires
                    gv <= lv,
                    u > 0,
                    units(1) == u,
            ;
            assert(rs.value() <= units(1));
            assert(units(1) + rs.value() <= units(2) * 1);
            assert(dv <= units(2));
            assert(units(100) * u >= units(50) * dv) by (nonlinear_arith)
                requires
                    dv <= units(2),
                    units(2) == 2 * u,
                    units(50) == 50 * u,
                    units(100) == 100 * u,
                    u > 0,
            ;
            assert(q.value() >= units(50));
            assert(units(100) - q.value() <= units(50) * 1);
        }
    }
    if 0 < lv <= gv {
        assert(gv * u >= units(1) * lv) by (nonlinear_arith)
            requires
                gv >= lv,
                u > 0,
                units(1) == u,
        ;
        assert(rs.value() >= units(1));
        assert(units(1) + rs.value() >= units(2) * 1);
        let dv = d.value();
        assert(dv >= units(2));
        assert(units(100) * u <= units(50) * dv) by (nonlinear_arith)
            requires
                dv >= units(2),
                units(2) == 2 * u,
                units(50) == 50 * u,
                units(100) == 100 * u,
                u > 0,
        ;
        assert(q.value() <= units(50));
        assert(units(100) - q.value() >= units(50) * 1);
    }
}

/// The RSI at one change index, computed as `calculate_rsi` does, or `None` where `Decimal`
/// would panic.
fn try_rsi_value(gains: &Vec<Dec>, losses: &Vec<Dec>, i: usize, period: usize) -> (r: Option<Dec>)
    requires
        period <= i < gains.len(),
        gains@.len() == losses@.len(),
    ensures
        r == match (window_avg(gains@, i as int, period as nat), window_avg(losses@, i as int, period as nat)) {
            (Some(g), Some(l)) => rsi_from(g, l),
            _ => None,
        },
        r is Some ==> (window_avg(gains@, i as int, period as nat) is Some && window_avg(
            losses@,
            i as int,
            period as nat,
        ) is Some && rsi_in_line(
            window_avg(gains@, i as int, period as nat)->0,
            window_avg(losses@, i as int, period as nat)->0,
            r->0,
        )),
{
    proof {
        assert(gains@.subrange(i - period + 1, i + 1) == gains@.subrange((i + 1 - period) as int, (i + 1) as int));
        assert(losses@.subrange(i - period + 1, i + 1) == losses@.subrange((i + 1 - period) as int, (i + 1) as int));
    }
    let avg_gain = match Dec::try_sum_slice(&gains.as_slice()[i + 1 - period..i + 1]) {
        Some(total) => total.checked_div(Dec::from_usize(period)),
        None => None,
    };
    let avg_loss = match Dec::try_sum_slice(&losses.as_slice()[i + 1 - period..i + 1]) {
        Some(total) => total.checked_div(Dec::from_usize(period)),
        None => None,
    };
    match (avg_gain, avg_loss) {
        (Some(g), Some(l)) => {
            if l.is_zero() {
                proof {
                    lemma_units(100);
                }
                Some(Dec::from_int(100))
            } else {
                let one = Dec::from_int(1);
                let hundred = Dec::from_int(100);
                proof {
                    lemma_units(1);
                    lemma_units(100);
                    assert(one.value() == units(1));
                    assert(hundred.value() == units(100));
                }
                match g.checked_div(l) {
                    Some(rs) => match one.checked_add(rs) {
                        Some(d) => match hundred.checked_div(d) {
                            Some(q) => {
                                let x = hundred.checked_sub(q);
                                proof {
                                    if x is Some {
                                        lemma_rsi_steps(g, l, rs, d, q, x->0);
                                    }
                                }
                                x
                            },
                            None => None,
                        },
                        None => None,
                    },
                    None => None,
                }
            }
        },
        _ => None,
    }
}

/// The relative strength index of the prices over `period` changes, or `None` where `Decimal`
/// would panic.
pub fn try_calculate_rsi(prices: &[Dec], period: usize) -> (r: Option<Vec<Option<Dec>>>)
    ensures
        r is Some <==> rsi_ok(prices@, period as nat),
        r is Some ==> r->0@ == rsi_spec(prices@, period as nat),
{
    let n = prices.len();
    let mut rsi: Vec<Option<Dec>> = Vec::new();
    let mut k: usize = 0;
    while k < n
        invariant
            n == prices@.len(),
            k <= n,
            rsi@.len() == k,
            forall|j: int| 0 <= j < k ==> rsi@[j] is None,
        decreases n - k,
    {
        rsi.push(None);
        k = k + 1;
    }
    if n < 2 {
        proof {
            assert(rsi@ =~= rsi_spec(prices@, period as nat));
        }
        return Some(rsi);
    }
    let mut gains: Vec<Dec> = Vec::new();
    let mut losses: Vec<Dec> = Vec::new();
    let mut i: usize = 1;
    while i < n
        invariant
            n == prices@.len(),
            n >= 2,
            1 <= i <= n,
            gains@.len() == i - 1,
            losses@.len() == i - 1,
            forall|j: int| 0 <= j < i - 1 ==> #[trigger] crate::decimal::can_sub(prices@[j + 1], prices@[j]),
            forall|j: int| 0 <= j < i - 1 ==> gains@[j] == gain_at(prices@, j) && losses@[j] == loss_at(prices@, j),
        decreases n - i,
    {
        let change = match prices[i].checked_sub(prices[i - 1]) {
            Some(c) => c,
            None => {
                proof {
                    assert(!crate::decimal::can_sub(prices@[(i - 1) + 1], prices@[i - 1]));
                    assert(!changes_ok(prices@));
                }
                return None;
            },
        };
        if change.gt(&Dec::zero()) {
            gains.push(change);
            losses.push(Dec::zero());
        } else {
            gains.push(Dec::zero());
            losses.push(change.neg());
        }
        i = i + 1;
    }
    proof {
        assert(gains@ =~= gains_of(prices@));
        assert(losses@ =~= losses_of(prices@));
        assert(changes_ok(prices@));
    }
    let mut i: usize = period;
    while i < gains.len()
        invariant
            n == prices@.len(),
            n >= 2,
            changes_ok(prices@),
            gains@ == gains_of(prices@),
            losses@ == losses_of(prices@),
            gains@.len() == n - 1,
            losses@.len() == n - 1,
            period <= i,
            rsi@.len() == n,
            forall|j: int| period <= j < i ==> (#[trigger] rsi_value_at(prices@, period as nat, j)) is Some,
            forall|k: int| 0 <= k < n ==> rsi@[k] == if period + 1 <= k <= i {
                Some(rsi_value_at(prices@, period as nat, k - 1)->0)
            } else {
                None
            },
        decreases n - 1 - i,
    {
        match try_rsi_value(&gains, &losses, i, period) {
            Some(value) => {
                rsi.set(i + 1, Some(value));
            },
            None => {
                proof {
                    assert(rsi_value_at(prices@, period as nat, i as int) is None);
                }
                return None;
            },
        }
        i = i + 1;
    }
    proof {
        assert(rsi@ =~= rsi_spec(prices@, period as nat));
    }
    Some(rsi)
}

/// The relative strength index of the prices over `period` changes.
pub fn calculate_rsi(prices: &[Dec], period: usize) -> (r: Vec<Option<Dec>>)
    requires
        rsi_ok(prices@, period as nat),
    ensures
        r@ == rsi_spec(prices@, period as nat),
{
    match try_calculate_rsi(prices, period) {
        Some(v) => v,
        None => vstd::pervasive::unreached(),
    }
}

// ----- MACD -----

/// Element-wise `a[i] - b[i]` over the common length, where each is defined.
pub open spec fn diff_ok(a: Seq<Dec>, b: Seq<Dec>) -> bool {
    forall|i: int| 0 <= i < a.len() && i < b.len() ==> #[trigger] crate::decimal::can_sub(a[i], b[i])
}

/// Element-wise `a[i] - b[i]` over the common length.
pub open spec fn diff_spec(a: Seq<Dec>, b: Seq<Dec>) -> Seq<Dec> {
    let n = if a.len() < b.len() { a.len() } else { b.len() };
    Seq::new(n, |i: int| decimal_checked_sub(a[i], b[i])->0)
}

/// Element-wise differences over the common length, or `None` where one overflows.
fn try_zip_sub(a: &Vec<Dec>, b: &Vec<Dec>) -> (r: Option<Vec<Dec>>)
    ensures
        r is Some <==> diff_ok(a@, b@),
        r is Some ==> r->0@ == diff_spec(a@, b@),
{
    let n = if a.len() < b.len() {
        a.len()
    } else {
        b.len()
    };
    let mut out: Vec<Dec> = Vec::new();
    let mut i: usize = 0;
    while i < n
        invariant
            n <= a@.len(),
            n <= b@.len(),
            n == a@.len() || n == b@.len(),
            i <= n,
            out@.len() == i,
            forall|j: int| 0 <= j < i ==> #[trigger] crate::decimal::can_sub(a@[j], b@[j]),
            forall|j: int| 0 <= j < i ==> out@[j] == decimal_checked_sub(a@[j], b@[j])->0,
        decreases n - i,
    {
        match a[i].checked_sub(b[i]) {
            Some(d) => {
                out.push(d);
            },
            None => {
                proof {
                    assert(!crate::decimal::can_sub(a@[i as int], b@[i as int]));
                }
                return None;
            },
        }
        i = i + 1;
    }
    proof {
        assert(out@ =~= diff_spec(a@, b@));
    }
    Some(out)
}

/// Nothing in `calculate_macd` overflows or divides by zero.
pub open spec fn macd_ok(prices: Seq<Dec>, fast: nat, slow: nat, signal: nat) -> bool {
    &&& ema_spec(prices, fast) is Some
    &&& ema_spec(prices, slow) is Some
    &&& diff_ok(ema_spec(prices, fast)->0, ema_spec(prices, slow)->0)
    &&& ema_spec(diff_spec(ema_spec(prices, fast)->0, ema_spec(prices, slow)->0), signal) is Some
    &&& diff_ok(
        diff_spec(ema_spec(prices, fast)->0, ema_spec(prices, slow)->0),
        ema_spec(diff_spec(ema_spec(prices, fast)->0, ema_spec(prices, slow)->0), signal)->0,
    )
}

/// The MACD line (fast EMA less slow EMA), its signal line (EMA of the MACD line) and the
/// histogram (MACD less signal).
pub open spec fn macd_spec(prices: Seq<Dec>, fast: nat, slow: nat, signal: nat) -> (Seq<Dec>, Seq<Dec>, Seq<Dec>) {
    let line = diff_spec(ema_spec(prices, fast)->0, ema_spec(prices, slow)->0);
    let sig = ema_spec(line, signal)->0;
    (line, sig, diff_spec(line, sig))
}

/// MACD of the prices, or `None` where `Decimal` would panic.
pub fn try_calculate_macd(prices: &[Dec], fast_period: usize, slow_period: usize, signal_period: usize) -> (r: Option<(Vec<Dec>, Vec<Dec>, Vec<Dec>)>)
    requires
        fast_period < usize::MAX,
        slow_period < usize::MAX,
        signal_period < usize::MAX,
    ensures
        r is Some <==> macd_ok(prices@, fast_period as nat, slow_period as nat, signal_period as nat),
        match r {
            Some((line, sig, hist)) => (line@, sig@, hist@) == macd_spec(prices@, fast_period as nat, slow_period as nat, signal_period as nat),
            None => true,
        },
{
    let fast_ema = match try_calculate_ema(prices, fast_period) {
        Some(v) => v,
        None => return None,
    };
    let slow_ema = match try_calculate_ema(prices, slow_period) {
        Some(v) => v,
        None => return None,
    };
    let macd_line = match try_zip_sub(&fast_ema, &slow_ema) {
        Some(v) => v,
        None => return None,
    };
    let signal_line = match try_calculate_ema(macd_line.as_slice(), signal_period) {
        Some(v) => v,
        None => return None,
    };
    let histogram = match try_zip_sub(&macd_line, &signal_line) {
        Some(v) => v,
        None => return None,
    };
    Some((macd_line, signal_line, histogram))
}

/// MACD of the prices.
pub fn calculate_macd(prices: &[Dec], fast_period: usize, slow_period: usize, signal_period: usize) -> (r: (Vec<Dec>, Vec<Dec>, Vec<Dec>))
    requires
        fast_period < usize::MAX,
        slow_period < usize::MAX,
        signal_period < usize::MAX,
        macd_ok(prices@, fast_period as nat, slow_period as nat, signal_period as nat),
    ensures
        (r.0@, r.1@, r.2@) == macd_spec(prices@, fast_period as nat, slow_period as nat, signal_period as nat),
{
    match try_calculate_macd(prices, fast_period, slow_period, signal_period) {
        Some(v) => v,
        None => vstd::pervasive::unreached(),
    }
}

} // verus!
