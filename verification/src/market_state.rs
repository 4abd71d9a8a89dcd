//! Market state analysis: how the bars divide into trending, ranging and volatile stretches,
//! from the ATR and ADX of overlapping windows.
use crate::decimal::{
    abs_of, decimal_checked_add, decimal_checked_div, decimal_checked_mul, decimal_checked_sub,
    aligned_difference, decimal_display_fixed, fits_64, lemma_seq_sum_prefix_some, max_mantissa,
    max_of, min_of, scales_close, seq_sum, Dec,
};
use crate::indicators::{count_dec, ema_step};
use crate::seqs::{count_of, lemma_count_of_step};
use crate::text::{concat, digits_text, usize_to_string};
use crate::types::OHLCData;
use vstd::prelude::*;
use vstd::string::StringExecFns;

verus! {

/// The state of the market over a stretch of bars.
#[derive(Debug, Clone, Copy, PartialEq, Eq, Structural)]
pub enum MarketState {
    /// ADX above 25 with +DI above -DI.
    StrongUptrend,
    Uptrend,
    /// Sideways.
    Ranging,
    Downtrend,
    /// ADX above 25 with -DI at or above +DI.
    StrongDowntrend,
    /// ATR above 3% of the price.
    HighVolatility,
}

/// The name of a market state.
pub open spec fn state_name(s: MarketState) -> Seq<char> {
    match s {
        MarketState::StrongUptrend => "strong_uptrend"@,
        MarketState::Uptrend => "uptrend"@,
        MarketState::Ranging => "ranging"@,
        MarketState::Downtrend => "downtrend"@,
        MarketState::StrongDowntrend => "strong_downtrend"@,
        MarketState::HighVolatility => "high_volatility"@,
    }
}

impl MarketState {
    pub fn as_str(&self) -> (r: &'static str)
        ensures
            r@ == state_name(*self),
    {
        match self {
            MarketState::StrongUptrend => "strong_uptrend",
            MarketState::Uptrend => "uptrend",
            MarketState::Ranging => "ranging",
            MarketState::Downtrend => "downtrend",
            MarketState::StrongDowntrend => "strong_downtrend",
            MarketState::HighVolatility => "high_volatility",
        }
    }

    /// Whether the state is one of the four trends.
    pub fn is_trending(&self) -> (r: bool)
        ensures
            r == !(*self == MarketState::Ranging || *self == MarketState::HighVolatility),
    {
        match self {
            MarketState::StrongUptrend | MarketState::Uptrend | MarketState::Downtrend
            | MarketState::StrongDowntrend => true,
            _ => false,
        }
    }
}

// ----- true range and ATR -----

/// The true range at bar `i` (from 1): the largest of high less low and the distances of the
/// high and the low from the previous close.
pub open spec fn true_range(h: Seq<Dec>, l: Seq<Dec>, c: Seq<Dec>, i: int) -> Option<Dec> {
    match (
        decimal_checked_sub(h[i], l[i]),
        decimal_checked_sub(h[i], c[i - 1]),
        decimal_checked_sub(l[i], c[i - 1]),
    ) {
        (Some(hl), Some(hc), Some(lc)) => Some(max_of(max_of(hl, abs_of(hc)), abs_of(lc))),
        _ => None,
    }
}

/// The true ranges of bars 1 onwards, `None` where one overflows.
pub open spec fn true_ranges(h: Seq<Dec>, l: Seq<Dec>, c: Seq<Dec>) -> Option<Seq<Dec>> {
    if h.len() < 2 {
        Some(Seq::empty())
    } else if forall|i: int| 1 <= i < h.len() ==> (#[trigger] true_range(h, l, c, i)) is Some {
        Some(Seq::new((h.len() - 1) as nat, |k: int| true_range(h, l, c, k + 1)->0))
    } else {
        None
    }
}

/// The same-length price series.
pub open spec fn series_ok(h: Seq<Dec>, l: Seq<Dec>, c: Seq<Dec>) -> bool {
    h.len() == l.len() && h.len() == c.len()
}

fn true_range_at(highs: &[Dec], lows: &[Dec], closes: &[Dec], i: usize) -> (r: Option<Dec>)
    requires
        series_ok(highs@, lows@, closes@),
        1 <= i < highs@.len(),
    ensures
        r == true_range(highs@, lows@, closes@, i as int),
{
    let hl = highs[i].checked_sub(lows[i]);
    let hc = highs[i].checked_sub(closes[i - 1]);
    let lc = lows[i].checked_sub(closes[i - 1]);
    match (hl, hc, lc) {
        (Some(hl), Some(hc), Some(lc)) => Some(hl.max(hc.abs()).max(lc.abs())),
        _ => None,
    }
}

fn try_true_ranges(highs: &[Dec], lows: &[Dec], closes: &[Dec]) -> (r: Option<Vec<Dec>>)
    requires
        series_ok(highs@, lows@, closes@),
    ensures
        match r {
            Some(v) => true_ranges(highs@, lows@, closes@) == Some(v@),
            None => true_ranges(highs@, lows@, closes@) is None,
        },
{
    let mut out: Vec<Dec> = Vec::new();
    if highs.len() < 2 {
        return Some(out);
    }
    let mut i: usize = 1;
    while i < highs.len()
        invariant
            series_ok(highs@, lows@, closes@),
            highs@.len() >= 2,
            1 <= i <= highs@.len(),
            out@.len() == i - 1,
            forall|k: int| 1 <= k < i ==> (#[trigger] true_range(highs@, lows@, closes@, k)) is Some,
            forall|k: int| 0 <= k < i - 1 ==> out@[k] == true_range(highs@, lows@, closes@, k + 1)->0,
        decreases highs@.len() - i,
    {
        match true_range_at(highs, lows, closes, i) {
            Some(t) => {
                out.push(t);
            },
            None => {
                return None;
            },
        }
        i = i + 1;
    }
    proof {
        assert(out@ =~= Seq::new((highs@.len() - 1) as nat, |k: int| true_range(highs@, lows@, closes@, k + 1)->0));
    }
    Some(out)
}

/// Wilder's running average from bar `period` on: each true range weighted `mult`, the
/// previous average the rest.
pub open spec fn wilder_fold(trs: Seq<Dec>, mult: Dec, seed: Dec, period: nat, n: nat) -> Option<Dec>
    decreases n,
{
    if n <= period {
        Some(seed)
    } else {
        match wilder_fold(trs, mult, seed, period, (n - 1) as nat) {
            Some(a) => ema_step(trs[n - 1], a, mult),
            None => None,
        }
    }
}

proof fn lemma_wilder_fold_none(trs: Seq<Dec>, mult: Dec, seed: Dec, period: nat, k: nat, n: nat)
    requires
        k <= n,
        wilder_fold(trs, mult, seed, period, k) is None,
    ensures
        wilder_fold(trs, mult, seed, period, n) is None,
    decreases n - k,
{
    if k < n {
        lemma_wilder_fold_none(trs, mult, seed, period, k, (n - 1) as nat);
    }
}

/// The average true range: zero for fewer than two bars or a zero period; the plain average
/// for fewer true ranges than the period; else Wilder's average seeded with the average of the
/// first `period`.
pub open spec fn atr_spec(h: Seq<Dec>, l: Seq<Dec>, c: Seq<Dec>, period: nat) -> Option<Dec> {
    if h.len() < 2 || period == 0 {
        Some(Dec::spec_zero())
    } else {
        match true_ranges(h, l, c) {
            None => None,
            Some(trs) => if trs.len() < period {
                match seq_sum(trs) {
                    Some(total) => decimal_checked_div(total, count_dec(if trs.len() > 1 { trs.len() as int } else { 1 })),
                    None => None,
                }
            } else {
                match (seq_sum(trs.take(period as int)), decimal_checked_div(count_dec(1), count_dec(period as int))) {
                    (Some(total), Some(mult)) => match decimal_checked_div(total, count_dec(period as int)) {
                        Some(seed) => wilder_fold(trs, mult, seed, period, trs.len()),
                        None => None,
                    },
                    _ => None,
                }
            },
        }
    }
}

/// The average true range, or `None` where `Decimal` would panic.
pub fn try_calculate_atr(highs: &[Dec], lows: &[Dec], closes: &[Dec], period: usize) -> (r: Option<Dec>)
    requires
        series_ok(highs@, lows@, closes@),
    ensures
        r == atr_spec(highs@, lows@, closes@, period as nat),
{
    if highs.len() < 2 || period == 0 {
        return Some(Dec::zero());
    }
    let trs = match try_true_ranges(highs, lows, closes) {
        Some(v) => v,
        None => return None,
    };
    if trs.len() < period {
        let n = if trs.len() > 1 {
            trs.len()
        } else {
            1
        };
        return match Dec::try_sum_slice(trs.as_slice()) {
            Some(total) => total.checked_div(Dec::from_usize(n)),
            None => None,
        };
    }
    proof {
        assert(trs@.subrange(0, period as int) =~= trs@.take(period as int));
    }
    let total = Dec::try_sum_slice(&trs.as_slice()[0..period]);
    let mult = Dec::from_int(1).checked_div(Dec::from_usize(period));
    let (total, mult) = match (total, mult) {
        (Some(t), Some(m)) => (t, m),
        _ => return None,
    };
    let seed = match total.checked_div(Dec::from_usize(period)) {
        Some(s) => s,
        None => return None,
    };
    let mut atr = seed;
    let mut i: usize = period;
    while i < trs.len()
        invariant
            period <= i <= trs@.len(),
            period > 0,
            highs@.len() >= 2,
            series_ok(highs@, lows@, closes@),
            true_ranges(highs@, lows@, closes@) == Some(trs@),
            seq_sum(trs@.take(period as int)) == Some(total),
            decimal_checked_div(count_dec(1), count_dec(period as int)) == Some(mult),
            decimal_checked_div(total, count_dec(period as int)) == Some(seed),
            wilder_fold(trs@, mult, seed, period as nat, i as nat) == Some(atr),
        decreases trs@.len() - i,
    {
        let step = match trs[i].checked_mul(mult) {
            Some(a) => match Dec::from_int(1).checked_sub(mult) {
                Some(rest) => match atr.checked_mul(rest) {
                    Some(b) => a.checked_add(b),
                    None => None,
                },
                None => None,
            },
            None => None,
        };
        match step {
            Some(v) => {
                atr = v;
            },
            None => {
                proof {
                    assert(ema_step(trs@[i as int], atr, mult) is None);
                    assert(wilder_fold(trs@, mult, seed, period as nat, (i + 1) as nat) is None);
                    lemma_wilder_fold_none(trs@, mult, seed, period as nat, (i + 1) as nat, trs@.len());
                }
                return None;
            },
        }
        i = i + 1;
    }
    Some(atr)
}

// ----- Wilder smoothing and ADX -----

/// Wilder's running sum from value `period` on: `sum - sum / period + value`.
pub open spec fn smooth_fold(values: Seq<Dec>, period: nat, seed: Dec, n: nat) -> Option<Dec>
    decreases n,
{
    if n <= period {
        Some(seed)
    } else {
        match smooth_fold(values, period, seed, (n - 1) as nat) {
            Some(s) => match decimal_checked_div(s, count_dec(period as int)) {
                Some(q) => match decimal_checked_sub(s, q) {
                    Some(d) => decimal_checked_add(d, values[n - 1]),
                    None => None,
                },
                None => None,
            },
            None => None,
        }
    }
}

proof fn lemma_smooth_fold_none(values: Seq<Dec>, period: nat, seed: Dec, k: nat, n: nat)
    requires
        k <= n,
        smooth_fold(values, period, seed, k) is None,
    ensures
        smooth_fold(values, period, seed, n) is None,
    decreases n - k,
{
    if k < n {
        lemma_smooth_fold_none(values, period, seed, k, (n - 1) as nat);
    }
}

/// Wilder's smoothing: the plain sum for fewer values than the period, else the running sum
/// seeded with the sum of the first `period`, divided by the period.
pub open spec fn smooth_spec(values: Seq<Dec>, period: nat) -> Option<Dec> {
    if values.len() < period {
        seq_sum(values)
    } else {
        match seq_sum(values.take(period as int)) {
            Some(seed) => match smooth_fold(values, period, seed, values.len()) {
                Some(s) => decimal_checked_div(s, count_dec(period as int)),
                None => None,
            },
            None => None,
        }
    }
}

/// Wilder's smoothing, or `None` where `Decimal` would panic.
pub fn try_smooth_sum(values: &[Dec], period: usize) -> (r: Option<Dec>)
    ensures
        r == smooth_spec(values@, period as nat),
{
    if values.len() < period {
        return Dec::try_sum_slice(values);
    }
    proof {
        assert(values@.subrange(0, period as int) =~= values@.take(period as int));
    }
    let seed = match Dec::try_sum_slice(&values[0..period]) {
        Some(s) => s,
        None => return None,
    };
    let mut sum = seed;
    let mut i: usize = period;
    while i < values.len()
        invariant
            period <= i <= values@.len(),
            seq_sum(values@.take(period as int)) == Some(seed),
            smooth_fold(values@, period as nat, seed, i as nat) == Some(sum),
        decreases values@.len() - i,
    {
        let step = match sum.checked_div(Dec::from_usize(period)) {
            Some(q) => match sum.checked_sub(q) {
                Some(d) => d.checked_add(values[i]),
                None => None,
            },
            None => None,
        };
        match step {
            Some(v) => {
                sum = v;
            },
            None => {
                proof {
                    assert(smooth_fold(values@, period as nat, seed, (i + 1) as nat) is None);
                    lemma_smooth_fold_none(values@, period as nat, seed, (i + 1) as nat, values@.len());
                }
                return None;
            },
        }
        i = i + 1;
    }
    sum.checked_div(Dec::from_usize(period))
}

/// The rise of the high at bar `i` (from 1).
pub open spec fn up_at(h: Seq<Dec>, i: int) -> Option<Dec> {
    decimal_checked_sub(h[i], h[i - 1])
}

/// The fall of the low at bar `i` (from 1).
pub open spec fn down_at(l: Seq<Dec>, i: int) -> Option<Dec> {
    decimal_checked_sub(l[i - 1], l[i])
}

/// Both directional moves at bar `i` can be computed.
pub open spec fn moves_ok(h: Seq<Dec>, l: Seq<Dec>, i: int) -> bool {
    up_at(h, i) is Some && down_at(l, i) is Some
}

/// +DM: the rise of the high when it beats the fall of the low and is positive, else zero.
pub open spec fn plus_dm(up: Dec, down: Dec) -> Dec {
    if up.value() > down.value() && up.value() > 0 {
        up
    } else {
        Dec::spec_zero()
    }
}

/// -DM: the fall of the low when it beats the rise of the high and is positive, else zero.
pub open spec fn minus_dm(up: Dec, down: Dec) -> Dec {
    if down.value() > up.value() && down.value() > 0 {
        down
    } else {
        Dec::spec_zero()
    }
}

/// The moves and true range of every bar from 1 can be computed.
pub open spec fn directional_ok(h: Seq<Dec>, l: Seq<Dec>, c: Seq<Dec>) -> bool {
    forall|i: int| 1 <= i < h.len() ==> #[trigger] moves_ok(h, l, i) && true_range(h, l, c, i) is Some
}

/// The +DM series.
pub open spec fn plus_dms(h: Seq<Dec>, l: Seq<Dec>) -> Seq<Dec> {
    Seq::new((h.len() - 1) as nat, |k: int| plus_dm(up_at(h, k + 1)->0, down_at(l, k + 1)->0))
}

/// The -DM series.
pub open spec fn minus_dms(h: Seq<Dec>, l: Seq<Dec>) -> Seq<Dec> {
    Seq::new((h.len() - 1) as nat, |k: int| minus_dm(up_at(h, k + 1)->0, down_at(l, k + 1)->0))
}

/// The true range series, with the directional moves.
pub open spec fn trs_of(h: Seq<Dec>, l: Seq<Dec>, c: Seq<Dec>) -> Seq<Dec> {
    Seq::new((h.len() - 1) as nat, |k: int| true_range(h, l, c, k + 1)->0)
}

/// `a / b * 100`.
pub open spec fn percent_of(a: Dec, b: Dec) -> Option<Dec> {
    match decimal_checked_div(a, b) {
        Some(q) => decimal_checked_mul(q, count_dec(100)),
        None => None,
    }
}

/// The ADX, +DI and -DI from the smoothed series: all zero when the smoothed true range is
/// zero; the DX (the DI gap over the DI sum, in percent) serves as the ADX.
pub open spec fn di_spec(str: Dec, splus: Dec, sminus: Dec) -> Option<(Dec, Dec, Dec)> {
    if str.value() == 0 {
        Some((Dec::spec_zero(), Dec::spec_zero(), Dec::spec_zero()))
    } else {
        match (percent_of(splus, str), percent_of(sminus, str)) {
            (Some(pdi), Some(mdi)) => match decimal_checked_add(pdi, mdi) {
                Some(di_sum) => if di_sum.value() > 0 {
                    match decimal_checked_sub(pdi, mdi) {
                        Some(gap) => match percent_of(abs_of(gap), di_sum) {
                            Some(dx) => Some((dx, pdi, mdi)),
                            None => None,
                        },
                        None => None,
                    }
                } else {
                    Some((Dec::spec_zero(), pdi, mdi))
                },
                None => None,
            },
            _ => None,
        }
    }
}

/// The ADX with +DI and -DI: all zero for `period + 1` bars or fewer than that.
pub open spec fn adx_spec(h: Seq<Dec>, l: Seq<Dec>, c: Seq<Dec>, period: nat) -> Option<(Dec, Dec, Dec)> {
    if h.len() < period + 1 {
        Some((Dec::spec_zero(), Dec::spec_zero(), Dec::spec_zero()))
    } else if !directional_ok(h, l, c) {
        None
    } else {
        match (
            smooth_spec(trs_of(h, l, c), period),
            smooth_spec(plus_dms(h, l), period),
            smooth_spec(minus_dms(h, l), period),
        ) {
            (Some(str), Some(splus), Some(sminus)) => di_spec(str, splus, sminus),
            _ => None,
        }
    }
}

fn try_percent(a: Dec, b: Dec) -> (r: Option<Dec>)
    ensures
        r == percent_of(a, b),
{
    match a.checked_div(b) {
        Some(q) => q.checked_mul(Dec::from_int(100)),
        None => None,
    }
}

/// The ADX, +DI and -DI, or `None` where `Decimal` would panic.
pub fn try_calculate_adx(highs: &[Dec], lows: &[Dec], closes: &[Dec], period: usize) -> (r: Option<(Dec, Dec, Dec)>)
    requires
        series_ok(highs@, lows@, closes@),
        period < usize::MAX,
    ensures
        r == adx_spec(highs@, lows@, closes@, period as nat),
{
    let zero = Dec::zero();
    if highs.len() < period + 1 {
        return Some((zero, zero, zero));
    }
    let mut pdm: Vec<Dec> = Vec::new();
    let mut mdm: Vec<Dec> = Vec::new();
    let mut trs: Vec<Dec> = Vec::new();
    let mut i: usize = 1;
    while i < highs.len()
        invariant
            series_ok(highs@, lows@, closes@),
            highs@.len() >= 1,
            highs@.len() >= period + 1,
            1 <= i <= highs@.len(),
            zero == Dec::spec_zero(),
            zero.value() == 0,
            pdm@.len() == i - 1,
            mdm@.len() == i - 1,
            trs@.len() == i - 1,
            forall|k: int| 1 <= k < i ==> #[trigger] moves_ok(highs@, lows@, k) && true_range(highs@, lows@, closes@, k) is Some,
            forall|k: int| 0 <= k < i - 1 ==> pdm@[k] == plus_dm(up_at(highs@, k + 1)->0, down_at(lows@, k + 1)->0),
            forall|k: int| 0 <= k < i - 1 ==> mdm@[k] == minus_dm(up_at(highs@, k + 1)->0, down_at(lows@, k + 1)->0),
            forall|k: int| 0 <= k < i - 1 ==> trs@[k] == true_range(highs@, lows@, closes@, k + 1)->0,
        decreases highs@.len() - i,
    {
        let up = highs[i].checked_sub(highs[i - 1]);
        let down = lows[i - 1].checked_sub(lows[i]);
        let (up, down) = match (up, down) {
            (Some(u), Some(d)) => (u, d),
            _ => {
                proof {
                    assert(!moves_ok(highs@, lows@, i as int));
                    assert(!directional_ok(highs@, lows@, closes@));
                }
                return None;
            },
        };
        let p = if up.gt(&down) && up.gt(&zero) {
            up
        } else {
            zero
        };
        let m = if down.gt(&up) && down.gt(&zero) {
            down
        } else {
            zero
        };
        let tr = match true_range_at(highs, lows, closes, i) {
            Some(t) => t,
            None => {
                proof {
                    assert(moves_ok(highs@, lows@, i as int));
                    assert(!directional_ok(highs@, lows@, closes@));
                }
                return None;
            },
        };
        pdm.push(p);
        mdm.push(m);
        trs.push(tr);
        i = i + 1;
    }
    proof {
        assert(pdm@ =~= plus_dms(highs@, lows@));
        assert(mdm@ =~= minus_dms(highs@, lows@));
        assert(trs@ =~= trs_of(highs@, lows@, closes@));
        assert(directional_ok(highs@, lows@, closes@));
    }
    let str = try_smooth_sum(trs.as_slice(), period);
    let splus = try_smooth_sum(pdm.as_slice(), period);
    let sminus = try_smooth_sum(mdm.as_slice(), period);
    let (str, splus, sminus) = match (str, splus, sminus) {
        (Some(a), Some(b), Some(c)) => (a, b, c),
        _ => return None,
    };
    if str.is_zero() {
        return Some((zero, zero, zero));
    }
    let (pdi, mdi) = match (try_percent(splus, str), try_percent(sminus, str)) {
        (Some(a), Some(b)) => (a, b),
        _ => return None,
    };
    let di_sum = match pdi.checked_add(mdi) {
        Some(v) => v,
        None => return None,
    };
    if di_sum.gt(&zero) {
        match pdi.checked_sub(mdi) {
            Some(gap) => match try_percent(gap.abs(), di_sum) {
                Some(dx) => Some((dx, pdi, mdi)),
                None => None,
            },
            None => None,
        }
    } else {
        Some((zero, pdi, mdi))
    }
}

// ----- one window -----

/// The figures of one analysed window.
pub struct SegmentFigures {
    pub state: MarketState,
    /// ATR as a percentage of the last close.
    pub volatility: Dec,
    /// (+DI - -DI) / (+DI + -DI).
    pub trend_strength: Dec,
    pub adx: Dec,
    pub atr: Dec,
    pub plus_di: Dec,
    pub minus_di: Dec,
}

/// The analysis of one window of bars.
pub struct MarketStateAnalysis {
    pub state: MarketState,
    pub volatility_percentile: Dec,
    pub trend_strength: Dec,
    pub adx: Dec,
    pub atr: Dec,
    pub description: String,
}

/// The highs of the bars.
pub open spec fn highs_of(k: Seq<OHLCData>) -> Seq<Dec> {
    k.map_values(|b: OHLCData| b.high)
}

/// The lows of the bars.
pub open spec fn lows_of(k: Seq<OHLCData>) -> Seq<Dec> {
    k.map_values(|b: OHLCData| b.low)
}

/// The closes of the bars.
pub open spec fn closes_of(k: Seq<OHLCData>) -> Seq<Dec> {
    k.map_values(|b: OHLCData| b.close)
}

/// The state of a window: highly volatile above 3% volatility; else a strong trend above ADX
/// 25 (up when +DI leads); else up or down beyond a trend strength of 0.2 either way; else
/// ranging.
pub open spec fn state_from(volatility: Dec, adx: Dec, plus_di: Dec, minus_di: Dec, trend: Dec) -> MarketState {
    if volatility.value() > Dec::spec_new(30, 1).value() {
        MarketState::HighVolatility
    } else if adx.value() > count_dec(25).value() {
        if plus_di.value() > minus_di.value() {
            MarketState::StrongUptrend
        } else {
            MarketState::StrongDowntrend
        }
    } else if trend.value() > Dec::spec_new(2, 1).value() {
        MarketState::Uptrend
    } else if trend.value() < Dec::spec_new(-2, 1).value() {
        MarketState::Downtrend
    } else {
        MarketState::Ranging
    }
}

/// The figures of a window (ATR and ADX over 14 bars), `None` where `Decimal` would panic.
pub open spec fn segment_spec(k: Seq<OHLCData>) -> Option<SegmentFigures> {
    let h = highs_of(k);
    let l = lows_of(k);
    let c = closes_of(k);
    match (atr_spec(h, l, c, 14), adx_spec(h, l, c, 14)) {
        (Some(atr), Some((adx, pdi, mdi))) => {
            let last = if c.len() > 0 { c.last() } else { count_dec(1) };
            let vol = if last.value() > 0 { percent_of(atr, last) } else { Some(Dec::spec_zero()) };
            match (vol, decimal_checked_add(pdi, mdi)) {
                (Some(v), Some(di_sum)) => {
                    let trend = if di_sum.value() > 0 {
                        match decimal_checked_sub(pdi, mdi) {
                            Some(g) => decimal_checked_div(g, di_sum),
                            None => None,
                        }
                    } else {
                        Some(Dec::spec_zero())
                    };
                    match trend {
                        Some(t) => Some(
                            SegmentFigures {
                                state: state_from(v, adx, pdi, mdi, t),
                                volatility: v,
                                trend_strength: t,
                                adx,
                                atr,
                                plus_di: pdi,
                                minus_di: mdi,
                            },
                        ),
                        None => None,
                    }
                },
                _ => None,
            }
        },
        _ => None,
    }
}

/// A window's state follows its figures: above 3% volatility it is highly volatile; at most
/// 3% with an ADX above 25 it is a strong uptrend when +DI exceeds -DI and a strong downtrend
/// otherwise; with a weaker ADX it is an uptrend above a trend strength of 0.2, a downtrend
/// below -0.2, and ranging between. In particular an up state never has -DI ahead with a
/// strong ADX, and a down state never has +DI ahead with a strong ADX.
pub proof fn lemma_segment_state(k: Seq<OHLCData>)
    requires
        segment_spec(k) is Some,
    ensures
        ({
            let f = segment_spec(k)->0;
            let calm = f.volatility.value() <= Dec::spec_new(30, 1).value();
            let strong = f.adx.value() > Dec::spec_new(25, 0).value();
            &&& !calm <==> f.state == MarketState::HighVolatility
            &&& calm && strong && f.plus_di.value() > f.minus_di.value() <==> f.state == MarketState::StrongUptrend
            &&& calm && strong && f.plus_di.value() <= f.minus_di.value() <==> f.state == MarketState::StrongDowntrend
            &&& calm && !strong && f.trend_strength.value() > Dec::spec_new(2, 1).value() <==> f.state
                == MarketState::Uptrend
            &&& calm && !strong && f.trend_strength.value() < Dec::spec_new(-2, 1).value() <==> f.state
                == MarketState::Downtrend
        }),
{
    let f = segment_spec(k)->0;
    assert(f.state == state_from(f.volatility, f.adx, f.plus_di, f.minus_di, f.trend_strength));
    assert(count_dec(25) == Dec::spec_new(25, 0));
    crate::decimal::lemma_pow10_pos(27);
    Dec::lemma_spec_new(-2, 1);
    Dec::lemma_spec_new(2, 1);
}

/// The description of a window's figures.
pub open spec fn segment_description(f: SegmentFigures) -> Seq<char> {
    "ADX="@ + decimal_display_fixed(f.adx, 1) + ", +DI="@ + decimal_display_fixed(f.plus_di, 1)
        + ", -DI="@ + decimal_display_fixed(f.minus_di, 1) + ", ATR="@ + decimal_display_fixed(f.atr, 2)
        + ", trend_strength="@ + decimal_display_fixed(f.trend_strength, 2)
}

/// Whether the analysis holds the figures.
pub open spec fn analysis_matches(a: MarketStateAnalysis, f: SegmentFigures) -> bool {
    &&& a.state == f.state
    &&& a.volatility_percentile == f.volatility
    &&& a.trend_strength == f.trend_strength
    &&& a.adx == f.adx
    &&& a.atr == f.atr
    &&& a.description@ == segment_description(f)
}

fn bar_series(klines: &[OHLCData]) -> (r: (Vec<Dec>, Vec<Dec>, Vec<Dec>))
    ensures
        r.0@ == highs_of(klines@),
        r.1@ == lows_of(klines@),
        r.2@ == closes_of(klines@),
{
    let mut highs: Vec<Dec> = Vec::new();
    let mut lows: Vec<Dec> = Vec::new();
    let mut closes: Vec<Dec> = Vec::new();
    let mut i: usize = 0;
    while i < klines.len()
        invariant
            i <= klines@.len(),
            highs@ == highs_of(klines@.take(i as int)),
            lows@ == lows_of(klines@.take(i as int)),
            closes@ == closes_of(klines@.take(i as int)),
        decreases klines@.len() - i,
    {
        highs.push(klines[i].high);
        lows.push(klines[i].low);
        closes.push(klines[i].close);
        proof {
            assert(highs@ =~= highs_of(klines@.take(i + 1)));
            assert(lows@ =~= lows_of(klines@.take(i + 1)));
            assert(closes@ =~= closes_of(klines@.take(i + 1)));
        }
        i = i + 1;
    }
    proof {
        assert(klines@.take(klines@.len() as int) =~= klines@);
    }
    (highs, lows, closes)
}

/// Analyses one window of bars, or `None` where `Decimal` would panic.
pub fn try_analyze_segment(klines: &[OHLCData]) -> (r: Option<MarketStateAnalysis>)
    ensures
        match r {
            Some(a) => segment_spec(klines@) is Some && analysis_matches(a, segment_spec(klines@)->0),
            None => segment_spec(klines@) is None,
        },
{
    let (highs, lows, closes) = bar_series(klines);
    let atr = try_calculate_atr(highs.as_slice(), lows.as_slice(), closes.as_slice(), 14);
    let adx = try_calculate_adx(highs.as_slice(), lows.as_slice(), closes.as_slice(), 14);
    let (atr, adx, plus_di, minus_di) = match (atr, adx) {
        (Some(a), Some((x, p, m))) => (a, x, p, m),
        _ => return None,
    };
    let last_price = if closes.len() > 0 {
        closes[closes.len() - 1]
    } else {
        Dec::from_int(1)
    };
    let zero = Dec::zero();
    let vol = if last_price.gt(&zero) {
        match atr.checked_div(last_price) {
            Some(q) => q.checked_mul(Dec::from_int(100)),
            None => None,
        }
    } else {
        Some(zero)
    };
    let di_sum = plus_di.checked_add(minus_di);
    let (vol, di_sum) = match (vol, di_sum) {
        (Some(v), Some(d)) => (v, d),
        _ => return None,
    };
    let trend = if di_sum.gt(&zero) {
        match plus_di.checked_sub(minus_di) {
            Some(g) => g.checked_div(di_sum),
            None => None,
        }
    } else {
        Some(zero)
    };
    let trend = match trend {
        Some(t) => t,
        None => return None,
    };
    let state = if vol.gt(&Dec::new(30, 1)) {
        MarketState::HighVolatility
    } else if adx.gt(&Dec::from_int(25)) {
        if plus_di.gt(&minus_di) {
            MarketState::StrongUptrend
        } else {
            MarketState::StrongDowntrend
        }
    } else if trend.gt(&Dec::new(2, 1)) {
        MarketState::Uptrend
    } else if trend.lt(&Dec::new(-2, 1)) {
        MarketState::Downtrend
    } else {
        MarketState::Ranging
    };
    let mut d = String::from_str("ADX=");
    d = concat(d, adx.to_string_fixed(1).as_str());
    d = concat(d, ", +DI=");
    d = concat(d, plus_di.to_string_fixed(1).as_str());
    d = concat(d, ", -DI=");
    d = concat(d, minus_di.to_string_fixed(1).as_str());
    d = concat(d, ", ATR=");
    d = concat(d, atr.to_string_fixed(2).as_str());
    d = concat(d, ", trend_strength=");
    d = concat(d, trend.to_string_fixed(2).as_str());
    Some(MarketStateAnalysis {
        state,
        volatility_percentile: vol,
        trend_strength: trend,
        adx,
        atr,
        description: d,
    })
}

// ----- the report -----

/// How many windows of `w` bars, starting every `h` bars from `start`, fit in `len` bars.
pub open spec fn segments_from(start: int, len: int, w: int, h: int) -> nat
    decreases len - start,
{
    if h <= 0 || h > w || start + w > len {
        0
    } else {
        1 + segments_from(start + h, len, w, h)
    }
}

/// The windows analysed: `w` bars each, starting every `h` bars.
pub open spec fn segment_at(k: Seq<OHLCData>, j: int, w: int, h: int) -> Seq<OHLCData> {
    k.subrange(j * h, j * h + w)
}

/// The index of the first entry for the state.
pub open spec fn state_index(counts: Seq<(MarketState, nat)>, s: MarketState) -> Option<int> {
    if exists|i: int| 0 <= i < counts.len() && counts[i].0 == s && forall|j: int| 0 <= j < i ==> counts[j].0 != s {
        Some(choose|i: int| 0 <= i < counts.len() && counts[i].0 == s && forall|j: int| 0 <= j < i ==> counts[j].0 != s)
    } else {
        None
    }
}

/// How many windows are in each state, the states in the order they first occur.
pub open spec fn state_counts(states: Seq<MarketState>) -> Seq<(MarketState, nat)>
    decreases states.len(),
{
    if states.len() == 0 {
        Seq::empty()
    } else {
        let prev = state_counts(states.drop_last());
        let s = states.last();
        match state_index(prev, s) {
            Some(i) => prev.update(i, (s, prev[i].1 + 1)),
            None => prev.push((s, 1)),
        }
    }
}

/// `count / total * 100`.
pub open spec fn share_pct(count: nat, total: nat) -> Option<Dec> {
    percent_of(count_dec(count as int), count_dec(total as int))
}

/// The quality of the data for testing: points for a trend share between 20% and 80% (40, or
/// 20 from 10% on), for a ranging share from 20% (30, or 15 from 10%), 7 per state seen (up to
/// four) and 5 more; at most 100.
pub open spec fn quality_spec(trend_ratio: Dec, ranging_pct: Dec, n_states: nat) -> Option<Dec> {
    let zero = Dec::spec_zero();
    let s1 = if trend_ratio.value() >= count_dec(20).value() && trend_ratio.value() <= count_dec(80).value() {
        decimal_checked_add(zero, count_dec(40))
    } else if trend_ratio.value() >= count_dec(10).value() {
        decimal_checked_add(zero, count_dec(20))
    } else {
        Some(zero)
    };
    match s1 {
        None => None,
        Some(a) => {
            let s2 = if ranging_pct.value() >= count_dec(20).value() {
                decimal_checked_add(a, count_dec(30))
            } else if ranging_pct.value() >= count_dec(10).value() {
                decimal_checked_add(a, count_dec(15))
            } else {
                Some(a)
            };
            match s2 {
                None => None,
                Some(b) => match decimal_checked_mul(count_dec(if n_states < 4 { n_states as int } else { 4 }), count_dec(7)) {
                    Some(x) => match decimal_checked_add(x, count_dec(5)) {
                        Some(y) => match decimal_checked_add(b, y) {
                            Some(c) => Some(min_of(c, count_dec(100))),
                            None => None,
                        },
                        None => None,
                    },
                    None => None,
                },
            }
        },
    }
}

/// The index of the largest share, the later one on a tie.
pub open spec fn dominant_index(ps: Seq<(MarketState, Dec)>) -> int
    decreases ps.len(),
{
    if ps.len() <= 1 {
        0
    } else {
        let d = dominant_index(ps.drop_last());
        if ps.last().1.value() >= ps[d].1.value() {
            ps.len() - 1
        } else {
            d
        }
    }
}

/// The number of windows counted in the per-state counts.
pub open spec fn counts_total(c: Seq<(MarketState, nat)>) -> nat
    decreases c.len(),
{
    if c.len() == 0 {
        0
    } else {
        counts_total(c.drop_last()) + c.last().1
    }
}

/// The number of windows counted in a report's state distribution.
pub open spec fn distribution_total(d: Seq<(String, usize)>) -> nat
    decreases d.len(),
{
    if d.len() == 0 {
        0
    } else {
        distribution_total(d.drop_last()) + d.last().1 as nat
    }
}

/// One more window in the state at `i` adds one to the total.
proof fn lemma_counts_total_bump(c: Seq<(MarketState, nat)>, i: int, s: MarketState)
    requires
        0 <= i < c.len(),
    ensures
        counts_total(c.update(i, (s, c[i].1 + 1))) == counts_total(c) + 1,
    decreases c.len(),
{
    let u = c.update(i, (s, c[i].1 + 1));
    if i == c.len() - 1 {
        assert(u.drop_last() =~= c.drop_last());
    } else {
        assert(u.drop_last() =~= c.drop_last().update(i, (s, c[i].1 + 1)));
        lemma_counts_total_bump(c.drop_last(), i, s);
    }
}

/// The counts add up to the number of states counted.
proof fn lemma_state_counts_total(states: Seq<MarketState>)
    ensures
        counts_total(state_counts(states)) == states.len(),
    decreases states.len(),
{
    if states.len() > 0 {
        let prev = state_counts(states.drop_last());
        let s = states.last();
        lemma_state_counts_total(states.drop_last());
        lemma_counts_step(prev, s);
    }
}

/// Counting one more state adds one to the total.
proof fn lemma_counts_step(prev: Seq<(MarketState, nat)>, s: MarketState)
    ensures
        counts_total(
            match state_index(prev, s) {
                Some(i) => prev.update(i, (s, prev[i].1 + 1)),
                None => prev.push((s, 1nat)),
            },
        ) == counts_total(prev) + 1,
{
    match state_index(prev, s) {
        Some(i) => {
            assert(0 <= i < prev.len());
            lemma_counts_total_bump(prev, i, s);
        },
        None => {
            assert(prev.push((s, 1nat)).drop_last() =~= prev);
        },
    }
}

/// Entries with the same counts have the same total.
proof fn lemma_totals_match(d: Seq<(String, usize)>, c: Seq<(MarketState, nat)>)
    requires
        d.len() == c.len(),
        forall|i: int| 0 <= i < d.len() ==> #[trigger] d[i].1 == c[i].1,
    ensures
        distribution_total(d) == counts_total(c),
    decreases d.len(),
{
    if d.len() > 0 {
        lemma_totals_match(d.drop_last(), c.drop_last());
    }
}

/// In a report on enough bars, the state distribution counts every window analysed once, and
/// the ranging share is 100 less the trend share.
pub proof fn lemma_report_totals(r: MarketStateReport, klines: Seq<OHLCData>, window: nat)
    requires
        report_is(r, klines, window),
        analysis_ok(klines, window),
        klines.len() >= effective_window(window),
    ensures
        distribution_total(r.state_distribution@) == segments_from(
            0,
            klines.len() as int,
            effective_window(window) as int,
            (effective_window(window) / 2) as int,
        ),
        decimal_checked_sub(count_dec(100), r.trend_ratio) == Some(r.ranging_ratio),
{
    let w = effective_window(window);
    let h = w / 2;
    let m = segments_from(0, klines.len() as int, w as int, h as int);
    let figs = Seq::new(m, |j: int| segment_spec(segment_at(klines, j, w as int, h as int))->0);
    let f = report_figures(figs)->0;
    let states = figs.map_values(|g: SegmentFigures| g.state);
    lemma_state_counts_total(states);
    lemma_totals_match(r.state_distribution@, f.counts);
}

/// Whether `Decimal` computes `a - b` exactly: both mantissas within 64 bits, the scales close
/// and the aligned difference within the mantissa's range.
pub open spec fn subtracts_exactly(a: Dec, b: Dec) -> bool {
    &&& fits_64(a.mant())
    &&& fits_64(b.mant())
    &&& scales_close(a, b)
    &&& -max_mantissa() <= aligned_difference(a, b) <= max_mantissa()
}

/// The report of a market state analysis.
pub struct MarketStateReport {
    pub total_candles: usize,
    pub analysis_window: usize,
    /// How many windows are in each state, by state name.
    pub state_distribution: Vec<(String, usize)>,
    /// The share of the windows in each state, in percent, by state name.
    pub state_percentages: Vec<(String, Dec)>,
    pub avg_volatility: Dec,
    pub avg_trend_strength: Dec,
    pub data_quality_score: Dec,
    /// The share of trending windows, in percent.
    pub trend_ratio: Dec,
    pub ranging_ratio: Dec,
    pub summary: String,
}

/// The figures derived from the windows' figures.
pub struct ReportFigures {
    pub counts: Seq<(MarketState, nat)>,
    pub percentages: Seq<(MarketState, Dec)>,
    pub avg_volatility: Dec,
    pub avg_trend_strength: Dec,
    pub trend_ratio: Dec,
    pub ranging_ratio: Dec,
    pub quality: Dec,
}

/// The report's figures from the windows' figures, `None` where `Decimal` would panic.
pub open spec fn report_figures(figs: Seq<SegmentFigures>) -> Option<ReportFigures> {
    let m = figs.len();
    let counts = state_counts(figs.map_values(|f: SegmentFigures| f.state));
    let trend_count = count_of(figs.map_values(|f: SegmentFigures| !(f.state == MarketState::Ranging || f.state == MarketState::HighVolatility)));
    if !(forall|i: int| 0 <= i < counts.len() ==> (#[trigger] share_pct(counts[i].1, m)) is Some) {
        None
    } else {
        let percentages = counts.map_values(|e: (MarketState, nat)| (e.0, share_pct(e.1, m)->0));
        let ranging_pct = match state_index(counts, MarketState::Ranging) {
            Some(i) => percentages[i].1,
            None => Dec::spec_zero(),
        };
        match (
            seq_sum(figs.map_values(|f: SegmentFigures| f.volatility)),
            seq_sum(figs.map_values(|f: SegmentFigures| abs_of(f.trend_strength))),
            share_pct(trend_count, m),
        ) {
            (Some(vs), Some(ts), Some(tr)) => match (
                decimal_checked_div(vs, count_dec(m as int)),
                decimal_checked_div(ts, count_dec(m as int)),
                decimal_checked_sub(count_dec(100), tr),
            ) {
                (Some(av), Some(at), Some(rr)) => match quality_spec(tr, ranging_pct, counts.len()) {
                    Some(q) => Some(
                        ReportFigures {
                            counts,
                            percentages,
                            avg_volatility: av,
                            avg_trend_strength: at,
                            trend_ratio: tr,
                            ranging_ratio: rr,
                            quality: q,
                        },
                    ),
                    None => None,
                },
                _ => None,
            },
            _ => None,
        }
    }
}

/// The summary line.
pub open spec fn summary_text(m: nat, f: ReportFigures) -> Seq<char> {
    let dominant = if f.percentages.len() == 0 {
        "unknown"@
    } else {
        let d = f.percentages[dominant_index(f.percentages)];
        state_name(d.0) + " ("@ + decimal_display_fixed(d.1, 1) + "%)"@
    };
    "Analyzed "@ + digits_text(m) + " segments. Dominant: "@ + dominant + ". Avg volatility: "@
        + decimal_display_fixed(f.avg_volatility, 2) + "%, Avg trend strength: "@
        + decimal_display_fixed(f.avg_trend_strength, 2) + ". Data quality: "@
        + decimal_display_fixed(f.quality, 0) + "/100"@
}

/// The windowing of `analyze`: at least 20 bars per window, windows overlapping by half.
pub open spec fn effective_window(window: nat) -> nat {
    if window > 20 { window } else { 20 }
}

/// The analysis of every window can be computed, and the report's figures from them.
pub open spec fn analysis_ok(klines: Seq<OHLCData>, window: nat) -> bool {
    let w = effective_window(window);
    let h = w / 2;
    let m = segments_from(0, klines.len() as int, w as int, h as int);
    klines.len() >= w ==> {
        &&& forall|j: int| 0 <= j < m ==> (#[trigger] segment_spec(segment_at(klines, j, w as int, h as int))) is Some
        &&& report_figures(Seq::new(m, |j: int| segment_spec(segment_at(klines, j, w as int, h as int))->0)) is Some
    }
}

/// Whether `r` is the report on `klines`: too few bars give an empty report; else the
/// windows' states are counted and averaged.
pub open spec fn report_is(r: MarketStateReport, klines: Seq<OHLCData>, window: nat) -> bool {
    let w = effective_window(window);
    let h = w / 2;
    let m = segments_from(0, klines.len() as int, w as int, h as int);
    let figs = Seq::new(m, |j: int| segment_spec(segment_at(klines, j, w as int, h as int))->0);
    &&& r.total_candles == klines.len()
    &&& if klines.len() < w {
        &&& r.analysis_window == 0
        &&& r.state_distribution@.len() == 0
        &&& r.state_percentages@.len() == 0
        &&& r.avg_volatility == Dec::spec_zero()
        &&& r.avg_trend_strength == Dec::spec_zero()
        &&& r.data_quality_score == Dec::spec_zero()
        &&& r.trend_ratio == Dec::spec_zero()
        &&& r.ranging_ratio == Dec::spec_zero()
        &&& r.summary@ == "Insufficient data for market state analysis"@
    } else {
        let f = report_figures(figs)->0;
        &&& r.analysis_window == w
        &&& r.state_distribution@.len() == f.counts.len()
        &&& forall|i: int| 0 <= i < f.counts.len() ==> (#[trigger] r.state_distribution@[i]).0@ == state_name(f.counts[i].0)
            && r.state_distribution@[i].1 == f.counts[i].1
        &&& r.state_percentages@.len() == f.percentages.len()
        &&& forall|i: int| 0 <= i < f.percentages.len() ==> (#[trigger] r.state_percentages@[i]).0@ == state_name(f.percentages[i].0)
            && r.state_percentages@[i].1 == f.percentages[i].1
        &&& r.avg_volatility == f.avg_volatility
        &&& r.avg_trend_strength == f.avg_trend_strength
        &&& r.data_quality_score == f.quality
        &&& r.trend_ratio == f.trend_ratio
        &&& r.ranging_ratio == f.ranging_ratio
        &&& r.summary@ == summary_text(m, f)
    }
}

fn find_state(counts: &Vec<(MarketState, usize)>, s: MarketState) -> (r: Option<usize>)
    ensures
        match r {
            Some(i) => state_index(counts_view(counts@), s) == Some(i as int) && i < counts@.len(),
            None => state_index(counts_view(counts@), s) is None,
        },
{
    let ghost cv = counts_view(counts@);
    let mut i: usize = 0;
    while i < counts.len()
        invariant
            cv == counts_view(counts@),
            i <= counts@.len(),
            forall|j: int| 0 <= j < i ==> cv[j].0 != s,
        decreases counts@.len() - i,
    {
        if counts[i].0 == s {
            proof {
                let w = i as int;
                assert(cv[w].0 == s);
                assert(0 <= w < cv.len() && cv[w].0 == s && forall|j: int| 0 <= j < w ==> cv[j].0 != s);
                let c = choose|c: int| 0 <= c < cv.len() && cv[c].0 == s && forall|j: int| 0 <= j < c ==> cv[j].0 != s;
                if c < w {
                    assert(cv[c].0 != s);
                }
                if w < c {
                    assert(cv[w].0 != s);
                }
            }
            return Some(i);
        }
        i = i + 1;
    }
    None
}

/// The counts with the counts as plain numbers.
pub open spec fn counts_view(v: Seq<(MarketState, usize)>) -> Seq<(MarketState, nat)> {
    v.map_values(|e: (MarketState, usize)| (e.0, e.1 as nat))
}

fn count_states(analyses: &Vec<MarketStateAnalysis>) -> (r: Vec<(MarketState, usize)>)
    ensures
        counts_view(r@) == state_counts(analyses@.map_values(|a: MarketStateAnalysis| a.state)),
{
    let ghost states = analyses@.map_values(|a: MarketStateAnalysis| a.state);
    let mut counts: Vec<(MarketState, usize)> = Vec::new();
    let mut k: usize = 0;
    while k < analyses.len()
        invariant
            states == analyses@.map_values(|a: MarketStateAnalysis| a.state),
            k <= analyses@.len(),
            counts_view(counts@) == state_counts(states.take(k as int)),
            forall|i: int| 0 <= i < counts@.len() ==> (#[trigger] counts@[i]).1 <= k,
        decreases analyses@.len() - k,
    {
        let s = analyses[k].state;
        proof {
            assert(states.take(k + 1int).drop_last() =~= states.take(k as int));
            assert(states.take(k + 1int).last() == s);
        }
        let ghost before = counts_view(counts@);
        match find_state(&counts, s) {
            Some(i) => {
                let c = counts[i].1;
                counts.set(i, (s, c + 1));
                proof {
                    assert(counts_view(counts@) =~= before.update(i as int, (s, before[i as int].1 + 1)));
                }
            },
            None => {
                counts.push((s, 1));
                proof {
                    assert(counts_view(counts@) =~= before.push((s, 1)));
                }
            },
        }
        k = k + 1;
    }
    proof {
        assert(states.take(states.len() as int) =~= states);
    }
    counts
}

proof fn lemma_segments_step(start: int, len: int, w: int, h: int)
    requires
        0 < h <= w,
        start + w <= len,
    ensures
        segments_from(start, len, w, h) == 1 + segments_from(start + h, len, w, h),
{
}

/// The empty report for too few bars.
fn empty_report(total_candles: usize) -> (r: MarketStateReport)
    ensures
        r.total_candles == total_candles,
        r.analysis_window == 0,
        r.state_distribution@.len() == 0,
        r.state_percentages@.len() == 0,
        r.avg_volatility == Dec::spec_zero(),
        r.avg_trend_strength == Dec::spec_zero(),
        r.data_quality_score == Dec::spec_zero(),
        r.trend_ratio == Dec::spec_zero(),
        r.ranging_ratio == Dec::spec_zero(),
        r.summary@ == "Insufficient data for market state analysis"@,
{
    MarketStateReport {
        total_candles,
        analysis_window: 0,
        state_distribution: Vec::new(),
        state_percentages: Vec::new(),
        avg_volatility: Dec::zero(),
        avg_trend_strength: Dec::zero(),
        data_quality_score: Dec::zero(),
        trend_ratio: Dec::zero(),
        ranging_ratio: Dec::zero(),
        summary: String::from_str("Insufficient data for market state analysis"),
    }
}

/// The analyses of the windows: `w` bars each, starting every `w / 2` bars, while they fit.
fn analyze_windows(klines: &[OHLCData], w: usize) -> (r: Option<Vec<MarketStateAnalysis>>)
    requires
        w >= 20,
        klines@.len() >= w,
        klines@.len() + w <= usize::MAX,
    ensures
        ({
            let m = segments_from(0, klines@.len() as int, w as int, (w / 2) as int);
            match r {
                Some(v) => {
                    &&& v@.len() == m
                    &&& forall|j: int| 0 <= j < m ==> (#[trigger] segment_spec(segment_at(klines@, j, w as int, (w / 2) as int))) is Some
                    &&& forall|j: int| 0 <= j < m ==> analysis_matches(#[trigger] v@[j], segment_spec(segment_at(klines@, j, w as int, (w / 2) as int))->0)
                },
                None => exists|j: int| 0 <= j < m && (#[trigger] segment_spec(segment_at(klines@, j, w as int, (w / 2) as int))) is None,
            }
        }),
{
    let h = w / 2;
    let ghost len = klines@.len() as int;
    let ghost m = segments_from(0, len, w as int, h as int);
    let mut analyses: Vec<MarketStateAnalysis> = Vec::new();
    let mut i: usize = w;
    proof {
        assert(analyses@.len() * h == 0) by (nonlinear_arith)
            requires
                analyses@.len() == 0,
        ;
    }
    while i <= klines.len()
        invariant
            h == w / 2,
            w >= 20,
            len == klines@.len(),
            len + w <= usize::MAX,
            m == segments_from(0, len, w as int, h as int),
            i == w + analyses@.len() * h,
            i <= len + h,
            analyses@.len() + segments_from(i - w, len, w as int, h as int) == m,
            forall|j: int| 0 <= j < analyses@.len() ==> (#[trigger] segment_spec(segment_at(klines@, j, w as int, h as int))) is Some,
            forall|j: int| 0 <= j < analyses@.len() ==> analysis_matches(#[trigger] analyses@[j], segment_spec(segment_at(klines@, j, w as int, h as int))->0),
        decreases len + h - i,
    {
        let ghost k = analyses@.len() as int;
        proof {
            lemma_segments_step(i - w, len, w as int, h as int);
            assert(klines@.subrange(i - w, i as int) == segment_at(klines@, k, w as int, h as int));
        }
        match try_analyze_segment(&klines[i - w..i]) {
            Some(a) => {
                analyses.push(a);
            },
            None => {
                proof {
                    assert(segment_spec(segment_at(klines@, k, w as int, h as int)) is None);
                }
                return None;
            },
        }
        proof {
            assert((k + 1) * h == k * h + h) by (nonlinear_arith);
        }
        i = i + h;
    }
    proof {
        assert(segments_from(i - w, len, w as int, h as int) == 0);
    }
    Some(analyses)
}

fn try_quality(trend_ratio: Dec, ranging_pct: Dec, n_states: usize) -> (r: Option<Dec>)
    ensures
        r == quality_spec(trend_ratio, ranging_pct, n_states as nat),
{
    let zero = Dec::zero();
    let s1 = if trend_ratio.ge(&Dec::from_int(20)) && trend_ratio.le(&Dec::from_int(80)) {
        zero.checked_add(Dec::from_int(40))
    } else if trend_ratio.ge(&Dec::from_int(10)) {
        zero.checked_add(Dec::from_int(20))
    } else {
        Some(zero)
    };
    let a = match s1 {
        Some(v) => v,
        None => return None,
    };
    let s2 = if ranging_pct.ge(&Dec::from_int(20)) {
        a.checked_add(Dec::from_int(30))
    } else if ranging_pct.ge(&Dec::from_int(10)) {
        a.checked_add(Dec::from_int(15))
    } else {
        Some(a)
    };
    let b = match s2 {
        Some(v) => v,
        None => return None,
    };
    let n: usize = if n_states < 4 {
        n_states
    } else {
        4
    };
    match Dec::from_usize(n).checked_mul(Dec::from_int(7)) {
        Some(x) => match x.checked_add(Dec::from_int(5)) {
            Some(y) => match b.checked_add(y) {
                Some(c) => Some(c.min(Dec::from_int(100))),
                None => None,
            },
            None => None,
        },
        None => None,
    }
}

proof fn lemma_dominant_step(ps: Seq<(MarketState, Dec)>, i: int)
    requires
        1 <= i < ps.len(),
    ensures
        dominant_index(ps.take(i + 1)) == if ps[i].1.value() >= ps[dominant_index(ps.take(i))].1.value() {
            i
        } else {
            dominant_index(ps.take(i))
        },
        0 <= dominant_index(ps.take(i)) < i,
    decreases i,
{
    assert(ps.take(i + 1).drop_last() =~= ps.take(i));
    if i > 1 {
        lemma_dominant_step(ps, i - 1);
    } else {
        assert(ps.take(1).len() == 1);
    }
}

fn compute_shares(counts: &Vec<(MarketState, usize)>, n: usize) -> (r: Option<Vec<Dec>>)
    ensures
        match r {
            Some(p) => p@.len() == counts@.len() && forall|t: int| 0 <= t < counts@.len() ==> (#[trigger] share_pct(counts_view(counts@)[t].1, n as nat)) == Some(p@[t]),
            None => !(forall|t: int| 0 <= t < counts@.len() ==> (#[trigger] share_pct(counts_view(counts@)[t].1, n as nat)) is Some),
        },
{
    let ghost cv = counts_view(counts@);
    let mut pcts: Vec<Dec> = Vec::new();
    let mut i: usize = 0;
    while i < counts.len()
        invariant
            cv == counts_view(counts@),
            i <= counts@.len(),
            pcts@.len() == i,
            forall|t: int| 0 <= t < i ==> (#[trigger] share_pct(cv[t].1, n as nat)) == Some(pcts@[t]),
        decreases counts@.len() - i,
    {
        match try_percent(Dec::from_usize(counts[i].1), Dec::from_usize(n)) {
            Some(p) => {
                pcts.push(p);
            },
            None => {
                proof {
                    assert(share_pct(cv[i as int].1, n as nat) is None);
                }
                return None;
            },
        }
        i = i + 1;
    }
    Some(pcts)
}

fn window_figures(analyses: &Vec<MarketStateAnalysis>, Ghost(figs): Ghost<Seq<SegmentFigures>>) -> (r: (Vec<Dec>, Vec<Dec>, usize))
    requires
        figs.len() == analyses@.len(),
        forall|t: int| 0 <= t < figs.len() ==> #[trigger] analysis_matches(analyses@[t], figs[t]),
    ensures
        r.0@ == figs.map_values(|f: SegmentFigures| f.volatility),
        r.1@ == figs.map_values(|f: SegmentFigures| abs_of(f.trend_strength)),
        r.2 == count_of(figs.map_values(|f: SegmentFigures| !(f.state == MarketState::Ranging || f.state == MarketState::HighVolatility))),
{
    let ghost flags = figs.map_values(|f: SegmentFigures| !(f.state == MarketState::Ranging || f.state == MarketState::HighVolatility));
    let mut vols: Vec<Dec> = Vec::new();
    let mut trends: Vec<Dec> = Vec::new();
    let mut trending: usize = 0;
    let mut j: usize = 0;
    while j < analyses.len()
        invariant
            figs.len() == analyses@.len(),
            flags == figs.map_values(|f: SegmentFigures| !(f.state == MarketState::Ranging || f.state == MarketState::HighVolatility)),
            forall|t: int| 0 <= t < figs.len() ==> #[trigger] analysis_matches(analyses@[t], figs[t]),
            j <= analyses@.len(),
            vols@ == figs.take(j as int).map_values(|f: SegmentFigures| f.volatility),
            trends@ == figs.take(j as int).map_values(|f: SegmentFigures| abs_of(f.trend_strength)),
            trending == count_of(flags.take(j as int)),
            trending <= j,
        decreases analyses@.len() - j,
    {
        let a = &analyses[j];
        proof {
            assert(analysis_matches(analyses@[j as int], figs[j as int]));
            lemma_count_of_step(flags, j as nat);
        }
        vols.push(a.volatility_percentile);
        trends.push(a.trend_strength.abs());
        if a.state.is_trending() {
            trending = trending + 1;
        }
        proof {
            assert(vols@ =~= figs.take(j + 1int).map_values(|f: SegmentFigures| f.volatility));
            assert(trends@ =~= figs.take(j + 1int).map_values(|f: SegmentFigures| abs_of(f.trend_strength)));
        }
        j = j + 1;
    }
    proof {
        assert(figs.take(figs.len() as int) =~= figs);
        assert(flags.take(flags.len() as int) =~= flags);
    }
    (vols, trends, trending)
}

fn named_entries(counts: &Vec<(MarketState, usize)>, pcts: &Vec<Dec>) -> (r: (Vec<(String, usize)>, Vec<(String, Dec)>, usize))
    requires
        pcts@.len() == counts@.len(),
    ensures
        r.0@.len() == counts@.len(),
        r.1@.len() == counts@.len(),
        forall|t: int| 0 <= t < counts@.len() ==> (#[trigger] r.0@[t]).0@ == state_name(counts@[t].0) && r.0@[t].1 == counts@[t].1,
        forall|t: int| 0 <= t < counts@.len() ==> (#[trigger] r.1@[t]).0@ == state_name(counts@[t].0) && r.1@[t].1 == pcts@[t],
        counts@.len() > 0 ==> r.2 < counts@.len() && r.2 == dominant_index(
            Seq::new(counts@.len(), |t: int| (counts@[t].0, pcts@[t])),
        ),
{
    let ghost ps = Seq::new(counts@.len(), |t: int| (counts@[t].0, pcts@[t]));
    let mut distribution: Vec<(String, usize)> = Vec::new();
    let mut shares: Vec<(String, Dec)> = Vec::new();
    let mut d: usize = 0;
    let mut k: usize = 0;
    while k < counts.len()
        invariant
            pcts@.len() == counts@.len(),
            ps == Seq::new(counts@.len(), |t: int| (counts@[t].0, pcts@[t])),
            k <= counts@.len(),
            distribution@.len() == k,
            shares@.len() == k,
            forall|t: int| 0 <= t < k ==> (#[trigger] distribution@[t]).0@ == state_name(counts@[t].0) && distribution@[t].1 == counts@[t].1,
            forall|t: int| 0 <= t < k ==> (#[trigger] shares@[t]).0@ == state_name(counts@[t].0) && shares@[t].1 == pcts@[t],
            k > 0 ==> d < k && d == dominant_index(ps.take(k as int)),
        decreases counts@.len() - k,
    {
        let s = counts[k].0;
        distribution.push((String::from_str(s.as_str()), counts[k].1));
        shares.push((String::from_str(s.as_str()), pcts[k]));
        if k == 0 {
            d = 0;
        } else {
            proof {
                lemma_dominant_step(ps, k as int);
            }
            if pcts[k].ge(&pcts[d]) {
                d = k;
            }
        }
        k = k + 1;
    }
    proof {
        assert(ps.take(ps.len() as int) =~= ps);
    }
    (distribution, shares, d)
}

fn summary_line(n: usize, dominant: Option<(MarketState, Dec)>, avg_vol: Dec, avg_trend: Dec, quality: Dec) -> (r: String)
    ensures
        r@ == "Analyzed "@ + digits_text(n as nat) + " segments. Dominant: "@ + match dominant {
            None => "unknown"@,
            Some((s, p)) => state_name(s) + " ("@ + decimal_display_fixed(p, 1) + "%)"@,
        } + ". Avg volatility: "@ + decimal_display_fixed(avg_vol, 2) + "%, Avg trend strength: "@
            + decimal_display_fixed(avg_trend, 2) + ". Data quality: "@ + decimal_display_fixed(quality, 0)
            + "/100"@,
{
    let mut summary = String::from_str("Analyzed ");
    summary = concat(summary, usize_to_string(n).as_str());
    summary = concat(summary, " segments. Dominant: ");
    match dominant {
        None => {
            summary = concat(summary, "unknown");
        },
        Some((s, p)) => {
            summary = concat(summary, s.as_str());
            summary = concat(summary, " (");
            summary = concat(summary, p.to_string_fixed(1).as_str());
            summary = concat(summary, "%)");
        },
    }
    summary = concat(summary, ". Avg volatility: ");
    summary = concat(summary, avg_vol.to_string_fixed(2).as_str());
    summary = concat(summary, "%, Avg trend strength: ");
    summary = concat(summary, avg_trend.to_string_fixed(2).as_str());
    summary = concat(summary, ". Data quality: ");
    summary = concat(summary, quality.to_string_fixed(0).as_str());
    summary = concat(summary, "/100");
    summary
}

/// The market state analysis of bar history.
pub struct MarketStateAnalyzer;

impl MarketStateAnalyzer {
    /// Analyses the market state of the bars, or `None` where `Decimal` would panic: windows of
    /// `window` bars (at least 20), overlapping by half; the states counted, the volatility and
    /// trend strength averaged, and a data quality score.
    #[verifier::rlimit(40)]
    pub fn try_analyze(klines: &[OHLCData], window: usize) -> (r: Option<MarketStateReport>)
        requires
            klines@.len() + window + 20 <= usize::MAX,
        ensures
            r is Some <==> analysis_ok(klines@, window as nat),
            r is Some ==> report_is(r->0, klines@, window as nat),
            r matches Some(rep) ==> (klines@.len() >= effective_window(window as nat) && subtracts_exactly(
                count_dec(100),
                rep.trend_ratio,
            ) ==> rep.trend_ratio.value() + rep.ranging_ratio.value() == count_dec(100).value()),
    {
        let w: usize = if window > 20 {
            window
        } else {
            20
        };
        if klines.len() < w {
            return Some(empty_report(klines.len()));
        }
        let ghost h = (w / 2) as int;
        let ghost m = segments_from(0, klines@.len() as int, w as int, h);
        let ghost figs = Seq::new(m, |j: int| segment_spec(segment_at(klines@, j, w as int, h))->0);
        let analyses = match analyze_windows(klines, w) {
            Some(v) => v,
            None => return None,
        };
        let n = analyses.len();
        proof {
            assert forall|j: int| 0 <= j < m implies #[trigger] analysis_matches(analyses@[j], figs[j]) by {
                assert(segment_spec(segment_at(klines@, j, w as int, h)) is Some);
            }
            assert(analyses@.map_values(|a: MarketStateAnalysis| a.state) =~= figs.map_values(|f: SegmentFigures| f.state));
        }
        let counts = count_states(&analyses);
        let ghost cv = counts_view(counts@);
        let pcts = match compute_shares(&counts, n) {
            Some(p) => p,
            None => return None,
        };
        let ghost percentages = cv.map_values(|e: (MarketState, nat)| (e.0, share_pct(e.1, m)->0));
        proof {
            assert forall|t: int| 0 <= t < cv.len() implies (#[trigger] share_pct(cv[t].1, m)) is Some by {
                assert(share_pct(cv[t].1, m) == Some(pcts@[t]));
            }
        }
        let ranging_pct = match find_state(&counts, MarketState::Ranging) {
            Some(k) => pcts[k],
            None => Dec::zero(),
        };
        proof {
            match state_index(cv, MarketState::Ranging) {
                Some(k) => {
                    assert(share_pct(cv[k].1, m) == Some(pcts@[k]));
                },
                None => {},
            }
        }
        let (vols, trends, trending) = window_figures(&analyses, Ghost(figs));
        let vol_sum = Dec::try_sum_slice(vols.as_slice());
        let trend_sum = Dec::try_sum_slice(trends.as_slice());
        let trend_ratio = try_percent(Dec::from_usize(trending), Dec::from_usize(n));
        let (vol_sum, trend_sum, trend_ratio) = match (vol_sum, trend_sum, trend_ratio) {
            (Some(a), Some(b), Some(c)) => (a, b, c),
            _ => return None,
        };
        let avg_vol = vol_sum.checked_div(Dec::from_usize(n));
        let avg_trend = trend_sum.checked_div(Dec::from_usize(n));
        let hundred = Dec::from_int(100);
        let ranging_ratio = hundred.checked_sub(trend_ratio);
        proof {
            assert(hundred == count_dec(100));
        }
        let (avg_vol, avg_trend, ranging_ratio) = match (avg_vol, avg_trend, ranging_ratio) {
            (Some(a), Some(b), Some(c)) => (a, b, c),
            _ => return None,
        };
                let quality = match try_quality(trend_ratio, ranging_pct, counts.len()) {
            Some(q) => q,
            None => return None,
        };
        let ghost f = ReportFigures {
            counts: cv,
            percentages,
            avg_volatility: avg_vol,
            avg_trend_strength: avg_trend,
            trend_ratio,
            ranging_ratio,
            quality,
        };
        proof {
            assert(report_figures(figs) == Some(f));
        }
        let (distribution, shares, d) = named_entries(&counts, &pcts);
        proof {
            assert(Seq::new(counts@.len(), |t: int| (counts@[t].0, pcts@[t])) =~= percentages) by {
                assert forall|t: int| 0 <= t < cv.len() implies (#[trigger] percentages[t]) == (counts@[t].0, pcts@[t]) by {
                    assert(share_pct(cv[t].1, m) == Some(pcts@[t]));
                }
            }
        }
        let dominant = if counts.len() == 0 {
            None
        } else {
            Some((counts[d].0, pcts[d]))
        };
        let summary = summary_line(n, dominant, avg_vol, avg_trend, quality);
        Some(MarketStateReport {
            total_candles: klines.len(),
            analysis_window: w,
            state_distribution: distribution,
            state_percentages: shares,
            avg_volatility: avg_vol,
            avg_trend_strength: avg_trend,
            data_quality_score: quality,
            trend_ratio,
            ranging_ratio,
            summary,
        })
    }

    /// Analyses the market state of the bars: windows of `window` bars (at least 20), overlapping
    /// by half; the states counted, the volatility and trend strength averaged, and a data
    /// quality score. An empty report for too few bars.
    pub fn analyze(klines: &[OHLCData], window: usize) -> (r: MarketStateReport)
        requires
            klines@.len() + window + 20 <= usize::MAX,
            analysis_ok(klines@, window as nat),
        ensures
            report_is(r, klines@, window as nat),
            klines@.len() >= effective_window(window as nat) && subtracts_exactly(count_dec(100), r.trend_ratio)
                ==> r.trend_ratio.value() + r.ranging_ratio.value() == count_dec(100).value(),
    {
        match Self::try_analyze(klines, window) {
            Some(v) => v,
            None => vstd::pervasive::unreached(),
        }
    }
}

} // verus!
