//! Multi-timeframe trend strategy: the 4h EMAs give the trend, the 1h MACD confirms it and the
//! 15m RSI times the entry.
use crate::decimal::{
    abs_of, can_add, can_div, can_mul, can_sub, decimal_checked_add, decimal_checked_mul,
    decimal_display_fixed, decimal_from_text, difference, max_of, min_of, product, quotient, sum,
    Dec,
};
use crate::indicators::{
    count_dec, ema_spec, macd_ok, macd_spec, rsi_ok, rsi_spec, try_calculate_ema,
    try_calculate_macd, try_calculate_rsi, EntryDirection, MultiTimeframeAnalysis, TrendAnalysis,
    TrendDirection,
};
use crate::strategy::{get_param, klines_view, param_value, MultiTimeframeStrategy};
use crate::text::{concat, digits_text, parse_usize, usize_from_text, usize_to_string};
use crate::types::{OHLCData, Timeframe};
use vstd::prelude::*;
use vstd::string::StringExecFns;

verus! {

/// The closing prices of the bars.
pub open spec fn closes(klines: Seq<OHLCData>) -> Seq<Dec> {
    klines.map_values(|k: OHLCData| k.close)
}

fn close_prices(klines: &[OHLCData]) -> (r: Vec<Dec>)
    ensures
        r@ == closes(klines@),
{
    let mut out: Vec<Dec> = Vec::new();
    let mut i: usize = 0;
    while i < klines.len()
        invariant
            i <= klines@.len(),
            out@ == closes(klines@.take(i as int)),
        decreases klines@.len() - i,
    {
        proof {
            assert(closes(klines@.take(i + 1)) =~= closes(klines@.take(i as int)).push(klines@[i as int].close));
        }
        out.push(klines[i].close);
        i = i + 1;
    }
    proof {
        assert(klines@.take(klines@.len() as int) =~= klines@);
    }
    out
}

/// `a / b` for two counts, as `Decimal::from(a) / Decimal::from(b)` gives it.
pub open spec fn ratio(a: int, b: int) -> Dec {
    quotient(count_dec(a), count_dec(b))
}

fn ratio_exec(a: i64, b: i64) -> (r: Dec)
    requires
        0 <= a <= b,
        0 < b,
    ensures
        r == ratio(a as int, b as int),
        can_div(count_dec(a as int), count_dec(b as int)),
{
    let x = Dec::from_int(a);
    let y = Dec::from_int(b);
    proof {
        crate::decimal::lemma_pow10_pos(28);
        vstd::arithmetic::mul::lemma_mul_inequality(a as int, b as int, crate::decimal::pow10(28));
        vstd::arithmetic::mul::lemma_mul_nonnegative(a as int, crate::decimal::pow10(28));
        assert(x.value() == a * crate::decimal::pow10(28));
        assert(y.value() == b * crate::decimal::pow10(28));
    }
    match x.checked_div(y) {
        Some(q) => q,
        None => x,
    }
}

/// The analysis an outcome stands for: direction, confidence and description text.
pub struct AnalysisSpec {
    pub direction: TrendDirection,
    pub confidence: Dec,
    pub description: Seq<char>,
}

/// Whether the analysis is the one the specification describes.
pub open spec fn analysis_is(a: TrendAnalysis, s: AnalysisSpec) -> bool {
    a.direction == s.direction && a.confidence == s.confidence && a.description@ == s.description
}

/// The multi-timeframe trend strategy.
pub struct TrendStrategy {
    pub ema_fast_period: usize,
    pub ema_slow_period: usize,
    pub macd_fast_period: usize,
    pub macd_slow_period: usize,
    pub macd_signal_period: usize,
    pub rsi_period: usize,
    pub rsi_oversold: Dec,
    pub rsi_overbought: Dec,
    pub min_confidence: Dec,
    pub last_analysis: Option<MultiTimeframeAnalysis>,
    pub is_long_position: bool,
}

impl TrendStrategy {
    // ----- 4h: EMA trend -----

    /// The EMAs of the 4h closes can be computed and compared.
    pub open spec fn analyze_4h_ok(self, klines: Seq<OHLCData>) -> bool {
        klines.len() >= self.ema_slow_period ==> {
            let prices = closes(klines);
            let fast = ema_spec(prices, self.ema_fast_period as nat)->0.last();
            let slow = ema_spec(prices, self.ema_slow_period as nat)->0.last();
            let gap = product(quotient(difference(fast, slow), slow), count_dec(100));
            &&& klines.len() > 0
            &&& self.ema_fast_period > 0
            &&& self.ema_slow_period > 0
            &&& self.ema_fast_period < usize::MAX
            &&& self.ema_slow_period < usize::MAX
            &&& ema_spec(prices, self.ema_fast_period as nat) is Some
            &&& ema_spec(prices, self.ema_slow_period as nat) is Some
            &&& can_sub(fast, slow)
            &&& can_div(difference(fast, slow), slow)
            &&& can_mul(quotient(difference(fast, slow), slow), count_dec(100))
            &&& fast.value() != slow.value() ==> can_div(abs_of(gap), count_dec(5))
            &&& fast.value() == slow.value() ==> can_div(count_dec(50), count_dec(100))
        }
    }

    /// The 4h analysis: bullish when the fast EMA is above the slow one, bearish when below,
    /// with confidence `min(|gap %| / 5, 1)`; neutral (0.5) when equal; neutral (0) with too few
    /// bars.
    pub open spec fn analyze_4h_spec(self, klines: Seq<OHLCData>) -> AnalysisSpec {
        if klines.len() < self.ema_slow_period {
            AnalysisSpec {
                direction: TrendDirection::Neutral,
                confidence: Dec::spec_zero(),
                description: "Insufficient 4h data"@,
            }
        } else {
            let prices = closes(klines);
            let fast = ema_spec(prices, self.ema_fast_period as nat)->0.last();
            let slow = ema_spec(prices, self.ema_slow_period as nat)->0.last();
            let gap = abs_of(product(quotient(difference(fast, slow), slow), count_dec(100)));
            let confidence = min_of(quotient(gap, count_dec(5)), count_dec(1));
            if fast.value() > slow.value() {
                AnalysisSpec {
                    direction: TrendDirection::Bullish,
                    confidence,
                    description: "4h EMA"@ + digits_text(self.ema_fast_period as nat) + " > EMA"@
                        + digits_text(self.ema_slow_period as nat) + " by "@
                        + decimal_display_fixed(gap, 2) + "%"@,
                }
            } else if fast.value() < slow.value() {
                AnalysisSpec {
                    direction: TrendDirection::Bearish,
                    confidence,
                    description: "4h EMA"@ + digits_text(self.ema_fast_period as nat) + " < EMA"@
                        + digits_text(self.ema_slow_period as nat) + " by "@
                        + decimal_display_fixed(gap, 2) + "%"@,
                }
            } else {
                AnalysisSpec {
                    direction: TrendDirection::Neutral,
                    confidence: ratio(50, 100),
                    description: "4h EMA crossover neutral"@,
                }
            }
        }
    }

    fn ema_text(&self, relation: &str, gap: Dec) -> (r: String)
        ensures
            r@ == "4h EMA"@ + digits_text(self.ema_fast_period as nat) + relation@ + digits_text(
                self.ema_slow_period as nat,
            ) + " by "@ + decimal_display_fixed(gap, 2) + "%"@,
    {
        let mut s = String::from_str("4h EMA");
        let a = usize_to_string(self.ema_fast_period);
        s = concat(s, a.as_str());
        s = concat(s, relation);
        let b = usize_to_string(self.ema_slow_period);
        s = concat(s, b.as_str());
        s = concat(s, " by ");
        let g = gap.to_string_fixed(2);
        s = concat(s, g.as_str());
        s = concat(s, "%");
        s
    }

    /// Analyses the 4h bars, or `None` where `Decimal` would panic.
    pub fn try_analyze_4h(&self, klines: &[OHLCData]) -> (r: Option<TrendAnalysis>)
        ensures
            r is Some <==> self.analyze_4h_ok(klines@),
            r is Some ==> analysis_is(r->0, self.analyze_4h_spec(klines@)),
    {
        if klines.len() < self.ema_slow_period {
            return Some(TrendAnalysis::neutral(Dec::zero(), "Insufficient 4h data"));
        }
        if klines.len() == 0 || self.ema_fast_period == 0 || self.ema_slow_period == 0
            || self.ema_fast_period == usize::MAX || self.ema_slow_period == usize::MAX {
            return None;
        }
        let prices = close_prices(klines);
        let ema_fast = match try_calculate_ema(prices.as_slice(), self.ema_fast_period) {
            Some(v) => v,
            None => return None,
        };
        let ema_slow = match try_calculate_ema(prices.as_slice(), self.ema_slow_period) {
            Some(v) => v,
            None => return None,
        };
        let fast = ema_fast[ema_fast.len() - 1];
        let slow = ema_slow[ema_slow.len() - 1];
        let diff = match fast.checked_sub(slow) {
            Some(v) => v,
            None => return None,
        };
        let rel = match diff.checked_div(slow) {
            Some(v) => v,
            None => return None,
        };
        let pct = match rel.checked_mul(Dec::from_int(100)) {
            Some(v) => v,
            None => return None,
        };
        let gap = pct.abs();
        if fast.gt(&slow) {
            let c = match gap.checked_div(Dec::from_int(5)) {
                Some(v) => v,
                None => return None,
            };
            let text = self.ema_text(" > EMA", gap);
            Some(TrendAnalysis::new(TrendDirection::Bullish, c.min(Dec::from_int(1)), text))
        } else if fast.lt(&slow) {
            let c = match gap.checked_div(Dec::from_int(5)) {
                Some(v) => v,
                None => return None,
            };
            let text = self.ema_text(" < EMA", gap);
            Some(TrendAnalysis::new(TrendDirection::Bearish, c.min(Dec::from_int(1)), text))
        } else {
            Some(TrendAnalysis::neutral(ratio_exec(50, 100), "4h EMA crossover neutral"))
        }
    }

    /// Analyses the 4h bars (the overall trend).
    pub fn analyze_4h(&self, klines: &[OHLCData]) -> (r: TrendAnalysis)
        requires
            self.analyze_4h_ok(klines@),
        ensures
            analysis_is(r, self.analyze_4h_spec(klines@)),
    {
        match self.try_analyze_4h(klines) {
            Some(a) => a,
            None => vstd::pervasive::unreached(),
        }
    }
}

/// Whether the strategy has the default parameters (EMA 20/50, MACD 12/26/9, RSI 14 with
/// 30/70, 60% minimum confidence) and no state yet.
pub open spec fn is_default_trend(r: TrendStrategy) -> bool {
    &&& r.ema_fast_period == 20
    &&& r.ema_slow_period == 50
    &&& r.macd_fast_period == 12
    &&& r.macd_slow_period == 26
    &&& r.macd_signal_period == 9
    &&& r.rsi_period == 14
    &&& r.rsi_oversold == count_dec(30)
    &&& r.rsi_overbought == count_dec(70)
    &&& r.min_confidence == ratio(60, 100)
    &&& r.last_analysis is None
    &&& !r.is_long_position
}

impl TrendStrategy {
    /// The default parameters: EMA 20/50, MACD 12/26/9, RSI 14 with 30/70, and 60% minimum
    /// confidence.
    pub fn new() -> (r: TrendStrategy)
        ensures
            is_default_trend(r),
    {
        TrendStrategy {
            ema_fast_period: 20,
            ema_slow_period: 50,
            macd_fast_period: 12,
            macd_slow_period: 26,
            macd_signal_period: 9,
            rsi_period: 14,
            rsi_oversold: Dec::from_int(30),
            rsi_overbought: Dec::from_int(70),
            min_confidence: ratio_exec(60, 100),
            last_analysis: None,
            is_long_position: false,
        }
    }
}

impl TrendStrategy {
    // ----- 1h: MACD confirmation -----

    /// The MACD of the 1h closes can be computed and read.
    pub open spec fn analyze_1h_ok(self, klines: Seq<OHLCData>) -> bool {
        &&& self.macd_slow_period + self.macd_signal_period <= usize::MAX
        &&& klines.len() >= self.macd_slow_period + self.macd_signal_period ==> {
            let prices = closes(klines);
            let m = macd_spec(prices, self.macd_fast_period as nat, self.macd_slow_period as nat, self.macd_signal_period as nat);
            &&& self.macd_fast_period < usize::MAX
            &&& self.macd_slow_period < usize::MAX
            &&& self.macd_signal_period < usize::MAX
            &&& macd_ok(prices, self.macd_fast_period as nat, self.macd_slow_period as nat, self.macd_signal_period as nat)
            &&& m.0.len() > 0
            &&& m.1.len() > 0
            &&& m.2.len() > 0
        }
    }

    /// The 1h analysis: a MACD golden cross (MACD above signal, histogram turning positive) is
    /// bullish at 0.8, a death cross bearish at 0.8, a positive histogram bullish at 0.6, a
    /// negative one bearish at 0.6, else neutral at 0.5; neutral (0) with too few bars.
    pub open spec fn analyze_1h_spec(self, klines: Seq<OHLCData>) -> AnalysisSpec {
        if klines.len() < self.macd_slow_period + self.macd_signal_period {
            AnalysisSpec {
                direction: TrendDirection::Neutral,
                confidence: Dec::spec_zero(),
                description: "Insufficient 1h data"@,
            }
        } else {
            let m = macd_spec(closes(klines), self.macd_fast_period as nat, self.macd_slow_period as nat, self.macd_signal_period as nat);
            let macd = m.0.last();
            let signal = m.1.last();
            let hist = m.2.last();
            let prev = if m.2.len() > 1 {
                m.2[m.2.len() - 2]
            } else {
                Dec::spec_zero()
            };
            if macd.value() > signal.value() && hist.value() > 0 && prev.value() <= 0 {
                AnalysisSpec {
                    direction: TrendDirection::Bullish,
                    confidence: ratio(80, 100),
                    description: "1h MACD golden cross"@,
                }
            } else if macd.value() < signal.value() && hist.value() < 0 && prev.value() >= 0 {
                AnalysisSpec {
                    direction: TrendDirection::Bearish,
                    confidence: ratio(80, 100),
                    description: "1h MACD death cross"@,
                }
            } else if hist.value() > 0 {
                AnalysisSpec {
                    direction: TrendDirection::Bullish,
                    confidence: ratio(60, 100),
                    description: "1h MACD histogram positive"@,
                }
            } else if hist.value() < 0 {
                AnalysisSpec {
                    direction: TrendDirection::Bearish,
                    confidence: ratio(60, 100),
                    description: "1h MACD histogram negative"@,
                }
            } else {
                AnalysisSpec {
                    direction: TrendDirection::Neutral,
                    confidence: ratio(50, 100),
                    description: "1h MACD neutral"@,
                }
            }
        }
    }

    /// Analyses the 1h bars, or `None` where `Decimal` would panic.
    pub fn try_analyze_1h(&self, klines: &[OHLCData]) -> (r: Option<TrendAnalysis>)
        ensures
            r is Some <==> self.analyze_1h_ok(klines@),
            r is Some ==> analysis_is(r->0, self.analyze_1h_spec(klines@)),
    {
        if self.macd_slow_period > usize::MAX - self.macd_signal_period {
            return None;
        }
        if klines.len() < self.macd_slow_period + self.macd_signal_period {
            return Some(TrendAnalysis::neutral(Dec::zero(), "Insufficient 1h data"));
        }
        if self.macd_fast_period == usize::MAX || self.macd_slow_period == usize::MAX
            || self.macd_signal_period == usize::MAX {
            return None;
        }
        let prices = close_prices(klines);
        let (macd_line, signal_line, histogram) = match try_calculate_macd(
            prices.as_slice(),
            self.macd_fast_period,
            self.macd_slow_period,
            self.macd_signal_period,
        ) {
            Some(t) => t,
            None => return None,
        };
        if macd_line.len() == 0 || signal_line.len() == 0 || histogram.len() == 0 {
            return None;
        }
        let macd = macd_line[macd_line.len() - 1];
        let signal = signal_line[signal_line.len() - 1];
        let hist = histogram[histogram.len() - 1];
        let prev_hist = if histogram.len() > 1 {
            histogram[histogram.len() - 2]
        } else {
            Dec::zero()
        };
        let zero = Dec::zero();
        if macd.gt(&signal) && hist.gt(&zero) && prev_hist.le(&zero) {
            Some(TrendAnalysis::bullish(ratio_exec(80, 100), "1h MACD golden cross"))
        } else if macd.lt(&signal) && hist.lt(&zero) && prev_hist.ge(&zero) {
            Some(TrendAnalysis::bearish(ratio_exec(80, 100), "1h MACD death cross"))
        } else if hist.gt(&zero) {
            Some(TrendAnalysis::bullish(ratio_exec(60, 100), "1h MACD histogram positive"))
        } else if hist.lt(&zero) {
            Some(TrendAnalysis::bearish(ratio_exec(60, 100), "1h MACD histogram negative"))
        } else {
            Some(TrendAnalysis::neutral(ratio_exec(50, 100), "1h MACD neutral"))
        }
    }

    /// Analyses the 1h bars (trend confirmation).
    pub fn analyze_1h(&self, klines: &[OHLCData]) -> (r: TrendAnalysis)
        requires
            self.analyze_1h_ok(klines@),
        ensures
            analysis_is(r, self.analyze_1h_spec(klines@)),
    {
        match self.try_analyze_1h(klines) {
            Some(a) => a,
            None => vstd::pervasive::unreached(),
        }
    }

    // ----- 15m: RSI entry timing -----

    /// The last RSI of the 15m closes, 50 when there is none.
    pub open spec fn rsi_15m(self, klines: Seq<OHLCData>) -> Dec {
        let values = rsi_spec(closes(klines), self.rsi_period as nat);
        match values.last() {
            Some(v) => v,
            None => count_dec(50),
        }
    }

    /// The RSI and the confidence arithmetic of the 15m analysis are defined.
    pub open spec fn analyze_15m_ok(self, klines: Seq<OHLCData>) -> bool {
        &&& self.rsi_period < usize::MAX
        &&& klines.len() >= self.rsi_period + 1 ==> {
            let rsi = self.rsi_15m(klines);
            let os = self.rsi_oversold;
            let ob = self.rsi_overbought;
            &&& rsi_ok(closes(klines), self.rsi_period as nat)
            &&& rsi.value() < os.value() ==> can_sub(os, rsi) && can_div(difference(os, rsi), os)
            &&& rsi.value() >= os.value() && rsi.value() > ob.value() ==> can_sub(rsi, ob) && can_sub(count_dec(100), ob)
                && can_div(difference(rsi, ob), difference(count_dec(100), ob))
            &&& rsi.value() >= os.value() && rsi.value() <= ob.value() ==> {
                let mid = quotient(sum(os, ob), count_dec(2));
                let max_distance = quotient(difference(ob, os), count_dec(2));
                &&& can_add(os, ob)
                &&& can_div(sum(os, ob), count_dec(2))
                &&& can_sub(rsi, mid)
                &&& can_sub(ob, os)
                &&& can_div(difference(ob, os), count_dec(2))
                &&& can_div(abs_of(difference(rsi, mid)), max_distance)
                &&& can_sub(count_dec(1), quotient(abs_of(difference(rsi, mid)), max_distance))
            }
        }
    }

    /// The 15m analysis: bullish below the oversold level (confidence grows with the distance),
    /// bearish above the overbought level, neutral in between (confidence highest in the middle).
    pub open spec fn analyze_15m_spec(self, klines: Seq<OHLCData>) -> AnalysisSpec {
        if klines.len() < self.rsi_period + 1 {
            AnalysisSpec {
                direction: TrendDirection::Neutral,
                confidence: Dec::spec_zero(),
                description: "Insufficient 15m data"@,
            }
        } else {
            let rsi = self.rsi_15m(klines);
            let os = self.rsi_oversold;
            let ob = self.rsi_overbought;
            if rsi.value() < os.value() {
                AnalysisSpec {
                    direction: TrendDirection::Bullish,
                    confidence: min_of(quotient(difference(os, rsi), os), count_dec(1)),
                    description: "15m RSI oversold at "@ + decimal_display_fixed(rsi, 2),
                }
            } else if rsi.value() > ob.value() {
                AnalysisSpec {
                    direction: TrendDirection::Bearish,
                    confidence: min_of(
                        quotient(difference(rsi, ob), difference(count_dec(100), ob)),
                        count_dec(1),
                    ),
                    description: "15m RSI overbought at "@ + decimal_display_fixed(rsi, 2),
                }
            } else {
                let mid = quotient(sum(os, ob), count_dec(2));
                let distance = abs_of(difference(rsi, mid));
                let max_distance = quotient(difference(ob, os), count_dec(2));
                AnalysisSpec {
                    direction: TrendDirection::Neutral,
                    confidence: difference(count_dec(1), quotient(distance, max_distance)),
                    description: "15m RSI neutral at "@ + decimal_display_fixed(rsi, 2),
                }
            }
        }
    }

    /// Analyses the 15m bars, or `None` where `Decimal` would panic.
    pub fn try_analyze_15m(&self, klines: &[OHLCData]) -> (r: Option<TrendAnalysis>)
        ensures
            r is Some <==> self.analyze_15m_ok(klines@),
            r is Some ==> analysis_is(r->0, self.analyze_15m_spec(klines@)),
    {
        if self.rsi_period == usize::MAX {
            return None;
        }
        if klines.len() < self.rsi_period + 1 {
            return Some(TrendAnalysis::neutral(Dec::zero(), "Insufficient 15m data"));
        }
        let prices = close_prices(klines);
        let rsi_values = match try_calculate_rsi(prices.as_slice(), self.rsi_period) {
            Some(v) => v,
            None => return None,
        };
        let rsi = match rsi_values[rsi_values.len() - 1] {
            Some(v) => v,
            None => Dec::from_int(50),
        };
        let os = self.rsi_oversold;
        let ob = self.rsi_overbought;
        if rsi.lt(&os) {
            let d = match os.checked_sub(rsi) {
                Some(v) => v,
                None => return None,
            };
            let q = match d.checked_div(os) {
                Some(v) => v,
                None => return None,
            };
            let text = concat(String::from_str("15m RSI oversold at "), rsi.to_string_fixed(2).as_str());
            Some(TrendAnalysis::new(TrendDirection::Bullish, q.min(Dec::from_int(1)), text))
        } else if rsi.gt(&ob) {
            let d = match rsi.checked_sub(ob) {
                Some(v) => v,
                None => return None,
            };
            let room = match Dec::from_int(100).checked_sub(ob) {
                Some(v) => v,
                None => return None,
            };
            let q = match d.checked_div(room) {
                Some(v) => v,
                None => return None,
            };
            let text = concat(String::from_str("15m RSI overbought at "), rsi.to_string_fixed(2).as_str());
            Some(TrendAnalysis::new(TrendDirection::Bearish, q.min(Dec::from_int(1)), text))
        } else {
            let total = match os.checked_add(ob) {
                Some(v) => v,
                None => return None,
            };
            let mid = match total.checked_div(Dec::from_int(2)) {
                Some(v) => v,
                None => return None,
            };
            let off = match rsi.checked_sub(mid) {
                Some(v) => v,
                None => return None,
            };
            let distance = off.abs();
            let width = match ob.checked_sub(os) {
                Some(v) => v,
                None => return None,
            };
            let max_distance = match width.checked_div(Dec::from_int(2)) {
                Some(v) => v,
                None => return None,
            };
            let part = match distance.checked_div(max_distance) {
                Some(v) => v,
                None => return None,
            };
            let confidence = match Dec::from_int(1).checked_sub(part) {
                Some(v) => v,
                None => return None,
            };
            let text = concat(String::from_str("15m RSI neutral at "), rsi.to_string_fixed(2).as_str());
            Some(TrendAnalysis::new(TrendDirection::Neutral, confidence, text))
        }
    }

    /// Analyses the 15m bars (entry timing).
    pub fn analyze_15m(&self, klines: &[OHLCData]) -> (r: TrendAnalysis)
        requires
            self.analyze_15m_ok(klines@),
        ensures
            analysis_is(r, self.analyze_15m_spec(klines@)),
    {
        match self.try_analyze_15m(klines) {
            Some(a) => a,
            None => vstd::pervasive::unreached(),
        }
    }
}

// ----- combining the timeframes -----

/// The score an analysis gives a direction: its confidence when it points that way, else zero.
pub open spec fn direction_score(a: AnalysisSpec, d: TrendDirection) -> Dec {
    if a.direction == d {
        a.confidence
    } else {
        Dec::spec_zero()
    }
}

/// The weighted score of a direction: half of the 4h score, 30% of the 1h score and 20% of the
/// 15m score; `None` where the arithmetic overflows.
pub open spec fn weighted_score(a4: AnalysisSpec, a1: AnalysisSpec, a15: AnalysisSpec, d: TrendDirection) -> Option<Dec> {
    match (
        decimal_checked_mul(direction_score(a4, d), ratio(50, 100)),
        decimal_checked_mul(direction_score(a1, d), ratio(30, 100)),
    ) {
        (Some(x), Some(y)) => match decimal_checked_add(x, y) {
            Some(xy) => match decimal_checked_mul(direction_score(a15, d), ratio(20, 100)) {
                Some(z) => decimal_checked_add(xy, z),
                None => None,
            },
            None => None,
        },
        _ => None,
    }
}

/// The overall direction: the side whose score is higher and above the minimum confidence.
pub open spec fn overall_direction_of(bull: Dec, bear: Dec, min_confidence: Dec) -> TrendDirection {
    if bull.value() > bear.value() && bull.value() > min_confidence.value() {
        TrendDirection::Bullish
    } else if bear.value() > bull.value() && bear.value() > min_confidence.value() {
        TrendDirection::Bearish
    } else {
        TrendDirection::Neutral
    }
}

/// The entry the overall direction calls for, when entries are allowed.
pub open spec fn entry_of(allowed: bool, direction: TrendDirection) -> Option<EntryDirection> {
    if allowed {
        match direction {
            TrendDirection::Bullish => Some(EntryDirection::Long),
            TrendDirection::Bearish => Some(EntryDirection::Short),
            TrendDirection::Neutral => None,
        }
    } else {
        None
    }
}

/// The analyses of the three timeframes can be combined.
pub open spec fn combine_ok(a4: AnalysisSpec, a1: AnalysisSpec, a15: AnalysisSpec) -> bool {
    &&& weighted_score(a4, a1, a15, TrendDirection::Bullish) is Some
    &&& weighted_score(a4, a1, a15, TrendDirection::Bearish) is Some
}

/// The analysis of a timeframe, as the specifications describe it.
pub open spec fn spec_of(a: TrendAnalysis) -> AnalysisSpec {
    AnalysisSpec { direction: a.direction, confidence: a.confidence, description: a.description@ }
}

/// Whether `r` is the combination of the three analyses: each kept under its timeframe, the
/// overall confidence the higher of the two weighted scores, entries allowed from the minimum
/// confidence on.
pub open spec fn combined_is(
    r: MultiTimeframeAnalysis,
    a4: AnalysisSpec,
    a1: AnalysisSpec,
    a15: AnalysisSpec,
    min_confidence: Dec,
) -> bool {
    let bull = weighted_score(a4, a1, a15, TrendDirection::Bullish)->0;
    let bear = weighted_score(a4, a1, a15, TrendDirection::Bearish)->0;
    let direction = overall_direction_of(bull, bear, min_confidence);
    let confidence = max_of(bull, bear);
    let allowed = confidence.value() >= min_confidence.value();
    &&& r.timeframe_analyses@.len() == 3
    &&& r.timeframe_analyses@[0].0 == Timeframe::FourHour
    &&& spec_of(r.timeframe_analyses@[0].1) == a4
    &&& r.timeframe_analyses@[1].0 == Timeframe::OneHour
    &&& spec_of(r.timeframe_analyses@[1].1) == a1
    &&& r.timeframe_analyses@[2].0 == Timeframe::FifteenMinutes
    &&& spec_of(r.timeframe_analyses@[2].1) == a15
    &&& r.overall_direction == direction
    &&& r.overall_confidence == confidence
    &&& r.entry_allowed == allowed
    &&& r.entry_direction == entry_of(allowed, direction)
}

/// The bars stored for a timeframe (the first entry for it), none when it is missing.
pub open spec fn klines_for(klines: Seq<(Timeframe, Vec<OHLCData>)>, tf: Timeframe) -> Seq<OHLCData>
    decreases klines.len(),
{
    if klines.len() == 0 {
        Seq::empty()
    } else if klines[0].0 == tf {
        klines[0].1@
    } else {
        klines_for(klines.drop_first(), tf)
    }
}

fn find_klines<'a>(klines: &'a Vec<(Timeframe, Vec<OHLCData>)>, tf: Timeframe) -> (r: Option<&'a Vec<OHLCData>>)
    ensures
        match r {
            Some(v) => v@ == klines_for(klines@, tf),
            None => klines_for(klines@, tf) == Seq::<OHLCData>::empty(),
        },
{
    proof {
        assert(klines@.skip(0) =~= klines@);
    }
    let mut i: usize = 0;
    while i < klines.len()
        invariant
            i <= klines@.len(),
            klines_for(klines@, tf) == klines_for(klines@.skip(i as int), tf),
        decreases klines@.len() - i,
    {
        proof {
            assert(klines@.skip(i as int).drop_first() =~= klines@.skip(i + 1));
        }
        if klines[i].0 == tf {
            return Some(&klines[i].1);
        }
        i = i + 1;
    }
    None
}

impl TrendStrategy {
    /// The score the analysis gives the direction.
    pub fn calculate_direction_score(&self, analysis: &TrendAnalysis, direction: TrendDirection) -> (r: Dec)
        ensures
            r == direction_score(spec_of(*analysis), direction),
    {
        if analysis.direction == direction {
            analysis.confidence
        } else {
            Dec::zero()
        }
    }

    fn try_weighted_score(
        &self,
        a4: &TrendAnalysis,
        a1: &TrendAnalysis,
        a15: &TrendAnalysis,
        direction: TrendDirection,
    ) -> (r: Option<Dec>)
        ensures
            r == weighted_score(spec_of(*a4), spec_of(*a1), spec_of(*a15), direction),
    {
        let x = self.calculate_direction_score(a4, direction).checked_mul(ratio_exec(50, 100));
        let y = self.calculate_direction_score(a1, direction).checked_mul(ratio_exec(30, 100));
        match (x, y) {
            (Some(x), Some(y)) => match x.checked_add(y) {
                Some(xy) => match self.calculate_direction_score(a15, direction).checked_mul(ratio_exec(20, 100)) {
                    Some(z) => xy.checked_add(z),
                    None => None,
                },
                None => None,
            },
            _ => None,
        }
    }

    /// Combines the three analyses, or `None` where the weighting overflows.
    pub fn try_combine_analyses(
        &self,
        analysis_4h: &TrendAnalysis,
        analysis_1h: &TrendAnalysis,
        analysis_15m: &TrendAnalysis,
    ) -> (r: Option<MultiTimeframeAnalysis>)
        ensures
            r is Some <==> combine_ok(spec_of(*analysis_4h), spec_of(*analysis_1h), spec_of(*analysis_15m)),
            r is Some ==> combined_is(
                r->0,
                spec_of(*analysis_4h),
                spec_of(*analysis_1h),
                spec_of(*analysis_15m),
                self.min_confidence,
            ),
    {
        let bull = match self.try_weighted_score(analysis_4h, analysis_1h, analysis_15m, TrendDirection::Bullish) {
            Some(v) => v,
            None => return None,
        };
        let bear = match self.try_weighted_score(analysis_4h, analysis_1h, analysis_15m, TrendDirection::Bearish) {
            Some(v) => v,
            None => return None,
        };
        let min = self.min_confidence;
        let overall_direction = if bull.gt(&bear) && bull.gt(&min) {
            TrendDirection::Bullish
        } else if bear.gt(&bull) && bear.gt(&min) {
            TrendDirection::Bearish
        } else {
            TrendDirection::Neutral
        };
        let overall_confidence = bull.max(bear);
        let entry_allowed = overall_confidence.ge(&min);
        let entry_direction = if entry_allowed {
            match overall_direction {
                TrendDirection::Bullish => Some(EntryDirection::Long),
                TrendDirection::Bearish => Some(EntryDirection::Short),
                TrendDirection::Neutral => None,
            }
        } else {
            None
        };
        let mut timeframe_analyses: Vec<(Timeframe, TrendAnalysis)> = Vec::new();
        timeframe_analyses.push((Timeframe::FourHour, analysis_4h.duplicate()));
        timeframe_analyses.push((Timeframe::OneHour, analysis_1h.duplicate()));
        timeframe_analyses.push((Timeframe::FifteenMinutes, analysis_15m.duplicate()));
        Some(MultiTimeframeAnalysis {
            timeframe_analyses,
            overall_direction,
            overall_confidence,
            entry_allowed,
            entry_direction,
        })
    }

    /// Combines the three analyses.
    pub fn combine_analyses(
        &self,
        analysis_4h: &TrendAnalysis,
        analysis_1h: &TrendAnalysis,
        analysis_15m: &TrendAnalysis,
    ) -> (r: MultiTimeframeAnalysis)
        requires
            combine_ok(spec_of(*analysis_4h), spec_of(*analysis_1h), spec_of(*analysis_15m)),
        ensures
            combined_is(r, spec_of(*analysis_4h), spec_of(*analysis_1h), spec_of(*analysis_15m), self.min_confidence),
    {
        match self.try_combine_analyses(analysis_4h, analysis_1h, analysis_15m) {
            Some(a) => a,
            None => vstd::pervasive::unreached(),
        }
    }

    /// The analyses of the 4h, 1h and 15m bars stored in `klines` can all be computed and
    /// combined.
    pub open spec fn analyze_ok(self, klines: Seq<(Timeframe, Vec<OHLCData>)>) -> bool {
        let k4 = klines_for(klines, Timeframe::FourHour);
        let k1 = klines_for(klines, Timeframe::OneHour);
        let k15 = klines_for(klines, Timeframe::FifteenMinutes);
        &&& self.analyze_4h_ok(k4)
        &&& self.analyze_1h_ok(k1)
        &&& self.analyze_15m_ok(k15)
        &&& combine_ok(self.analyze_4h_spec(k4), self.analyze_1h_spec(k1), self.analyze_15m_spec(k15))
    }

    /// Whether `r` is the analysis of `klines`: each timeframe analysed on its bars (none when
    /// missing), then combined.
    pub open spec fn analysis_of(self, klines: Seq<(Timeframe, Vec<OHLCData>)>, r: MultiTimeframeAnalysis) -> bool {
        combined_is(
            r,
            self.analyze_4h_spec(klines_for(klines, Timeframe::FourHour)),
            self.analyze_1h_spec(klines_for(klines, Timeframe::OneHour)),
            self.analyze_15m_spec(klines_for(klines, Timeframe::FifteenMinutes)),
            self.min_confidence,
        )
    }

    /// Analyses the bars of the three timeframes and keeps the result as the last analysis, or
    /// returns `None`, changing nothing, where `Decimal` would panic.
    pub fn try_analyze(&mut self, klines: &Vec<(Timeframe, Vec<OHLCData>)>) -> (r: Option<MultiTimeframeAnalysis>)
        ensures
            r is Some <==> old(self).analyze_ok(klines@),
            match r {
                Some(a) => {
                    &&& old(self).analysis_of(klines@, a)
                    &&& final(self).last_analysis is Some
                    &&& final(self).last_analysis->0.same_as(a)
                    &&& final(self).ema_fast_period == old(self).ema_fast_period
                    &&& final(self).ema_slow_period == old(self).ema_slow_period
                    &&& final(self).macd_fast_period == old(self).macd_fast_period
                    &&& final(self).macd_slow_period == old(self).macd_slow_period
                    &&& final(self).macd_signal_period == old(self).macd_signal_period
                    &&& final(self).rsi_period == old(self).rsi_period
                    &&& final(self).rsi_oversold == old(self).rsi_oversold
                    &&& final(self).rsi_overbought == old(self).rsi_overbought
                    &&& final(self).min_confidence == old(self).min_confidence
                    &&& final(self).is_long_position == old(self).is_long_position
                },
                None => *final(self) == *old(self),
            },
    {
        let empty: Vec<OHLCData> = Vec::new();
        let k4 = match find_klines(klines, Timeframe::FourHour) {
            Some(v) => v.as_slice(),
            None => empty.as_slice(),
        };
        let k1 = match find_klines(klines, Timeframe::OneHour) {
            Some(v) => v.as_slice(),
            None => empty.as_slice(),
        };
        let k15 = match find_klines(klines, Timeframe::FifteenMinutes) {
            Some(v) => v.as_slice(),
            None => empty.as_slice(),
        };
        let a4 = match self.try_analyze_4h(k4) {
            Some(a) => a,
            None => return None,
        };
        let a1 = match self.try_analyze_1h(k1) {
            Some(a) => a,
            None => return None,
        };
        let a15 = match self.try_analyze_15m(k15) {
            Some(a) => a,
            None => return None,
        };
        proof {
            assert(spec_of(a4) == self.analyze_4h_spec(k4@));
            assert(spec_of(a1) == self.analyze_1h_spec(k1@));
            assert(spec_of(a15) == self.analyze_15m_spec(k15@));
        }
        let result = match self.try_combine_analyses(&a4, &a1, &a15) {
            Some(r) => r,
            None => return None,
        };
        self.last_analysis = Some(result.duplicate());
        Some(result)
    }

    /// Analyses the bars of the three timeframes and keeps the result as the last analysis, on
    /// bars where nothing overflows.
    pub fn analyze_bars(&mut self, klines: &Vec<(Timeframe, Vec<OHLCData>)>) -> (r: MultiTimeframeAnalysis)
        requires
            old(self).analyze_ok(klines@),
        ensures
            old(self).analysis_of(klines@, r),
            final(self).last_analysis is Some,
            final(self).last_analysis->0.same_as(r),
            final(self).min_confidence == old(self).min_confidence,
            final(self).is_long_position == old(self).is_long_position,
    {
        match self.try_analyze(klines) {
            Some(a) => a,
            None => vstd::pervasive::unreached(),
        }
    }
}

/// The strategy after the parameters in `params` are read in order (`ema_fast`, `ema_slow`,
/// `rsi_period`, `rsi_oversold`, `rsi_overbought`, `min_confidence`), and the first error: a
/// value that does not parse stops the reading there, the earlier ones staying applied.
/// `min_confidence` is read as decimal text.
pub open spec fn initialized(s: TrendStrategy, params: Seq<(String, String)>) -> (TrendStrategy, Option<Seq<char>>) {
    let p1 = param_value(params, "ema_fast"@);
    if p1 is Some && usize_from_text(p1->0@) is None {
        (s, Some("Invalid ema_fast"@))
    } else {
        let s1 = if p1 is Some { TrendStrategy { ema_fast_period: usize_from_text(p1->0@)->0, ..s } } else { s };
        let p2 = param_value(params, "ema_slow"@);
        if p2 is Some && usize_from_text(p2->0@) is None {
            (s1, Some("Invalid ema_slow"@))
        } else {
            let s2 = if p2 is Some { TrendStrategy { ema_slow_period: usize_from_text(p2->0@)->0, ..s1 } } else { s1 };
            let p3 = param_value(params, "rsi_period"@);
            if p3 is Some && usize_from_text(p3->0@) is None {
                (s2, Some("Invalid rsi_period"@))
            } else {
                let s3 = if p3 is Some { TrendStrategy { rsi_period: usize_from_text(p3->0@)->0, ..s2 } } else { s2 };
                let p4 = param_value(params, "rsi_oversold"@);
                if p4 is Some && decimal_from_text(p4->0@) is None {
                    (s3, Some("Invalid rsi_oversold"@))
                } else {
                    let s4 = if p4 is Some { TrendStrategy { rsi_oversold: decimal_from_text(p4->0@)->0, ..s3 } } else { s3 };
                    let p5 = param_value(params, "rsi_overbought"@);
                    if p5 is Some && decimal_from_text(p5->0@) is None {
                        (s4, Some("Invalid rsi_overbought"@))
                    } else {
                        let s5 = if p5 is Some { TrendStrategy { rsi_overbought: decimal_from_text(p5->0@)->0, ..s4 } } else { s4 };
                        let p6 = param_value(params, "min_confidence"@);
                        if p6 is Some && decimal_from_text(p6->0@) is None {
                            (s5, Some("Invalid min_confidence"@))
                        } else {
                            let s6 = if p6 is Some { TrendStrategy { min_confidence: decimal_from_text(p6->0@)->0, ..s5 } } else { s5 };
                            (s6, None)
                        }
                    }
                }
            }
        }
    }
}

/// The strategy's name.
pub open spec fn trend_strategy_name() -> Seq<char> {
    "Multi-Timeframe Trend"@
}

/// The strategy's description.
pub open spec fn trend_strategy_description() -> Seq<char> {
    "Multi-timeframe trend strategy: 4h for trend direction, 1h for confirmation, 15m for entry"@
}

impl MultiTimeframeStrategy for TrendStrategy {
    fn name(&self) -> (r: String)
        ensures
            r@ == trend_strategy_name(),
    {
        String::from_str("Multi-Timeframe Trend")
    }

    fn description(&self) -> (r: String)
        ensures
            r@ == trend_strategy_description(),
    {
        String::from_str("Multi-timeframe trend strategy: 4h for trend direction, 1h for confirmation, 15m for entry")
    }

    open spec fn timeframes_needed(&self) -> Seq<Timeframe> {
        seq![Timeframe::FourHour, Timeframe::OneHour, Timeframe::FifteenMinutes]
    }

    fn required_timeframes(&self) -> (r: Vec<Timeframe>)
        ensures
            r@ == seq![Timeframe::FourHour, Timeframe::OneHour, Timeframe::FifteenMinutes],
    {
        let mut v: Vec<Timeframe> = Vec::new();
        v.push(Timeframe::FourHour);
        v.push(Timeframe::OneHour);
        v.push(Timeframe::FifteenMinutes);
        v
    }

    open spec fn initialized_with(&self, params: Seq<(String, String)>) -> (TrendStrategy, Option<Seq<char>>) {
        initialized(*self, params)
    }

    /// Reads the parameters; `min_confidence` is given as decimal text.
    fn initialize(&mut self, params: &Vec<(String, String)>) -> (r: Result<(), String>)
    {
        match get_param(params, "ema_fast") {
            Some(v) => match parse_usize(v.as_str()) {
                Some(n) => {
                    self.ema_fast_period = n;
                },
                None => return Err(String::from_str("Invalid ema_fast")),
            },
            None => {},
        }
        match get_param(params, "ema_slow") {
            Some(v) => match parse_usize(v.as_str()) {
                Some(n) => {
                    self.ema_slow_period = n;
                },
                None => return Err(String::from_str("Invalid ema_slow")),
            },
            None => {},
        }
        match get_param(params, "rsi_period") {
            Some(v) => match parse_usize(v.as_str()) {
                Some(n) => {
                    self.rsi_period = n;
                },
                None => return Err(String::from_str("Invalid rsi_period")),
            },
            None => {},
        }
        match get_param(params, "rsi_oversold") {
            Some(v) => match Dec::parse(v.as_str()) {
                Some(d) => {
                    self.rsi_oversold = d;
                },
                None => return Err(String::from_str("Invalid rsi_oversold")),
            },
            None => {},
        }
        match get_param(params, "rsi_overbought") {
            Some(v) => match Dec::parse(v.as_str()) {
                Some(d) => {
                    self.rsi_overbought = d;
                },
                None => return Err(String::from_str("Invalid rsi_overbought")),
            },
            None => {},
        }
        match get_param(params, "min_confidence") {
            Some(v) => match Dec::parse(v.as_str()) {
                Some(d) => {
                    self.min_confidence = d;
                },
                None => return Err(String::from_str("Invalid min_confidence")),
            },
            None => {},
        }
        Ok(())
    }

    /// An analysis of bars whose values are `klines`: given exactly where it can be computed,
    /// then the analysis of the three timeframes, kept as the last analysis, the settings
    /// unchanged; otherwise nothing changes.
    open spec fn analyzes(&self, klines: Seq<(Timeframe, Seq<OHLCData>)>, r: Option<MultiTimeframeAnalysis>, after: TrendStrategy) -> bool {
        exists|raw: Seq<(Timeframe, Vec<OHLCData>)>| #[trigger] klines_view(raw) == klines && {
            &&& (r is Some <==> self.analyze_ok(raw))
            &&& match r {
                Some(a) => {
                    &&& self.analysis_of(raw, a)
                    &&& after.last_analysis is Some
                    &&& after.last_analysis->0.same_as(a)
                    &&& after == (TrendStrategy { last_analysis: after.last_analysis, ..*self })
                },
                None => after == *self,
            }
        }
    }

    fn analyze(&mut self, klines: &Vec<(Timeframe, Vec<OHLCData>)>) -> (r: Option<MultiTimeframeAnalysis>)
        ensures
            r is Some <==> old(self).analyze_ok(klines@),
            match r {
                Some(a) => old(self).analysis_of(klines@, a) && match final(self).last_analysis {
                    Some(kept) => kept.same_as(a),
                    None => false,
                },
                None => *final(self) == *old(self),
            },
    {
        let r = self.try_analyze(klines);
        proof {
            assert(klines_view(klines@) == klines_view(klines@));
        }
        r
    }

    open spec fn wants_entry(&self, analysis: MultiTimeframeAnalysis) -> bool {
        analysis.entry_allowed && analysis.entry_direction is Some
    }

    fn should_enter(&self, analysis: &MultiTimeframeAnalysis) -> (r: bool)
        ensures
            r == (analysis.entry_allowed && analysis.entry_direction is Some),
    {
        analysis.entry_allowed && analysis.entry_direction.is_some()
    }

    open spec fn wants_exit(&self, analysis: MultiTimeframeAnalysis, is_long: bool) -> bool {
        match analysis.overall_direction {
            TrendDirection::Bullish => !is_long,
            TrendDirection::Bearish => is_long,
            TrendDirection::Neutral => false,
        }
    }

    fn should_exit(&self, analysis: &MultiTimeframeAnalysis, is_long: bool) -> (r: bool)
        ensures
            r == match analysis.overall_direction {
                TrendDirection::Bullish => !is_long,
                TrendDirection::Bearish => is_long,
                TrendDirection::Neutral => false,
            },
    {
        match analysis.overall_direction {
            TrendDirection::Bullish => !is_long,
            TrendDirection::Bearish => is_long,
            TrendDirection::Neutral => false,
        }
    }

    open spec fn after_reset(&self) -> TrendStrategy {
        TrendStrategy { last_analysis: None, is_long_position: false, ..*self }
    }

    fn reset(&mut self)
    {
        self.last_analysis = None;
        self.is_long_position = false;
    }
}

impl Default for TrendStrategy {
    fn default() -> (r: TrendStrategy)
        ensures
            r.ema_fast_period == 20,
            r.ema_slow_period == 50,
            r.macd_fast_period == 12,
            r.macd_slow_period == 26,
            r.macd_signal_period == 9,
            r.rsi_period == 14,
            r.rsi_oversold == count_dec(30),
            r.rsi_overbought == count_dec(70),
            r.min_confidence == ratio(60, 100),
            r.last_analysis is None,
            !r.is_long_position,
    {
        TrendStrategy::new()
    }
}

} // verus!
