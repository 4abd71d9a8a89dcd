//! Walk-forward and out-of-sample testing: how the bars are split into training and test
//! windows, the overfitting ratio, and the summary of the rounds.
use crate::decimal::{
    decimal_checked_add, decimal_checked_div, decimal_checked_mul, decimal_checked_sub,
    keeps_whole_bounds, lemma_units, max_of, seq_sum, units, whole_part, Dec,
};
use crate::engine::{result_core, BacktestConfig, BacktestResult, RiskMetricsSource};
use crate::mtf_engine::{backtest_fresh, window_ran};
use crate::portfolio::PortfolioModel;
use crate::strategy::MultiTimeframeStrategy;
use crate::types::OHLCData;
use crate::indicators::count_dec;
use crate::seqs::{count_of, lemma_count_of_step};
use crate::text::{concat, digits_text, usize_to_string};
use vstd::prelude::*;
use vstd::string::StringExecFns;

verus! {

/// Settings of a walk-forward test, in 1m bars.
#[derive(Clone, Copy)]
pub struct WalkForwardConfig {
    /// Bars of each training window (30 days by default).
    pub train_candles: usize,
    /// Bars of each test window (7 days by default).
    pub test_candles: usize,
    /// Bars the windows move by from one round to the next (7 days by default).
    pub step_candles: usize,
    /// Average overfitting ratio above which the strategy counts as overfitted.
    pub overfit_threshold: Dec,
}

impl WalkForwardConfig {
    /// 30 days of training, 7 days of test, moving by 7 days, threshold 0.5.
    pub fn default() -> (r: WalkForwardConfig)
        ensures
            r.train_candles == 43200,
            r.test_candles == 10080,
            r.step_candles == 10080,
            r.overfit_threshold == Dec::spec_new(5, 1),
    {
        WalkForwardConfig {
            train_candles: 43200,
            test_candles: 10080,
            step_candles: 10080,
            overfit_threshold: Dec::new(5, 1),
        }
    }

    pub fn with_train_candles(self, n: usize) -> (r: WalkForwardConfig)
        ensures
            r == (WalkForwardConfig { train_candles: n, ..self }),
    {
        let mut s = self;
        s.train_candles = n;
        s
    }

    pub fn with_test_candles(self, n: usize) -> (r: WalkForwardConfig)
        ensures
            r == (WalkForwardConfig { test_candles: n, ..self }),
    {
        let mut s = self;
        s.test_candles = n;
        s
    }

    pub fn with_step_candles(self, n: usize) -> (r: WalkForwardConfig)
        ensures
            r == (WalkForwardConfig { step_candles: n, ..self }),
    {
        let mut s = self;
        s.step_candles = n;
        s
    }

    pub fn with_overfit_threshold(self, t: Dec) -> (r: WalkForwardConfig)
        ensures
            r == (WalkForwardConfig { overfit_threshold: t, ..self }),
    {
        let mut s = self;
        s.overfit_threshold = t;
        s
    }
}

/// Settings of an out-of-sample test: a single split into training and test data.
#[derive(Clone, Copy)]
pub struct OutOfSampleConfig {
    /// Share of the bars used for training (0 to 1), 0.7 by default.
    pub train_ratio: Dec,
}

impl OutOfSampleConfig {
    pub fn default() -> (r: OutOfSampleConfig)
        ensures
            r.train_ratio == Dec::spec_new(7, 1),
    {
        OutOfSampleConfig { train_ratio: Dec::new(7, 1) }
    }
}

/// The bar ranges of one walk-forward round: training `[train_start, train_end)` and test
/// `[test_start, test_end)`.
#[derive(Clone, Copy)]
pub struct WindowPlan {
    pub train_start: usize,
    pub train_end: usize,
    pub test_start: usize,
    pub test_end: usize,
}

/// Whether `p` holds the windows of round `k` (from 0): training from bar `k * step`, then the
/// test window right after.
pub open spec fn is_window(p: WindowPlan, k: int, cfg: WalkForwardConfig) -> bool {
    &&& p.train_start == k * cfg.step_candles
    &&& p.train_end == p.train_start + cfg.train_candles
    &&& p.test_start == p.train_end
    &&& p.test_end == p.test_start + cfg.test_candles
}

/// Whether `r` is an error with the text `text`.
pub open spec fn error_is<T>(r: Result<T, String>, text: Seq<char>) -> bool {
    match r {
        Ok(_) => false,
        Err(e) => e@ == text,
    }
}

/// The error for too few bars.
pub open spec fn insufficient_data_text(need: nat, have: nat) -> Seq<char> {
    "Insufficient data: need "@ + digits_text(need) + " candles, have "@ + digits_text(have)
}

/// Plans the rounds of a walk-forward test over `total` bars: round `k` trains from bar
/// `k * step` and tests right after, as long as both windows fit. Refused when not even one
/// round fits.
pub fn plan_windows(total: usize, cfg: &WalkForwardConfig) -> (r: Result<Vec<WindowPlan>, String>)
    requires
        cfg.step_candles > 0,
        cfg.train_candles + cfg.test_candles <= usize::MAX,
        total + cfg.step_candles <= usize::MAX,
    ensures
        r is Err <==> total < cfg.train_candles + cfg.test_candles,
        r is Err ==> error_is(r, insufficient_data_text((cfg.train_candles + cfg.test_candles) as nat, total as nat)),
        match r {
            Err(e) => true,
            Ok(v) => {
                &&& total >= cfg.train_candles + cfg.test_candles
                &&& v@.len() >= 1
                &&& forall|k: int| 0 <= k < v@.len() ==> is_window(#[trigger] v@[k], k, *cfg) && v@[k].test_end <= total
                &&& v@.len() * cfg.step_candles + cfg.train_candles + cfg.test_candles > total
            },
        },
{
    let window = cfg.train_candles + cfg.test_candles;
    if total < window {
        let mut e = String::from_str("Insufficient data: need ");
        e = concat(e, usize_to_string(window).as_str());
        e = concat(e, " candles, have ");
        e = concat(e, usize_to_string(total).as_str());
        return Err(e);
    }
    let mut plans: Vec<WindowPlan> = Vec::new();
    let mut start: usize = 0;
    proof {
        assert(plans@.len() * cfg.step_candles == 0) by (nonlinear_arith)
            requires
                plans@.len() == 0,
        ;
    }
    while start + window <= total
        invariant
            window == cfg.train_candles + cfg.test_candles,
            total + cfg.step_candles <= usize::MAX,
            cfg.step_candles > 0,
            start == plans@.len() * cfg.step_candles,
            total >= window,
            start + window <= total + cfg.step_candles,
            plans@.len() == 0 ==> start == 0,
            forall|k: int| 0 <= k < plans@.len() ==> is_window(#[trigger] plans@[k], k, *cfg) && plans@[k].test_end <= total,
        decreases total + cfg.step_candles - start,
    {
        let train_end = start + cfg.train_candles;
        let test_end = train_end + cfg.test_candles;
        let ghost k = plans@.len() as int;
        plans.push(WindowPlan { train_start: start, train_end, test_start: train_end, test_end });
        proof {
            assert(is_window(plans@[k], k, *cfg));
            assert((k + 1) * cfg.step_candles == k * cfg.step_candles + cfg.step_candles) by (nonlinear_arith);
        }
        start = start + cfg.step_candles;
    }
    Ok(plans)
}

/// How much worse the test Sharpe ratio is than the training one, relative to the training one
/// (taken as at least 0.01): `max((train - test) / max(train, 0.01), 0)`.
pub open spec fn overfit_ratio_of(train_sharpe: Dec, test_sharpe: Dec) -> Option<Dec> {
    let denominator = max_of(train_sharpe, Dec::spec_new(1, 2));
    match decimal_checked_sub(train_sharpe, test_sharpe) {
        Some(d) => match decimal_checked_div(d, denominator) {
            Some(ratio) => Some(max_of(ratio, Dec::spec_zero())),
            None => None,
        },
        None => None,
    }
}

/// The walk-forward and out-of-sample backtests.
pub struct WalkForwardEngine;

impl WalkForwardEngine {
    /// The overfitting ratio, or `None` where `Decimal` would panic.
    pub fn try_calculate_overfit_ratio(train_sharpe: Dec, test_sharpe: Dec) -> (r: Option<Dec>)
        ensures
            r == overfit_ratio_of(train_sharpe, test_sharpe),
    {
        let denominator = train_sharpe.max(Dec::new(1, 2));
        match train_sharpe.checked_sub(test_sharpe) {
            Some(d) => match d.checked_div(denominator) {
                Some(ratio) => Some(ratio.max(Dec::zero())),
                None => None,
            },
            None => None,
        }
    }

    /// The overfitting ratio: how much worse the test Sharpe ratio is than the training one,
    /// relative to the training one; zero when the test is as good or better.
    pub fn calculate_overfit_ratio(train_sharpe: Dec, test_sharpe: Dec) -> (r: Dec)
        requires
            overfit_ratio_of(train_sharpe, test_sharpe) is Some,
        ensures
            r == overfit_ratio_of(train_sharpe, test_sharpe)->0,
    {
        match Self::try_calculate_overfit_ratio(train_sharpe, test_sharpe) {
            Some(v) => v,
            None => vstd::pervasive::unreached(),
        }
    }
}

/// One walk-forward round: its windows (as the first and last bar times, in milliseconds since
/// the epoch), both backtests and the overfitting ratio.
pub struct WalkForwardRound {
    pub round: usize,
    pub train_start: i64,
    pub train_end: i64,
    pub test_start: i64,
    pub test_end: i64,
    pub train_result: BacktestResult,
    pub test_result: BacktestResult,
    pub overfit_ratio: Dec,
}

/// The figures of one walk-forward round.
#[derive(Clone, Copy)]
pub struct WalkForwardRoundSummary {
    pub round: usize,
    pub train_start: i64,
    pub train_end: i64,
    pub test_start: i64,
    pub test_end: i64,
    pub train_return_pct: Dec,
    pub train_sharpe: Dec,
    pub train_trades: usize,
    pub test_return_pct: Dec,
    pub test_sharpe: Dec,
    pub test_trades: usize,
    pub test_win_rate: Dec,
    pub test_max_drawdown: Dec,
    pub overfit_ratio: Dec,
}

/// The result of a walk-forward test.
pub struct WalkForwardResult {
    pub round_summaries: Vec<WalkForwardRoundSummary>,
    /// Compounded return of the test windows, in percent.
    pub overall_test_return_pct: Dec,
    pub overall_test_sharpe: Dec,
    pub overall_test_max_drawdown: Dec,
    pub overall_test_win_rate: Dec,
    pub avg_overfit_ratio: Dec,
    pub is_overfit: bool,
    pub total_rounds: usize,
    pub profitable_rounds: usize,
}

/// The summary of a round.
pub open spec fn summary_of(r: WalkForwardRound) -> WalkForwardRoundSummary {
    WalkForwardRoundSummary {
        round: r.round,
        train_start: r.train_start,
        train_end: r.train_end,
        test_start: r.test_start,
        test_end: r.test_end,
        train_return_pct: r.train_result.return_percentage,
        train_sharpe: r.train_result.sharpe_ratio,
        train_trades: r.train_result.total_trades,
        test_return_pct: r.test_result.return_percentage,
        test_sharpe: r.test_result.sharpe_ratio,
        test_trades: r.test_result.total_trades,
        test_win_rate: r.test_result.win_rate,
        test_max_drawdown: r.test_result.max_drawdown,
        overfit_ratio: r.overfit_ratio,
    }
}

/// The test returns (in percent) compounded: the product of `1 + r / 100`, from 1.
pub open spec fn compounded(returns_pct: Seq<Dec>) -> Option<Dec>
    decreases returns_pct.len(),
{
    if returns_pct.len() == 0 {
        Some(count_dec(1))
    } else {
        match compounded(returns_pct.drop_last()) {
            Some(c) => match decimal_checked_div(returns_pct.last(), count_dec(100)) {
                Some(q) => match decimal_checked_add(count_dec(1), q) {
                    Some(f) => decimal_checked_mul(c, f),
                    None => None,
                },
                None => None,
            },
            None => None,
        }
    }
}

/// The average: the sum divided by the count.
pub open spec fn average_of(xs: Seq<Dec>) -> Option<Dec> {
    match seq_sum(xs) {
        Some(total) => decimal_checked_div(total, count_dec(xs.len() as int)),
        None => None,
    }
}

/// The overall compounded test return in percent: `(c - 1) * 100`.
pub open spec fn overall_return_pct(rounds: Seq<WalkForwardRound>) -> Option<Dec> {
    match compounded(rounds.map_values(|r: WalkForwardRound| r.test_result.return_percentage)) {
        Some(c) => match decimal_checked_sub(c, count_dec(1)) {
            Some(g) => decimal_checked_mul(g, count_dec(100)),
            None => None,
        },
        None => None,
    }
}

/// Every figure of the summary of non-empty rounds can be computed.
pub open spec fn aggregate_ok(rounds: Seq<WalkForwardRound>) -> bool {
    rounds.len() > 0 ==> {
        &&& overall_return_pct(rounds) is Some
        &&& average_of(rounds.map_values(|r: WalkForwardRound| r.test_result.sharpe_ratio)) is Some
        &&& average_of(rounds.map_values(|r: WalkForwardRound| r.test_result.max_drawdown)) is Some
        &&& average_of(rounds.map_values(|r: WalkForwardRound| r.test_result.win_rate)) is Some
        &&& average_of(rounds.map_values(|r: WalkForwardRound| r.overfit_ratio)) is Some
    }
}

/// Whether `r` summarises the rounds: one summary per round, the test returns compounded, the
/// test figures and overfitting ratios averaged, overfitted when the average ratio is above the
/// threshold; all zero for no rounds.
pub open spec fn aggregated_is(r: WalkForwardResult, rounds: Seq<WalkForwardRound>, threshold: Dec) -> bool {
    &&& r.round_summaries@ == rounds.map_values(|x: WalkForwardRound| summary_of(x))
    &&& r.total_rounds == rounds.len()
    &&& r.profitable_rounds == count_of(rounds.map_values(|x: WalkForwardRound| x.test_result.total_pnl.value() > 0))
    &&& if rounds.len() == 0 {
        &&& r.overall_test_return_pct == Dec::spec_zero()
        &&& r.overall_test_sharpe == Dec::spec_zero()
        &&& r.overall_test_max_drawdown == Dec::spec_zero()
        &&& r.overall_test_win_rate == Dec::spec_zero()
        &&& r.avg_overfit_ratio == Dec::spec_zero()
        &&& !r.is_overfit
    } else {
        &&& r.overall_test_return_pct == overall_return_pct(rounds)->0
        &&& r.overall_test_sharpe == average_of(rounds.map_values(|x: WalkForwardRound| x.test_result.sharpe_ratio))->0
        &&& r.overall_test_max_drawdown == average_of(rounds.map_values(|x: WalkForwardRound| x.test_result.max_drawdown))->0
        &&& r.overall_test_win_rate == average_of(rounds.map_values(|x: WalkForwardRound| x.test_result.win_rate))->0
        &&& r.avg_overfit_ratio == average_of(rounds.map_values(|x: WalkForwardRound| x.overfit_ratio))->0
        &&& r.is_overfit == (r.avg_overfit_ratio.value() > threshold.value())
    }
}

fn try_average(xs: &Vec<Dec>) -> (r: Option<Dec>)
    ensures
        r == average_of(xs@),
{
    match Dec::try_sum_slice(xs.as_slice()) {
        Some(total) => total.checked_div(Dec::from_usize(xs.len())),
        None => None,
    }
}

proof fn lemma_compounded_prefix_none(s: Seq<Dec>, k: nat)
    requires
        k <= s.len(),
        compounded(s.take(k as int)) is None,
    ensures
        compounded(s) is None,
    decreases s.len() - k,
{
    if k < s.len() {
        assert(s.take(k + 1int).drop_last() =~= s.take(k as int));
        lemma_compounded_prefix_none(s, k + 1);
    } else {
        assert(s.take(k as int) =~= s);
    }
}

/// `2^n`.
pub open spec fn doubling(n: nat) -> int
    decreases n,
{
    if n == 0 {
        1
    } else {
        2 * doubling((n - 1) as nat)
    }
}

/// Every round's test return is a gain of at most 100%.
pub open spec fn gains_within_100(rounds: Seq<WalkForwardRound>) -> bool {
    forall|k: int|
        0 <= k < rounds.len() ==> 0 <= (#[trigger] rounds[k]).test_result.return_percentage.value() <= units(100)
}

/// Every round's test return is a loss of at most 100%.
pub open spec fn losses_within_100(rounds: Seq<WalkForwardRound>) -> bool {
    forall|k: int|
        0 <= k < rounds.len() ==> units(-100) <= (#[trigger] rounds[k]).test_result.return_percentage.value() <= 0
}

/// One compounding step `c * (1 + r / 100)` with a gain `r` of at most 100% keeps the growth
/// factor between 1 and `2^(i + 1)` when it was between 1 and `2^i`.
proof fn lemma_compound_gain(c: Dec, r: Dec, q: Dec, f: Dec, c2: Dec, i: nat)
    requires
        units(1) <= c.value() <= units(doubling(i)),
        0 <= r.value() <= units(100),
        keeps_whole_bounds(r.value() * units(1), units(100), q),
        keeps_whole_bounds(units(1) + q.value(), 1, f),
        keeps_whole_bounds(c.value() * f.value(), units(1), c2),
    ensures
        units(1) <= c2.value() <= units(doubling(i + 1)),
{
    lemma_units(0);
    lemma_units(2);
    lemma_units(100);
    lemma_units(doubling(i));
    lemma_units(doubling(i + 1));
    let u = units(1);
    let rv = r.value();
    assert(rv * u >= units(0) * units(100)) by (nonlinear_arith)
        requires
            rv >= 0,
            u > 0,
            units(0) == 0,
    ;
    assert(rv * u <= units(1) * units(100)) by (nonlinear_arith)
        requires
            rv <= units(100),
            u > 0,
            units(1) == u,
    ;
    assert(0 <= q.value() <= units(1));
    assert(units(1) + q.value() >= units(1) * 1);
    assert(units(1) + q.value() <= units(2) * 1);
    let fv = f.value();
    let cv = c.value();
    assert(u <= fv <= 2 * u);
    let di = doubling(i);
    assert(di >= 1) by {
        lemma_doubling_pos(i);
    }
    assert(cv * fv >= units(1) * u) by (nonlinear_arith)
        requires
            cv >= u,
            fv >= u,
            u > 0,
            units(1) == u,
    ;
    assert(cv * fv <= units(doubling(i + 1)) * u) by (nonlinear_arith)
        requires
            u <= cv <= di * u,
            u <= fv <= 2 * u,
            u > 0,
            units(doubling(i + 1)) == (2 * di) * u,
    ;
}

/// One compounding step with a loss of at most 100% keeps the growth factor between 0 and 1.
proof fn lemma_compound_loss(c: Dec, r: Dec, q: Dec, f: Dec, c2: Dec)
    requires
        0 <= c.value() <= units(1),
        units(-100) <= r.value() <= 0,
        keeps_whole_bounds(r.value() * units(1), units(100), q),
        keeps_whole_bounds(units(1) + q.value(), 1, f),
        keeps_whole_bounds(c.value() * f.value(), units(1), c2),
    ensures
        0 <= c2.value() <= units(1),
{
    lemma_units(0);
    lemma_units(-1);
    lemma_units(100);
    lemma_units(-100);
    let u = units(1);
    let rv = r.value();
    assert(rv * u >= units(-1) * units(100)) by (nonlinear_arith)
        requires
            rv >= units(-100),
            u > 0,
            units(-1) == -u,
            units(-100) == -100 * u,
            units(100) == 100 * u,
    ;
    assert(rv * u <= units(0) * units(100)) by (nonlinear_arith)
        requires
            rv <= 0,
            u > 0,
            units(0) == 0,
    ;
    assert(-u <= q.value() <= 0);
    assert(units(1) + q.value() >= units(0) * 1);
    assert(units(1) + q.value() <= units(1) * 1);
    let fv = f.value();
    let cv = c.value();
    assert(0 <= fv <= u);
    assert(cv * fv >= units(0) * u) by (nonlinear_arith)
        requires
            cv >= 0,
            fv >= 0,
            units(0) == 0,
    ;
    assert(cv * fv <= units(1) * u) by (nonlinear_arith)
        requires
            0 <= cv <= u,
            0 <= fv <= u,
            units(1) == u,
    ;
}

proof fn lemma_doubling_pos(n: nat)
    ensures
        doubling(n) >= 1,
    decreases n,
{
    if n > 0 {
        lemma_doubling_pos((n - 1) as nat);
    }
}

/// The overall return `(c - 1) * 100` of a growth factor `c`: between 0 and `100 * (2^n - 1)`
/// for a factor between 1 and `2^n`, between -100 and 0 for a factor between 0 and 1.
proof fn lemma_overall_from_factor(c: Dec, g: Dec, v: Dec, n: nat)
    requires
        keeps_whole_bounds(c.value() - units(1), 1, g),
        keeps_whole_bounds(g.value() * units(100), units(1), v),
    ensures
        units(1) <= c.value() <= units(doubling(n)) ==> 0 <= v.value() <= units(100 * (doubling(n) - 1)),
        0 <= c.value() <= units(1) ==> units(-100) <= v.value() <= 0,
{
    lemma_units(0);
    lemma_units(-1);
    lemma_units(100);
    lemma_units(-100);
    lemma_units(doubling(n));
    lemma_units(doubling(n) - 1);
    lemma_units(100 * (doubling(n) - 1));
    let u = units(1);
    let cv = c.value();
    if units(1) <= cv <= units(doubling(n)) {
        let dn0 = doubling(n);
        assert(units(dn0 - 1) == units(dn0) - u) by (nonlinear_arith)
            requires
                units(dn0 - 1) == (dn0 - 1) * u,
                units(dn0) == dn0 * u,
        ;
        assert(cv - u >= units(0) * 1);
        assert(cv - u <= units(doubling(n) - 1) * 1);
        let gv = g.value();
        let dn = doubling(n);
        assert(0 <= gv <= (dn - 1) * u);
        assert(gv * units(100) >= units(0) * u) by (nonlinear_arith)
            requires
                gv >= 0,
                u > 0,
                units(100) == 100 * u,
                units(0) == 0,
        ;
        assert(gv * units(100) <= units(100 * (dn - 1)) * u) by (nonlinear_arith)
            requires
                gv <= (dn - 1) * u,
                u > 0,
                units(100) == 100 * u,
                units(100 * (dn - 1)) == (100 * (dn - 1)) * u,
        ;
    }
    if 0 <= cv <= units(1) {
        assert(cv - u >= units(-1) * 1);
        assert(cv - u <= units(0) * 1);
        let gv = g.value();
        assert(-u <= gv <= 0);
        assert(gv * units(100) >= units(-100) * u) by (nonlinear_arith)
            requires
                gv >= -u,
                u > 0,
                units(100) == 100 * u,
                units(-100) == -100 * u,
        ;
        assert(gv * units(100) <= units(0) * u) by (nonlinear_arith)
            requires
                gv <= 0,
                u > 0,
                units(100) == 100 * u,
                units(0) == 0,
        ;
    }
}

impl WalkForwardEngine {
    /// Summarises the rounds, or `None` where `Decimal` would panic.
    pub fn try_aggregate_rounds(rounds: &Vec<WalkForwardRound>, overfit_threshold: Dec) -> (r: Option<WalkForwardResult>)
        ensures
            r is Some <==> aggregate_ok(rounds@),
            r is Some ==> aggregated_is(r->0, rounds@, overfit_threshold),
            r is Some && rounds@.len() > 0 && gains_within_100(rounds@) ==> 0 <= r->0.overall_test_return_pct.value()
                <= units(100 * (doubling(rounds@.len()) - 1)),
            r is Some && rounds@.len() > 0 && losses_within_100(rounds@) ==> units(-100)
                <= r->0.overall_test_return_pct.value() <= 0,
    {
        let ghost rs = rounds@;
        let ghost rets = rs.map_values(|x: WalkForwardRound| x.test_result.return_percentage);
        let ghost wins = rs.map_values(|x: WalkForwardRound| x.test_result.total_pnl.value() > 0);
        let mut summaries: Vec<WalkForwardRoundSummary> = Vec::new();
        let mut sharpes: Vec<Dec> = Vec::new();
        let mut drawdowns: Vec<Dec> = Vec::new();
        let mut win_rates: Vec<Dec> = Vec::new();
        let mut ratios: Vec<Dec> = Vec::new();
        let mut cumulative = Dec::from_int(1);
        proof {
            lemma_units(1);
        }
        let mut compounding_ok = true;
        let mut profitable: usize = 0;
        let mut i: usize = 0;
        while i < rounds.len()
            invariant
                rs == rounds@,
                rets == rs.map_values(|x: WalkForwardRound| x.test_result.return_percentage),
                wins == rs.map_values(|x: WalkForwardRound| x.test_result.total_pnl.value() > 0),
                i <= rs.len(),
                summaries@ == rs.take(i as int).map_values(|x: WalkForwardRound| summary_of(x)),
                sharpes@ == rs.take(i as int).map_values(|x: WalkForwardRound| x.test_result.sharpe_ratio),
                drawdowns@ == rs.take(i as int).map_values(|x: WalkForwardRound| x.test_result.max_drawdown),
                win_rates@ == rs.take(i as int).map_values(|x: WalkForwardRound| x.test_result.win_rate),
                ratios@ == rs.take(i as int).map_values(|x: WalkForwardRound| x.overfit_ratio),
                compounding_ok ==> compounded(rets.take(i as int)) == Some(cumulative),
                compounding_ok && gains_within_100(rs) ==> units(1) <= cumulative.value() <= units(doubling(i as nat)),
                compounding_ok && losses_within_100(rs) ==> 0 <= cumulative.value() <= units(1),
                !compounding_ok ==> compounded(rets) is None,
                profitable == count_of(wins.take(i as int)),
                profitable <= i,
            decreases rs.len() - i,
        {
            let round = &rounds[i];
            proof {
                assert(rets.take(i + 1int).drop_last() =~= rets.take(i as int));
                assert(rets.take(i + 1int).last() == round.test_result.return_percentage);
                lemma_count_of_step(wins, i as nat);
            }
            if compounding_ok {
                let one = Dec::from_int(1);
                let hundred = Dec::from_int(100);
                let ret = round.test_result.return_percentage;
                proof {
                    lemma_units(1);
                    lemma_units(100);
                    assert(one.value() == units(1));
                    assert(hundred.value() == units(100));
                    assert(ret == rs[i as int].test_result.return_percentage);
                }
                let step = match ret.checked_div(hundred) {
                    Some(q) => match one.checked_add(q) {
                        Some(f) => {
                            let c2 = cumulative.checked_mul(f);
                            proof {
                                if c2 is Some {
                                    if gains_within_100(rs) {
                                        lemma_compound_gain(cumulative, ret, q, f, c2->0, i as nat);
                                    }
                                    if losses_within_100(rs) {
                                        lemma_compound_loss(cumulative, ret, q, f, c2->0);
                                    }
                                }
                            }
                            c2
                        },
                        None => None,
                    },
                    None => None,
                };
                match step {
                    Some(c) => {
                        cumulative = c;
                    },
                    None => {
                        compounding_ok = false;
                        proof {
                            lemma_compounded_prefix_none(rets, (i + 1) as nat);
                        }
                    },
                }
            }
            if round.test_result.is_profitable() {
                profitable = profitable + 1;
            }
            summaries.push(WalkForwardRoundSummary {
                round: round.round,
                train_start: round.train_start,
                train_end: round.train_end,
                test_start: round.test_start,
                test_end: round.test_end,
                train_return_pct: round.train_result.return_percentage,
                train_sharpe: round.train_result.sharpe_ratio,
                train_trades: round.train_result.total_trades,
                test_return_pct: round.test_result.return_percentage,
                test_sharpe: round.test_result.sharpe_ratio,
                test_trades: round.test_result.total_trades,
                test_win_rate: round.test_result.win_rate,
                test_max_drawdown: round.test_result.max_drawdown,
                overfit_ratio: round.overfit_ratio,
            });
            sharpes.push(round.test_result.sharpe_ratio);
            drawdowns.push(round.test_result.max_drawdown);
            win_rates.push(round.test_result.win_rate);
            ratios.push(round.overfit_ratio);
            proof {
                assert(summaries@ =~= rs.take(i + 1int).map_values(|x: WalkForwardRound| summary_of(x)));
                assert(sharpes@ =~= rs.take(i + 1int).map_values(|x: WalkForwardRound| x.test_result.sharpe_ratio));
                assert(drawdowns@ =~= rs.take(i + 1int).map_values(|x: WalkForwardRound| x.test_result.max_drawdown));
                assert(win_rates@ =~= rs.take(i + 1int).map_values(|x: WalkForwardRound| x.test_result.win_rate));
                assert(ratios@ =~= rs.take(i + 1int).map_values(|x: WalkForwardRound| x.overfit_ratio));
            }
            i = i + 1;
        }
        proof {
            assert(rs.take(rs.len() as int) =~= rs);
            assert(rets.take(rets.len() as int) =~= rets);
            assert(wins.take(wins.len() as int) =~= wins);
        }
        if rounds.len() == 0 {
            return Some(WalkForwardResult {
                round_summaries: summaries,
                overall_test_return_pct: Dec::zero(),
                overall_test_sharpe: Dec::zero(),
                overall_test_max_drawdown: Dec::zero(),
                overall_test_win_rate: Dec::zero(),
                avg_overfit_ratio: Dec::zero(),
                is_overfit: false,
                total_rounds: 0,
                profitable_rounds: profitable,
            });
        }
        if !compounding_ok {
            return None;
        }
        let one = Dec::from_int(1);
        let hundred = Dec::from_int(100);
        proof {
            lemma_units(1);
            lemma_units(100);
            assert(one.value() == units(1));
            assert(hundred.value() == units(100));
        }
        let overall = match cumulative.checked_sub(one) {
            Some(g) => match g.checked_mul(hundred) {
                Some(v) => {
                    proof {
                        lemma_overall_from_factor(cumulative, g, v, rounds@.len());
                    }
                    v
                },
                None => return None,
            },
            None => return None,
        };
        let sharpe = match try_average(&sharpes) {
            Some(v) => v,
            None => return None,
        };
        let drawdown = match try_average(&drawdowns) {
            Some(v) => v,
            None => return None,
        };
        let win_rate = match try_average(&win_rates) {
            Some(v) => v,
            None => return None,
        };
        let avg_ratio = match try_average(&ratios) {
            Some(v) => v,
            None => return None,
        };
        let is_overfit = avg_ratio.gt(&overfit_threshold);
        Some(WalkForwardResult {
            round_summaries: summaries,
            overall_test_return_pct: overall,
            overall_test_sharpe: sharpe,
            overall_test_max_drawdown: drawdown,
            overall_test_win_rate: win_rate,
            avg_overfit_ratio: avg_ratio,
            is_overfit,
            total_rounds: rounds.len(),
            profitable_rounds: profitable,
        })
    }

    /// Summarises the rounds: the test returns compounded, the test figures and overfitting ratios
    /// averaged, overfitted when the average ratio is above the threshold.
    pub fn aggregate_rounds(rounds: &Vec<WalkForwardRound>, overfit_threshold: Dec) -> (r: WalkForwardResult)
        requires
            aggregate_ok(rounds@),
        ensures
            aggregated_is(r, rounds@, overfit_threshold),
    {
        match Self::try_aggregate_rounds(rounds, overfit_threshold) {
            Some(v) => v,
            None => vstd::pervasive::unreached(),
        }
    }
}

/// The end of the training part of an out-of-sample split: the integer part of
/// `total * train_ratio`, or `total * 7 / 10` when that is negative or too large.
pub open spec fn train_end_of(total: nat, train_ratio: Dec) -> int {
    let p = decimal_checked_mul(count_dec(total as int), train_ratio)->0;
    if p.mant() >= 0 && whole_part(p) <= usize::MAX {
        whole_part(p)
    } else {
        (total * 7 / 10) as int
    }
}

/// Splits `total` bars for an out-of-sample test, returning the end of the training part;
/// refused below 1000 bars.
pub fn out_of_sample_split(total: usize, cfg: &OutOfSampleConfig) -> (r: Result<usize, String>)
    requires
        total < 1000 || crate::decimal::can_mul(count_dec(total as int), cfg.train_ratio),
        total * 7 <= usize::MAX,
    ensures
        r is Err <==> total < 1000,
        r is Err ==> error_is(r, "Insufficient data: need at least 1000 candles"@),
        r is Ok ==> r->Ok_0 == train_end_of(total as nat, cfg.train_ratio),
{
    if total < 1000 {
        return Err(String::from_str("Insufficient data: need at least 1000 candles"));
    }
    let p = Dec::from_usize(total).mul(cfg.train_ratio);
    match p.to_usize() {
        Some(n) => {
            proof {
                crate::decimal::lemma_pow10_pos(p.scl());
                assert(whole_part(p) >= 0) by (nonlinear_arith)
                    requires
                        p.mant() >= 0,
                        crate::decimal::pow10(p.scl()) > 0,
                        whole_part(p) == p.mant() / crate::decimal::pow10(p.scl()),
                ;
            }
            Ok(n)
        },
        None => {
            Ok(total * 7 / 10)
        },
    }
}

/// Whether the out-of-sample test counts as overfitted: an overfitting ratio above 0.5.
pub fn is_out_of_sample_overfit(overfit_ratio: Dec) -> (r: bool)
    ensures
        r == (overfit_ratio.value() > Dec::spec_new(5, 1).value()),
{
    overfit_ratio.gt(&Dec::new(5, 1))
}

/// A copy of the bars `[start, end)`.
pub fn copy_range(bars: &[OHLCData], start: usize, end: usize) -> (r: Vec<OHLCData>)
    requires
        start <= end <= bars@.len(),
    ensures
        r@ == bars@.subrange(start as int, end as int),
{
    let mut out: Vec<OHLCData> = Vec::new();
    let mut i = start;
    while i < end
        invariant
            start <= i <= end <= bars@.len(),
            out@ == bars@.subrange(start as int, i as int),
        decreases end - i,
    {
        out.push(bars[i].duplicate());
        proof {
            assert(out@ =~= bars@.subrange(start as int, i + 1));
        }
        i = i + 1;
    }
    out
}

/// Whether the plans are those of a walk-forward test over `total` bars: round `k` in
/// `plans[k]`, every window within the bars, and no room for one more round.
pub open spec fn planned(plans: Seq<WindowPlan>, cfg: WalkForwardConfig, total: nat) -> bool {
    &&& plans.len() >= 1
    &&& forall|k: int| 0 <= k < plans.len() ==> is_window(#[trigger] plans[k], k, cfg) && plans[k].test_end <= total
    &&& plans.len() * cfg.step_candles + cfg.train_candles + cfg.test_candles > total
}

/// The bars of the training window of the plan.
pub open spec fn train_bars(bars: Seq<OHLCData>, p: WindowPlan) -> Seq<OHLCData> {
    bars.subrange(p.train_start as int, p.train_end as int)
}

/// The bars of the test window of the plan.
pub open spec fn test_bars(bars: Seq<OHLCData>, p: WindowPlan) -> Seq<OHLCData> {
    bars.subrange(p.test_start as int, p.test_end as int)
}

/// Whether the rounds were run on the planned windows: each numbered from 1, stamped with the
/// first and last bar times of its windows, its training and test results the backtests of its
/// windows' bars with fresh strategies from the factory, its overfitting ratio computed from
/// its two Sharpe ratios.
pub open spec fn rounds_follow<S: MultiTimeframeStrategy, F: Fn() -> S>(
    factory: F,
    config: BacktestConfig,
    symbol: Seq<char>,
    rounds: Seq<WalkForwardRound>,
    plans: Seq<WindowPlan>,
    bars: Seq<OHLCData>,
) -> bool {
    &&& rounds.len() == plans.len()
    &&& forall|k: int| 0 <= k < rounds.len() ==> {
        let r = #[trigger] rounds[k];
        let p = plans[k];
        &&& r.round == k + 1
        &&& r.train_start == bars[p.train_start as int].timestamp
        &&& r.train_end == bars[p.train_end - 1].timestamp
        &&& r.test_start == bars[p.test_start as int].timestamp
        &&& r.test_end == bars[p.test_end - 1].timestamp
        &&& window_ran(factory, config, symbol, train_bars(bars, p), Some(Ok(r.train_result)))
        &&& window_ran(factory, config, symbol, test_bars(bars, p), Some(Ok(r.test_result)))
        &&& overfit_ratio_of(r.train_result.sharpe_ratio, r.test_result.sharpe_ratio) == Some(r.overfit_ratio)
    }
}

/// Whether the round planned in `p` stops: its training backtest fails (with the error
/// `failure`, or for an overflow where it is `None`); or that succeeds and the test backtest
/// fails; or, for an overflow, both succeed and their overfitting ratio cannot be computed.
pub open spec fn round_fails<S: MultiTimeframeStrategy, F: Fn() -> S>(
    factory: F,
    config: BacktestConfig,
    symbol: Seq<char>,
    bars: Seq<OHLCData>,
    p: WindowPlan,
    failure: Option<String>,
) -> bool {
    let bad: Option<Result<BacktestResult, String>> = match failure {
        Some(e) => Some(Err(e)),
        None => None,
    };
    ||| window_ran(factory, config, symbol, train_bars(bars, p), bad)
    ||| exists|a: BacktestResult| #[trigger] window_ran(factory, config, symbol, train_bars(bars, p), Some(Ok(a))) && {
        ||| window_ran(factory, config, symbol, test_bars(bars, p), bad)
        ||| failure is None && exists|b: BacktestResult|
            #[trigger] window_ran(factory, config, symbol, test_bars(bars, p), Some(Ok(b)))
            && overfit_ratio_of(a.sharpe_ratio, b.sharpe_ratio) is None
    }
}

impl WalkForwardEngine {
    /// Runs a walk-forward test: for each planned round, a backtest on the training window and one
    /// on the test window, each with a fresh strategy, and the overfitting ratio of the two; then
    /// the rounds are summarised. The error of the planning or of a strategy's initialisation;
    /// `None` where the decimal arithmetic overflows (where `Decimal` panics).
    pub fn run<S: MultiTimeframeStrategy, F: Fn() -> S, M: RiskMetricsSource>(
        factory: &F,
        config: &BacktestConfig,
        wf_config: &WalkForwardConfig,
        klines_1m: &[OHLCData],
        symbol: &str,
        source: &M,
    ) -> (r: Option<Result<WalkForwardResult, String>>)
        requires
            forall|x: ()| call_requires(*factory, x),
            wf_config.step_candles > 0,
            wf_config.train_candles > 0,
            wf_config.test_candles > 0,
            wf_config.train_candles + wf_config.test_candles <= usize::MAX,
            klines_1m@.len() + wf_config.step_candles <= usize::MAX,
        ensures
            match r {
                Some(Ok(res)) => exists|rounds: Seq<WalkForwardRound>, plans: Seq<WindowPlan>|
                    #[trigger] rounds_follow(*factory, *config, symbol@, rounds, plans, klines_1m@)
                    && planned(plans, *wf_config, klines_1m@.len())
                    && aggregated_is(res, rounds, wf_config.overfit_threshold),
                Some(Err(e)) => {
                    ||| klines_1m@.len() < wf_config.train_candles + wf_config.test_candles
                        && e@ == insufficient_data_text(
                        (wf_config.train_candles + wf_config.test_candles) as nat,
                        klines_1m@.len() as nat,
                    )
                    ||| klines_1m@.len() >= wf_config.train_candles + wf_config.test_candles
                        && exists|rounds: Seq<WalkForwardRound>, plans: Seq<WindowPlan>, k: int|
                        #[trigger] rounds_follow(*factory, *config, symbol@, rounds, plans.take(k), klines_1m@)
                        && planned(plans, *wf_config, klines_1m@.len())
                        && 0 <= k < plans.len()
                        && round_fails(*factory, *config, symbol@, klines_1m@, plans[k], Some(e))
                },
                None => {
                    &&& klines_1m@.len() >= wf_config.train_candles + wf_config.test_candles
                    &&& exists|rounds: Seq<WalkForwardRound>, plans: Seq<WindowPlan>, k: int|
                        #[trigger] rounds_follow(*factory, *config, symbol@, rounds, plans.take(k), klines_1m@)
                        && planned(plans, *wf_config, klines_1m@.len())
                        && 0 <= k <= plans.len()
                        && if k < plans.len() {
                            round_fails(*factory, *config, symbol@, klines_1m@, plans[k], None)
                        } else {
                            !aggregate_ok(rounds)
                        }
                },
            },
            klines_1m@.len() < wf_config.train_candles + wf_config.test_candles ==> (r matches Some(Err(e)) && e@
                == insufficient_data_text((wf_config.train_candles + wf_config.test_candles) as nat, klines_1m@.len() as nat)),
    {
        let plans = match plan_windows(klines_1m.len(), wf_config) {
            Ok(p) => p,
            Err(e) => return Some(Err(e)),
        };
        let ghost bars = klines_1m@;
        let ghost sym = symbol@;
        let mut rounds: Vec<WalkForwardRound> = Vec::new();
        let mut k: usize = 0;
        while k < plans.len()
            invariant
                forall|x: ()| call_requires(*factory, x),
                wf_config.train_candles > 0,
                wf_config.test_candles > 0,
                bars == klines_1m@,
                sym == symbol@,
                planned(plans@, *wf_config, klines_1m@.len()),
                klines_1m@.len() >= wf_config.train_candles + wf_config.test_candles,
                k <= plans@.len(),
                rounds_follow(*factory, *config, sym, rounds@, plans@.take(k as int), bars),
            decreases plans@.len() - k,
        {
            let plan = plans[k];
            proof {
                assert(is_window(plans@[k as int], k as int, *wf_config));
            }
            let train = copy_range(klines_1m, plan.train_start, plan.train_end);
            let test = copy_range(klines_1m, plan.test_start, plan.test_end);
            let train_start = klines_1m[plan.train_start].timestamp;
            let train_end = klines_1m[plan.train_end - 1].timestamp;
            let test_start = klines_1m[plan.test_start].timestamp;
            let test_end = klines_1m[plan.test_end - 1].timestamp;
            let train_result = match backtest_fresh(factory, config, symbol, train, source) {
                Some(Ok(res)) => res,
                Some(Err(e)) => {
                    proof {
                        assert(round_fails(*factory, *config, sym, bars, plans@[k as int], Some(e)));
                    }
                    return Some(Err(e));
                },
                None => {
                    proof {
                        assert(round_fails(*factory, *config, sym, bars, plans@[k as int], None));
                    }
                    return None;
                },
            };
            let test_result = match backtest_fresh(factory, config, symbol, test, source) {
                Some(Ok(res)) => res,
                Some(Err(e)) => {
                    proof {
                        assert(round_fails(*factory, *config, sym, bars, plans@[k as int], Some(e)));
                    }
                    return Some(Err(e));
                },
                None => {
                    proof {
                        assert(round_fails(*factory, *config, sym, bars, plans@[k as int], None));
                    }
                    return None;
                },
            };
            let overfit_ratio = match Self::try_calculate_overfit_ratio(train_result.sharpe_ratio, test_result.sharpe_ratio) {
                Some(v) => v,
                None => {
                    proof {
                        assert(round_fails(*factory, *config, sym, bars, plans@[k as int], None));
                    }
                    return None;
                },
            };
            let ghost before = rounds@;
            rounds.push(WalkForwardRound {
                round: k + 1,
                train_start,
                train_end,
                test_start,
                test_end,
                train_result,
                test_result,
                overfit_ratio,
            });
            proof {
                assert(plans@.take(k + 1int)[k as int] == plans@[k as int]);
                assert forall|j: int| 0 <= j < rounds@.len() implies {
                    let r = #[trigger] rounds@[j];
                    let p = plans@.take(k + 1int)[j];
                    &&& r.round == j + 1
                    &&& r.train_start == bars[p.train_start as int].timestamp
                    &&& r.train_end == bars[p.train_end - 1].timestamp
                    &&& r.test_start == bars[p.test_start as int].timestamp
                    &&& r.test_end == bars[p.test_end - 1].timestamp
                    &&& window_ran(*factory, *config, sym, train_bars(bars, p), Some(Ok(r.train_result)))
                    &&& window_ran(*factory, *config, sym, test_bars(bars, p), Some(Ok(r.test_result)))
                    &&& overfit_ratio_of(r.train_result.sharpe_ratio, r.test_result.sharpe_ratio) == Some(r.overfit_ratio)
                } by {
                    if j < k {
                        assert(plans@.take(k + 1int)[j] == plans@.take(k as int)[j]);
                        assert(rounds@[j] == before[j]);
                    }
                }
            }
            k = k + 1;
        }
        proof {
            assert(plans@.take(plans@.len() as int) =~= plans@);
        }
        match Self::try_aggregate_rounds(&rounds, wf_config.overfit_threshold) {
            Some(res) => Some(Ok(res)),
            None => None,
        }
    }
}

/// The result of an out-of-sample test.
pub struct OutOfSampleResult {
    pub train_result: BacktestResult,
    pub test_result: BacktestResult,
    pub overfit_ratio: Dec,
    /// Whether the overfitting ratio is above 0.5.
    pub is_overfit: bool,
    pub train_sharpe: Dec,
    pub test_sharpe: Dec,
}

/// The windows of an out-of-sample test over `total` bars: training on the first `k` bars,
/// testing on the rest.
pub open spec fn split_plan(k: int, total: nat) -> WindowPlan {
    WindowPlan { train_start: 0, train_end: k as usize, test_start: k as usize, test_end: total as usize }
}

impl WalkForwardEngine {
    /// Runs an out-of-sample test: a backtest on the training part and one on the rest, each with
    /// a fresh strategy, and the overfitting ratio of the two. Refused below 1000 bars, or with
    /// the error of a strategy's initialisation; `None` where the decimal arithmetic overflows or
    /// the training part would end past the data (where the slicing panics).
    pub fn run_out_of_sample<S: MultiTimeframeStrategy, F: Fn() -> S, M: RiskMetricsSource>(
        factory: &F,
        config: &BacktestConfig,
        os_config: &OutOfSampleConfig,
        klines_1m: &[OHLCData],
        symbol: &str,
        source: &M,
    ) -> (r: Option<Result<OutOfSampleResult, String>>)
        requires
            forall|x: ()| call_requires(*factory, x),
            klines_1m@.len() * 7 <= usize::MAX,
        ensures
            ({
                let n = klines_1m@.len();
                let k = train_end_of(n, os_config.train_ratio);
                let splits = n >= 1000 && crate::decimal::can_mul(count_dec(n as int), os_config.train_ratio) && k <= n;
                match r {
                    Some(Ok(res)) => {
                        &&& splits
                        &&& window_ran(*factory, *config, symbol@, klines_1m@.subrange(0, k), Some(Ok(res.train_result)))
                        &&& window_ran(*factory, *config, symbol@, klines_1m@.subrange(k, n as int), Some(Ok(res.test_result)))
                        &&& res.train_sharpe == res.train_result.sharpe_ratio
                        &&& res.test_sharpe == res.test_result.sharpe_ratio
                        &&& overfit_ratio_of(res.train_sharpe, res.test_sharpe) == Some(res.overfit_ratio)
                        &&& res.is_overfit == (res.overfit_ratio.value() > Dec::spec_new(5, 1).value())
                    },
                    Some(Err(e)) => {
                        ||| n < 1000 && e@ == "Insufficient data: need at least 1000 candles"@
                        ||| splits && round_fails(*factory, *config, symbol@, klines_1m@, split_plan(k, n), Some(e))
                    },
                    None => n >= 1000 && (!splits || round_fails(*factory, *config, symbol@, klines_1m@, split_plan(k, n), None)),
                }
            }),
            klines_1m@.len() < 1000 ==> (r matches Some(Err(e)) && e@ == "Insufficient data: need at least 1000 candles"@),
    {
        let total = klines_1m.len();
        if total >= 1000 && Dec::from_usize(total).checked_mul(os_config.train_ratio).is_none() {
            return None;
        }
        let train_end = match out_of_sample_split(total, os_config) {
            Ok(n) => n,
            Err(e) => return Some(Err(e)),
        };
        if train_end > total {
            return None;
        }
        let ghost plan = split_plan(train_end as int, total as nat);
        let train = copy_range(klines_1m, 0, train_end);
        let test = copy_range(klines_1m, train_end, total);
        proof {
            assert(train@ == train_bars(klines_1m@, plan));
            assert(test@ == test_bars(klines_1m@, plan));
        }
        let train_result = match backtest_fresh(factory, config, symbol, train, source) {
            Some(Ok(res)) => res,
            Some(Err(e)) => {
                proof {
                    assert(round_fails(*factory, *config, symbol@, klines_1m@, plan, Some(e)));
                }
                return Some(Err(e));
            },
            None => {
                proof {
                    assert(round_fails(*factory, *config, symbol@, klines_1m@, plan, None));
                }
                return None;
            },
        };
        let test_result = match backtest_fresh(factory, config, symbol, test, source) {
            Some(Ok(res)) => res,
            Some(Err(e)) => {
                proof {
                    assert(round_fails(*factory, *config, symbol@, klines_1m@, plan, Some(e)));
                }
                return Some(Err(e));
            },
            None => {
                proof {
                    assert(round_fails(*factory, *config, symbol@, klines_1m@, plan, None));
                }
                return None;
            },
        };
        let train_sharpe = train_result.sharpe_ratio;
        let test_sharpe = test_result.sharpe_ratio;
        let overfit_ratio = match Self::try_calculate_overfit_ratio(train_sharpe, test_sharpe) {
            Some(v) => v,
            None => {
                proof {
                    assert(round_fails(*factory, *config, symbol@, klines_1m@, plan, None));
                }
                return None;
            },
        };
        let is_overfit = is_out_of_sample_overfit(overfit_ratio);
        Some(Ok(OutOfSampleResult { train_result, test_result, overfit_ratio, is_overfit, train_sharpe, test_sharpe }))
    }
}

} // verus!
