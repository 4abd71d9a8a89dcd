//! Backtests over several symbols: the checks on the input and the summary of the results.
use crate::decimal::{decimal_checked_div, seq_sum, Dec};
use crate::engine::{BacktestConfig, BacktestResult, RiskMetricsSource};
use crate::market_state::MarketStateAnalyzer;
use crate::mtf_engine::{backtest_fresh, window_ran};
use crate::strategy::MultiTimeframeStrategy;
use crate::types::OHLCData;
use crate::indicators::count_dec;
use crate::market_state::{analysis_ok, report_is, MarketStateReport};
use crate::seqs::{count_of, lemma_count_of_step};
use crate::walk_forward::average_of;
use vstd::prelude::*;
use vstd::string::StringExecFns;

verus! {

/// The backtest of one symbol.
pub struct SymbolBacktestResult {
    pub symbol: String,
    pub result: BacktestResult,
    pub market_state: MarketStateReport,
}

/// The summary of the backtests of several symbols.
pub struct MultiSymbolBacktestResult {
    pub results: Vec<SymbolBacktestResult>,
    pub total_symbols: usize,
    pub profitable_symbols: usize,
    pub losing_symbols: usize,
    pub avg_return_pct: Dec,
    pub avg_sharpe: Dec,
    pub avg_win_rate: Dec,
    pub avg_max_drawdown: Dec,
    pub total_trades: usize,
    pub best_symbol: String,
    pub best_return_pct: Dec,
    pub worst_symbol: String,
    pub worst_return_pct: Dec,
    /// The share of symbols on the majority side (positive or not positive return).
    pub cross_symbol_correlation: Dec,
}

/// The most negative decimal (`Decimal::MIN`).
pub open spec fn decimal_min() -> Dec {
    Dec::spec_new(-79228162514264337593543950335, 0)
}

/// The largest decimal (`Decimal::MAX`).
pub open spec fn decimal_max() -> Dec {
    Dec::spec_new(79228162514264337593543950335, 0)
}

/// The index and value of the first strictly highest return above `Decimal::MIN`, if any (-1
/// for none).
pub open spec fn best_of(rets: Seq<Dec>) -> (int, Dec)
    decreases rets.len(),
{
    if rets.len() == 0 {
        (-1, decimal_min())
    } else {
        let prev = best_of(rets.drop_last());
        if rets.last().value() > prev.1.value() {
            (rets.len() - 1, rets.last())
        } else {
            prev
        }
    }
}

/// The index and value of the first strictly lowest return below `Decimal::MAX`, if any (-1
/// for none).
pub open spec fn worst_of(rets: Seq<Dec>) -> (int, Dec)
    decreases rets.len(),
{
    if rets.len() == 0 {
        (-1, decimal_max())
    } else {
        let prev = worst_of(rets.drop_last());
        if rets.last().value() < prev.1.value() {
            (rets.len() - 1, rets.last())
        } else {
            prev
        }
    }
}

/// The sum of the trade counts.
pub open spec fn trades_total(rs: Seq<SymbolBacktestResult>) -> nat
    decreases rs.len(),
{
    if rs.len() == 0 {
        0
    } else {
        trades_total(rs.drop_last()) + rs.last().result.total_trades as nat
    }
}

/// The returns of the symbols.
pub open spec fn returns_of(rs: Seq<SymbolBacktestResult>) -> Seq<Dec> {
    rs.map_values(|r: SymbolBacktestResult| r.result.return_percentage)
}

/// Every average of the summary can be computed.
pub open spec fn summary_ok(rs: Seq<SymbolBacktestResult>) -> bool {
    &&& rs.len() > 0
    &&& trades_total(rs) <= usize::MAX
    &&& average_of(returns_of(rs)) is Some
    &&& average_of(rs.map_values(|r: SymbolBacktestResult| r.result.sharpe_ratio)) is Some
    &&& average_of(rs.map_values(|r: SymbolBacktestResult| r.result.win_rate)) is Some
    &&& average_of(rs.map_values(|r: SymbolBacktestResult| r.result.max_drawdown)) is Some
}

/// Whether `r` summarises the symbols' results: counts of profitable ones, averages, the total
/// trades, the best and worst returns (the first of equals), and the majority share.
pub open spec fn summary_is(r: MultiSymbolBacktestResult, rs: Seq<SymbolBacktestResult>) -> bool {
    let n = rs.len();
    let rets = returns_of(rs);
    let profitable = count_of(rs.map_values(|x: SymbolBacktestResult| x.result.total_pnl.value() > 0));
    let positive = count_of(rets.map_values(|x: Dec| x.value() > 0));
    let majority = if positive >= n - positive { positive } else { (n - positive) as nat };
    let best = best_of(rets);
    let worst = worst_of(rets);
    &&& r.results@ == rs
    &&& r.total_symbols == n
    &&& r.profitable_symbols == profitable
    &&& r.losing_symbols == n - profitable
    &&& r.avg_return_pct == average_of(rets)->0
    &&& r.avg_sharpe == average_of(rs.map_values(|x: SymbolBacktestResult| x.result.sharpe_ratio))->0
    &&& r.avg_win_rate == average_of(rs.map_values(|x: SymbolBacktestResult| x.result.win_rate))->0
    &&& r.avg_max_drawdown == average_of(rs.map_values(|x: SymbolBacktestResult| x.result.max_drawdown))->0
    &&& r.total_trades == trades_total(rs)
    &&& r.best_return_pct == best.1
    &&& r.best_symbol@ == if best.0 >= 0 { rs[best.0].symbol@ } else { Seq::empty() }
    &&& r.worst_return_pct == worst.1
    &&& r.worst_symbol@ == if worst.0 >= 0 { rs[worst.0].symbol@ } else { Seq::empty() }
    &&& r.cross_symbol_correlation == decimal_checked_div(count_dec(majority as int), count_dec(n as int))->0
}

fn try_average(xs: &Vec<Dec>) -> (r: Option<Dec>)
    ensures
        r == average_of(xs@),
{
    match Dec::try_sum_slice(xs.as_slice()) {
        Some(total) => total.checked_div(Dec::from_usize(xs.len())),
        None => None,
    }
}

/// Backtests of several symbols, one engine per symbol.
pub struct MultiSymbolBacktestEngine;

impl MultiSymbolBacktestEngine {
    /// Summarises the symbols' results.
    pub fn aggregate_results(results: Vec<SymbolBacktestResult>) -> (r: MultiSymbolBacktestResult)
        requires
            summary_ok(results@),
        ensures
            summary_is(r, results@),
    {
        let ghost rs = results@;
        let ghost rets = returns_of(rs);
        let ghost pflags = rs.map_values(|x: SymbolBacktestResult| x.result.total_pnl.value() > 0);
        let ghost posflags = rets.map_values(|x: Dec| x.value() > 0);
        let total = results.len();
        let mut return_values: Vec<Dec> = Vec::new();
        let mut sharpes: Vec<Dec> = Vec::new();
        let mut win_rates: Vec<Dec> = Vec::new();
        let mut drawdowns: Vec<Dec> = Vec::new();
        let mut profitable: usize = 0;
        let mut positive: usize = 0;
        let mut trades: usize = 0;
        let mut best: usize = 0;
        let mut best_return = Dec::from_i128_with_scale(-79228162514264337593543950335, 0);
        let mut has_best = false;
        let mut worst: usize = 0;
        let mut worst_return = Dec::from_i128_with_scale(79228162514264337593543950335, 0);
        let mut has_worst = false;
        let zero = Dec::zero();
        let mut i: usize = 0;
        while i < results.len()
            invariant
                rs == results@,
                rets == returns_of(rs),
                pflags == rs.map_values(|x: SymbolBacktestResult| x.result.total_pnl.value() > 0),
                posflags == rets.map_values(|x: Dec| x.value() > 0),
                trades_total(rs) <= usize::MAX,
                zero.value() == 0,
                i <= rs.len(),
                return_values@ == rets.take(i as int),
                sharpes@ == rs.take(i as int).map_values(|x: SymbolBacktestResult| x.result.sharpe_ratio),
                win_rates@ == rs.take(i as int).map_values(|x: SymbolBacktestResult| x.result.win_rate),
                drawdowns@ == rs.take(i as int).map_values(|x: SymbolBacktestResult| x.result.max_drawdown),
                profitable == count_of(pflags.take(i as int)),
                profitable <= i,
                positive == count_of(posflags.take(i as int)),
                positive <= i,
                trades == trades_total(rs.take(i as int)),
                best_of(rets.take(i as int)) == (if has_best { best as int } else { -1 }, best_return),
                has_best ==> best < i,
                worst_of(rets.take(i as int)) == (if has_worst { worst as int } else { -1 }, worst_return),
                has_worst ==> worst < i,
            decreases rs.len() - i,
        {
            let r = &results[i];
            proof {
                lemma_count_of_step(pflags, i as nat);
                lemma_count_of_step(posflags, i as nat);
                assert(rets.take(i + 1int).drop_last() =~= rets.take(i as int));
                assert(rs.take(i + 1int).drop_last() =~= rs.take(i as int));
                lemma_trades_total_prefix(rs, (i + 1) as nat);
            }
            let ret = r.result.return_percentage;
            if r.result.is_profitable() {
                profitable = profitable + 1;
            }
            if ret.gt(&zero) {
                positive = positive + 1;
            }
            trades = trades + r.result.total_trades;
            if ret.gt(&best_return) {
                best_return = ret;
                best = i;
                has_best = true;
            }
            if ret.lt(&worst_return) {
                worst_return = ret;
                worst = i;
                has_worst = true;
            }
            return_values.push(ret);
            sharpes.push(r.result.sharpe_ratio);
            win_rates.push(r.result.win_rate);
            drawdowns.push(r.result.max_drawdown);
            proof {
                assert(return_values@ =~= rets.take(i + 1int));
                assert(sharpes@ =~= rs.take(i + 1int).map_values(|x: SymbolBacktestResult| x.result.sharpe_ratio));
                assert(win_rates@ =~= rs.take(i + 1int).map_values(|x: SymbolBacktestResult| x.result.win_rate));
                assert(drawdowns@ =~= rs.take(i + 1int).map_values(|x: SymbolBacktestResult| x.result.max_drawdown));
            }
            i = i + 1;
        }
        proof {
            assert(rs.take(rs.len() as int) =~= rs);
            assert(rets.take(rets.len() as int) =~= rets);
            assert(pflags.take(pflags.len() as int) =~= pflags);
            assert(posflags.take(posflags.len() as int) =~= posflags);
        }
        let avg_return = match try_average(&return_values) {
            Some(v) => v,
            None => vstd::pervasive::unreached(),
        };
        let avg_sharpe = match try_average(&sharpes) {
            Some(v) => v,
            None => vstd::pervasive::unreached(),
        };
        let avg_win_rate = match try_average(&win_rates) {
            Some(v) => v,
            None => vstd::pervasive::unreached(),
        };
        let avg_max_drawdown = match try_average(&drawdowns) {
            Some(v) => v,
            None => vstd::pervasive::unreached(),
        };
        let negative = total - positive;
        let majority = if positive >= negative {
            positive
        } else {
            negative
        };
        proof {
            crate::decimal::lemma_pow10_pos(28);
            vstd::arithmetic::mul::lemma_mul_inequality(majority as int, total as int, crate::decimal::pow10(28));
            vstd::arithmetic::mul::lemma_mul_nonnegative(majority as int, crate::decimal::pow10(28));
        }
        let correlation = match Dec::from_usize(majority).checked_div(Dec::from_usize(total)) {
            Some(v) => v,
            None => vstd::pervasive::unreached(),
        };
        let best_symbol = if has_best {
            String::from_str(results[best].symbol.as_str())
        } else {
            String::new()
        };
        let worst_symbol = if has_worst {
            String::from_str(results[worst].symbol.as_str())
        } else {
            String::new()
        };
        MultiSymbolBacktestResult {
            results,
            total_symbols: total,
            profitable_symbols: profitable,
            losing_symbols: total - profitable,
            avg_return_pct: avg_return,
            avg_sharpe,
            avg_win_rate,
            avg_max_drawdown,
            total_trades: trades,
            best_symbol,
            best_return_pct: best_return,
            worst_symbol,
            worst_return_pct: worst_return,
            cross_symbol_correlation: correlation,
        }
    }
}

proof fn lemma_trades_total_prefix(rs: Seq<SymbolBacktestResult>, k: nat)
    requires
        k <= rs.len(),
    ensures
        trades_total(rs.take(k as int)) <= trades_total(rs),
        k > 0 ==> trades_total(rs.take(k as int)) == trades_total(rs.take(k - 1)) + rs[k - 1].result.total_trades,
    decreases rs.len() - k,
{
    if k < rs.len() {
        lemma_trades_total_prefix(rs, k + 1);
        assert(rs.take(k + 1int).drop_last() =~= rs.take(k as int));
    } else {
        assert(rs.take(k as int) =~= rs);
    }
    if k > 0 {
        assert(rs.take(k as int).drop_last() =~= rs.take(k - 1));
    }
}

/// Refuses a backtest over no symbols.
pub fn check_symbol_data(symbol_count: usize) -> (r: Result<(), String>)
    ensures
        r is Ok <==> symbol_count > 0,
        r matches Err(e) ==> e@ == "No symbol data provided"@,
{
    if symbol_count == 0 {
        return Err(String::from_str("No symbol data provided"));
    }
    Ok(())
}

/// The summary of the symbols' results; refused when none produced a result.
pub fn collect_results(results: Vec<SymbolBacktestResult>) -> (r: Result<MultiSymbolBacktestResult, String>)
    requires
        results@.len() > 0 ==> summary_ok(results@),
    ensures
        r is Ok <==> results@.len() > 0,
        match r {
            Ok(s) => summary_is(s, results@),
            Err(e) => e@ == "No valid backtest results"@,
        },
{
    if results.len() == 0 {
        return Err(String::from_str("No valid backtest results"));
    }
    Ok(MultiSymbolBacktestEngine::aggregate_results(results))
}

/// Whether every average of the summary can be computed.
pub fn can_aggregate(results: &Vec<SymbolBacktestResult>) -> (r: bool)
    ensures
        r == summary_ok(results@),
{
    let ghost rs = results@;
    if results.len() == 0 {
        return false;
    }
    let mut rets: Vec<Dec> = Vec::new();
    let mut sharpes: Vec<Dec> = Vec::new();
    let mut win_rates: Vec<Dec> = Vec::new();
    let mut drawdowns: Vec<Dec> = Vec::new();
    let mut trades: usize = 0;
    let mut i: usize = 0;
    while i < results.len()
        invariant
            rs == results@,
            i <= rs.len(),
            rets@ == returns_of(rs.take(i as int)),
            sharpes@ == rs.take(i as int).map_values(|x: SymbolBacktestResult| x.result.sharpe_ratio),
            win_rates@ == rs.take(i as int).map_values(|x: SymbolBacktestResult| x.result.win_rate),
            drawdowns@ == rs.take(i as int).map_values(|x: SymbolBacktestResult| x.result.max_drawdown),
            trades == trades_total(rs.take(i as int)),
        decreases rs.len() - i,
    {
        proof {
            lemma_trades_total_prefix(rs, (i + 1) as nat);
            lemma_trades_total_prefix(rs, rs.len());
        }
        let r = &results[i];
        if r.result.total_trades > usize::MAX - trades {
            proof {
                lemma_trades_total_grows(rs, (i + 1) as nat);
            }
            return false;
        }
        trades = trades + r.result.total_trades;
        rets.push(r.result.return_percentage);
        sharpes.push(r.result.sharpe_ratio);
        win_rates.push(r.result.win_rate);
        drawdowns.push(r.result.max_drawdown);
        proof {
            assert(rets@ =~= returns_of(rs.take(i + 1int)));
            assert(sharpes@ =~= rs.take(i + 1int).map_values(|x: SymbolBacktestResult| x.result.sharpe_ratio));
            assert(win_rates@ =~= rs.take(i + 1int).map_values(|x: SymbolBacktestResult| x.result.win_rate));
            assert(drawdowns@ =~= rs.take(i + 1int).map_values(|x: SymbolBacktestResult| x.result.max_drawdown));
        }
        i = i + 1;
    }
    proof {
        assert(rs.take(rs.len() as int) =~= rs);
    }
    try_average(&rets).is_some() && try_average(&sharpes).is_some() && try_average(&win_rates).is_some()
        && try_average(&drawdowns).is_some()
}

proof fn lemma_trades_total_grows(rs: Seq<SymbolBacktestResult>, k: nat)
    requires
        k <= rs.len(),
    ensures
        trades_total(rs.take(k as int)) <= trades_total(rs),
{
    lemma_trades_total_prefix(rs, k);
}

/// The symbols that have bars, in order.
pub open spec fn symbols_with_bars(data: Seq<(String, Vec<OHLCData>)>) -> Seq<Seq<char>>
    decreases data.len(),
{
    if data.len() == 0 {
        Seq::empty()
    } else {
        let prev = symbols_with_bars(data.drop_last());
        if data.last().1@.len() > 0 {
            prev.push(data.last().0@)
        } else {
            prev
        }
    }
}

/// The bars of the symbols that have bars, in order.
pub open spec fn bars_with_data(data: Seq<(String, Vec<OHLCData>)>) -> Seq<Seq<OHLCData>>
    decreases data.len(),
{
    if data.len() == 0 {
        Seq::empty()
    } else {
        let prev = bars_with_data(data.drop_last());
        if data.last().1@.len() > 0 {
            prev.push(data.last().1@)
        } else {
            prev
        }
    }
}

/// There are as many bar series as symbols with bars.
proof fn lemma_bars_with_data_len(data: Seq<(String, Vec<OHLCData>)>)
    ensures
        bars_with_data(data).len() == symbols_with_bars(data).len(),
    decreases data.len(),
{
    if data.len() > 0 {
        lemma_bars_with_data_len(data.drop_last());
    }
}

/// A symbol with bars anywhere in the data is listed.
proof fn lemma_has_bars(data: Seq<(String, Vec<OHLCData>)>, i: int)
    requires
        0 <= i < data.len(),
        data[i].1@.len() > 0,
    ensures
        symbols_with_bars(data).len() > 0,
    decreases data.len(),
{
    if i < data.len() - 1 {
        lemma_has_bars(data.drop_last(), i);
    }
}

/// Whether the results are those of the symbols with bars, in order: each the backtest of the
/// symbol's own bars with a fresh strategy from the factory, with the market-state report of
/// those bars.
pub open spec fn results_follow<S: MultiTimeframeStrategy, F: Fn() -> S>(
    factory: F,
    config: BacktestConfig,
    data: Seq<(String, Vec<OHLCData>)>,
    window: nat,
    rs: Seq<SymbolBacktestResult>,
) -> bool {
    &&& rs.map_values(|x: SymbolBacktestResult| x.symbol@) == symbols_with_bars(data)
    &&& rs.len() == bars_with_data(data).len()
    &&& forall|k: int| 0 <= k < rs.len() ==> {
        &&& report_is((#[trigger] rs[k]).market_state, bars_with_data(data)[k], window)
        &&& window_ran(factory, config, rs[k].symbol@, bars_with_data(data)[k], Some(Ok(rs[k].result)))
    }
}

impl MultiSymbolBacktestEngine {
    /// Runs the backtest of each symbol that has bars, with a fresh strategy each, and analyses the
    /// market state of its bars; then summarises them. Refused for no symbols or when none had
    /// bars, or with the error of a strategy's initialisation; `None` where the decimal arithmetic
    /// overflows (where `Decimal` panics).
    pub fn run<S: MultiTimeframeStrategy, F: Fn() -> S, M: RiskMetricsSource>(
        factory: &F,
        config: &BacktestConfig,
        symbol_data: &Vec<(String, Vec<OHLCData>)>,
        market_state_window: usize,
        source: &M,
    ) -> (r: Option<Result<MultiSymbolBacktestResult, String>>)
        requires
            forall|x: ()| call_requires(*factory, x),
            forall|i: int| 0 <= i < symbol_data@.len() ==> (#[trigger] symbol_data@[i]).1@.len() + market_state_window + 20 <= usize::MAX,
        ensures
            match r {
                Some(Ok(res)) => {
                    &&& summary_is(res, res.results@)
                    &&& results_follow(*factory, *config, symbol_data@, market_state_window as nat, res.results@)
                },
                Some(Err(e)) => {
                    ||| symbol_data@.len() == 0 && e@ == "No symbol data provided"@
                    ||| symbol_data@.len() > 0 && symbols_with_bars(symbol_data@).len() == 0 && e@ == "No valid backtest results"@
                    ||| exists|i: int| 0 <= i < symbol_data@.len() && (#[trigger] symbol_data@[i]).1@.len() > 0
                        && window_ran(*factory, *config, symbol_data@[i].0@, symbol_data@[i].1@, Some(Err(e)))
                },
                None => {
                    ||| exists|i: int| 0 <= i < symbol_data@.len() && (#[trigger] symbol_data@[i]).1@.len() > 0
                        && window_ran(*factory, *config, symbol_data@[i].0@, symbol_data@[i].1@, None)
                    ||| exists|i: int, a: BacktestResult| 0 <= i < symbol_data@.len() && symbol_data@[i].1@.len() > 0
                        && #[trigger] window_ran(*factory, *config, symbol_data@[i].0@, symbol_data@[i].1@, Some(Ok(a)))
                        && !analysis_ok(symbol_data@[i].1@, market_state_window as nat)
                    ||| exists|rs: Seq<SymbolBacktestResult>| #[trigger] results_follow(*factory, *config, symbol_data@, market_state_window as nat, rs)
                        && rs.len() > 0 && !summary_ok(rs)
                },
            },
            symbol_data@.len() == 0 ==> (r matches Some(Err(e)) && e@ == "No symbol data provided"@),
            symbol_data@.len() > 0 && symbols_with_bars(symbol_data@).len() == 0 ==> (r matches Some(Err(e)) && e@
                == "No valid backtest results"@),
    {
        match check_symbol_data(symbol_data.len()) {
            Ok(()) => {},
            Err(e) => return Some(Err(e)),
        }
        let mut results: Vec<SymbolBacktestResult> = Vec::new();
        let mut i: usize = 0;
        proof {
            assert(symbol_data@.take(0) =~= Seq::<(String, Vec<OHLCData>)>::empty());
            assert(results@.map_values(|x: SymbolBacktestResult| x.symbol@) =~= Seq::<Seq<char>>::empty());
        }
        while i < symbol_data.len()
            invariant
                forall|x: ()| call_requires(*factory, x),
                forall|j: int| 0 <= j < symbol_data@.len() ==> (#[trigger] symbol_data@[j]).1@.len() + market_state_window + 20 <= usize::MAX,
                i <= symbol_data@.len(),
                symbol_data@.len() > 0,
                results_follow(*factory, *config, symbol_data@.take(i as int), market_state_window as nat, results@),
            decreases symbol_data@.len() - i,
        {
            proof {
                assert(symbol_data@.take(i + 1int).drop_last() =~= symbol_data@.take(i as int));
                assert(symbol_data@.take(i + 1int).last() == symbol_data@[i as int]);
            }
            let symbol = &symbol_data[i].0;
            let klines = &symbol_data[i].1;
            if klines.len() > 0 {
                proof {
                    lemma_has_bars(symbol_data@, i as int);
                }
                let data = crate::walk_forward::copy_range(klines.as_slice(), 0, klines.len());
                proof {
                    assert(data@ =~= klines@);
                }
                let result = match backtest_fresh(factory, config, symbol.as_str(), data, source) {
                    Some(Ok(res)) => res,
                    Some(Err(e)) => {
                        proof {
                            assert(symbol_data@[i as int].1@.len() > 0);
                        }
                        return Some(Err(e));
                    },
                    None => {
                        proof {
                            assert(symbol_data@[i as int].1@.len() > 0);
                        }
                        return None;
                    },
                };
                proof {
                    assert(symbol_data@[i as int].1@.len() + market_state_window + 20 <= usize::MAX);
                }
                let market_state = match MarketStateAnalyzer::try_analyze(klines.as_slice(), market_state_window) {
                    Some(m) => m,
                    None => {
                        proof {
                            assert(symbol_data@[i as int].1@.len() > 0);
                        }
                        return None;
                    },
                };
                let ghost before = results@;
                let entry = SymbolBacktestResult { symbol: symbol.clone(), result, market_state };
                results.push(entry);
                proof {
                    assert(results@.map_values(|x: SymbolBacktestResult| x.symbol@) =~= before.map_values(
                        |x: SymbolBacktestResult| x.symbol@,
                    ).push(symbol@));
                    let d = symbol_data@.take(i + 1int);
                    assert(bars_with_data(d) == bars_with_data(symbol_data@.take(i as int)).push(klines@));
                    assert forall|k: int| 0 <= k < results@.len() implies {
                        &&& report_is((#[trigger] results@[k]).market_state, bars_with_data(d)[k], market_state_window as nat)
                        &&& window_ran(*factory, *config, results@[k].symbol@, bars_with_data(d)[k], Some(Ok(results@[k].result)))
                    } by {
                        if k < before.len() {
                            assert(results@[k] == before[k]);
                        }
                    }
                }
            } else {
                proof {
                    let d = symbol_data@.take(i + 1int);
                    assert(bars_with_data(d) == bars_with_data(symbol_data@.take(i as int)));
                    assert(symbols_with_bars(d) == symbols_with_bars(symbol_data@.take(i as int)));
                }
            }
            i = i + 1;
        }
        proof {
            assert(symbol_data@.take(symbol_data@.len() as int) =~= symbol_data@);
        }
        if results.len() == 0 {
            proof {
                lemma_bars_with_data_len(symbol_data@);
            }
            return Some(Err(String::from_str("No valid backtest results")));
        }
        if !can_aggregate(&results) {
            return None;
        }
        let res = Self::aggregate_results(results);
        Some(Ok(res))
    }
}

} // verus!
