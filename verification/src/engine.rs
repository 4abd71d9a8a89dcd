//! Backtest configuration, the tick and bar backtest engine's steps, and the figures of a
//! finished backtest.
use crate::decimal::Dec;
use crate::seqs::{count_of, lemma_count_of_step};
use crate::decimal::{can_div, can_mul, product, quotient};
use crate::equity::{equity_curve_spec, lemma_curve_shape};
use crate::portfolio::{copy_positions, copy_trades, error_text, Portfolio, PortfolioModel, Position, Trade};
use crate::strategy::{param_value, Signal, Strategy};
use crate::text::str_eq;
use crate::types::{OHLCData, TickData, TradeSide};
use vstd::pervasive::VecAdditionalExecFns;
use vstd::prelude::*;
use vstd::string::StringExecFns;

verus! {

/// Settings of a backtest.
pub struct BacktestConfig {
    pub initial_capital: Dec,
    /// e.g. 0.001 for 0.1%
    pub commission_rate: Dec,
    /// e.g. 0.0001 for 0.01%
    pub slippage_pct: Dec,
    /// Strategy parameters, at most one entry per key.
    pub strategy_params: Vec<(String, String)>,
}

/// The parameters after `key` is set to `value`: the first entry for the key takes the value,
/// or a new entry is appended.
pub open spec fn params_with(params: Seq<(String, String)>, key: String, value: String) -> Seq<(String, String)>
    decreases params.len(),
{
    if params.len() == 0 {
        seq![(key, value)]
    } else if params[0].0@ == key@ {
        params.update(0, (key, value))
    } else {
        seq![params[0]] + params_with(params.drop_first(), key, value)
    }
}

/// Reading a parameter after setting it gives the value set; every other key reads as before.
pub proof fn lemma_param_after_set(params: Seq<(String, String)>, key: String, value: String, other: Seq<char>)
    ensures
        param_value(params_with(params, key, value), key@) == Some(value),
        other != key@ ==> param_value(params_with(params, key, value), other) == param_value(params, other),
    decreases params.len(),
{
    let r = params_with(params, key, value);
    if params.len() == 0 {
        assert(r.drop_first() =~= Seq::<(String, String)>::empty());
        assert(r[0] == (key, value));
        assert(param_value(r.drop_first(), other) is None);
    } else if params[0].0@ == key@ {
        assert(r.drop_first() =~= params.drop_first());
        assert(r[0] == (key, value));
        if other != key@ {
            assert(param_value(r, other) == param_value(r.drop_first(), other));
            assert(param_value(params, other) == param_value(params.drop_first(), other));
        }
    } else {
        assert(r[0] == params[0]);
        lemma_param_after_set(params.drop_first(), key, value, other);
        assert(r.drop_first() =~= params_with(params.drop_first(), key, value));
    }
}

impl BacktestConfig {
    /// A configuration with the capital, 0.1% commission, 0.01% slippage and no parameters.
    pub fn new(initial_capital: Dec) -> (r: BacktestConfig)
        ensures
            r.initial_capital == initial_capital,
            r.commission_rate == Dec::spec_new(1, 3),
            r.slippage_pct == Dec::spec_new(1, 4),
            r.strategy_params@.len() == 0,
    {
        BacktestConfig {
            initial_capital,
            commission_rate: Dec::new(1, 3),
            slippage_pct: Dec::new(1, 4),
            strategy_params: Vec::new(),
        }
    }

    /// The same configuration with another commission rate.
    pub fn with_commission_rate(self, rate: Dec) -> (r: BacktestConfig)
        ensures
            r == (BacktestConfig { commission_rate: rate, ..self }),
    {
        let mut s = self;
        s.commission_rate = rate;
        s
    }

    /// The same configuration with another slippage rate.
    pub fn with_slippage_pct(self, slippage_pct: Dec) -> (r: BacktestConfig)
        ensures
            r == (BacktestConfig { slippage_pct, ..self }),
    {
        let mut s = self;
        s.slippage_pct = slippage_pct;
        s
    }

    /// The same configuration with the strategy parameter `key` set to `value`.
    pub fn with_param(self, key: &str, value: &str) -> (r: BacktestConfig)
        ensures
            r.initial_capital == self.initial_capital,
            r.commission_rate == self.commission_rate,
            r.slippage_pct == self.slippage_pct,
            exists|k: String, v: String| k@ == key@ && v@ == value@
                && r.strategy_params@ == params_with(self.strategy_params@, k, v),
    {
        let mut s = self;
        let k = String::from_str(key);
        let v = String::from_str(value);
        let ghost old_params = s.strategy_params@;
        let ghost gk = k;
        let ghost gv = v;
        let mut i: usize = 0;
        while i < s.strategy_params.len()
            invariant
                i <= old_params.len(),
                s.strategy_params@ == old_params,
                old_params == self.strategy_params@,
                gk@ == key@,
                gv@ == value@,
                s.initial_capital == self.initial_capital,
                s.commission_rate == self.commission_rate,
                s.slippage_pct == self.slippage_pct,
                v == gv,
                k == gk,
                forall|j: int| 0 <= j < i ==> old_params[j].0@ != key@,
            decreases old_params.len() - i,
        {
            if str_eq(s.strategy_params[i].0.as_str(), key) {
                s.strategy_params.set(i, (k, v));
                proof {
                    lemma_params_with_at(old_params, gk, gv, i as int);
                    assert(s.strategy_params@ == params_with(self.strategy_params@, gk, gv));
                }
                return s;
            }
            i = i + 1;
        }
        s.strategy_params.push((k, v));
        proof {
            lemma_params_with_absent(old_params, gk, gv);
        }
        s
    }

    /// A copy of the configuration.
    pub fn duplicate(&self) -> (r: BacktestConfig)
        ensures
            r.initial_capital == self.initial_capital,
            r.commission_rate == self.commission_rate,
            r.slippage_pct == self.slippage_pct,
            r.strategy_params@ == self.strategy_params@,
    {
        let mut params: Vec<(String, String)> = Vec::new();
        let mut i: usize = 0;
        while i < self.strategy_params.len()
            invariant
                i <= self.strategy_params@.len(),
                params@ == self.strategy_params@.take(i as int),
            decreases self.strategy_params@.len() - i,
        {
            let entry = (self.strategy_params[i].0.clone(), self.strategy_params[i].1.clone());
            params.push(entry);
            proof {
                assert(params@ =~= self.strategy_params@.take(i + 1));
            }
            i = i + 1;
        }
        proof {
            assert(params@ =~= self.strategy_params@);
        }
        BacktestConfig {
            initial_capital: self.initial_capital,
            commission_rate: self.commission_rate,
            slippage_pct: self.slippage_pct,
            strategy_params: params,
        }
    }
}

proof fn lemma_params_with_at(params: Seq<(String, String)>, key: String, value: String, i: int)
    requires
        0 <= i < params.len(),
        params[i].0@ == key@,
        forall|j: int| 0 <= j < i ==> params[j].0@ != key@,
    ensures
        params_with(params, key, value) == params.update(i, (key, value)),
    decreases params.len(),
{
    if i > 0 {
        lemma_params_with_at(params.drop_first(), key, value, i - 1);
        assert(seq![params[0]] + params.drop_first().update(i - 1, (key, value)) =~= params.update(
            i,
            (key, value),
        ));
    }
}

proof fn lemma_params_with_absent(params: Seq<(String, String)>, key: String, value: String)
    requires
        forall|j: int| 0 <= j < params.len() ==> params[j].0@ != key@,
    ensures
        params_with(params, key, value) == params.push((key, value)),
    decreases params.len(),
{
    if params.len() > 0 {
        lemma_params_with_absent(params.drop_first(), key, value);
        assert(seq![params[0]] + params.drop_first().push((key, value)) =~= params.push((key, value)));
    }
}

/// The price a signal trades at: its entry price when positive, else the market price.
pub open spec fn signal_price(entry_price: Dec, market_price: Dec) -> Dec {
    if entry_price.value() > 0 {
        entry_price
    } else {
        market_price
    }
}

/// What executing a signal came to.
pub enum SignalOutcome {
    /// The signal asked for nothing.
    Hold,
    /// An order was sent to the portfolio, with its result.
    Order { side: TradeSide, symbol: String, quantity: Dec, price: Dec, result: Result<(), String> },
}

/// The portfolio a backtest starts from: the capital in cash, the configured rates.
pub open spec fn starting_portfolio(config: BacktestConfig) -> PortfolioModel {
    PortfolioModel {
        initial_capital: config.initial_capital,
        cash: config.initial_capital,
        positions: Seq::empty(),
        trades: Seq::empty(),
        current_prices: Seq::empty(),
        commission_rate: config.commission_rate,
        slippage_pct: config.slippage_pct,
        total_slippage_cost: Dec::spec_zero(),
    }
}

/// No step of executing the signal overflows.
pub open spec fn signal_ok(p: PortfolioModel, signal: Signal, market_price: Dec) -> bool {
    match signal {
        Signal::Buy { symbol, quantity, entry_price, .. } => p.buy_ok(
            symbol@,
            quantity,
            signal_price(entry_price, market_price),
        ),
        Signal::Sell { symbol, quantity, entry_price, .. } => p.sell_ok(
            symbol@,
            quantity,
            signal_price(entry_price, market_price),
        ),
        Signal::Hold => true,
    }
}

/// The tick and bar backtest engine: a portfolio driven by a strategy's signals.
pub struct BacktestEngine<S: Strategy> {
    pub portfolio: Portfolio,
    pub strategy: S,
    pub config: BacktestConfig,
}

impl<S: Strategy> BacktestEngine<S> {
    /// Resets and initialises the strategy with the configured parameters, and starts a
    /// portfolio with the configured capital and rates; the strategy's error when it refuses
    /// the parameters.
    pub fn new(strategy: S, config: BacktestConfig) -> (r: Result<BacktestEngine<S>, String>)
        ensures
            match r {
                Ok(e) => {
                    &&& e.portfolio@ == starting_portfolio(config)
                    &&& e.portfolio@.wf()
                    &&& e.config == config
                    &&& e.strategy == strategy.after_reset().initialized_as(config.strategy_params).0
                    &&& strategy.after_reset().initialized_as(config.strategy_params).1 is Ok
                },
                Err(err) => strategy.after_reset().initialized_as(config.strategy_params).1 == Err::<(), String>(err),
            },
    {
        let mut strategy = strategy;
        strategy.reset();
        let init = strategy.initialize(&config.strategy_params);
        match init {
            Ok(()) => {},
            Err(e) => return Err(e),
        }
        let portfolio = Portfolio::new(config.initial_capital).with_commission_rate(
            config.commission_rate,
        ).with_slippage_pct(config.slippage_pct);
        proof {
            assert(portfolio@.positions =~= Seq::<Position>::empty());
            assert(portfolio@.trades =~= Seq::<Trade>::empty());
            assert(portfolio@.current_prices =~= Seq::<(Seq<char>, Dec)>::empty());
        }
        Ok(BacktestEngine { portfolio, strategy, config })
    }

    /// Executes a signal: a buy or a sell of the signal's quantity at its entry price (the
    /// market price when that is not positive); nothing for a hold.
    pub fn execute_signal(&mut self, signal: Signal, market_price: Dec) -> (r: SignalOutcome)
        requires
            old(self).portfolio@.wf(),
            signal_ok(old(self).portfolio@, signal, market_price),
        ensures
            final(self).portfolio@.wf(),
            final(self).strategy == old(self).strategy,
            final(self).config == old(self).config,
            match signal {
                Signal::Buy { symbol, quantity, entry_price, .. } => {
                    let price = signal_price(entry_price, market_price);
                    &&& final(self).portfolio@ == old(self).portfolio@.after_buy(
                        symbol,
                        quantity,
                        price,
                        final(self).portfolio@.trades.last().timestamp,
                    )
                    &&& r matches SignalOutcome::Order { side, symbol: s, quantity: q, price: p, result }
                        && side == TradeSide::Buy && s@ == symbol@ && q == quantity && p == price
                        && (result is Ok <==> !old(self).portfolio@.buy_refused(quantity, price))
                },
                Signal::Sell { symbol, quantity, entry_price, .. } => {
                    let price = signal_price(entry_price, market_price);
                    &&& final(self).portfolio@ == old(self).portfolio@.after_sell(
                        symbol,
                        quantity,
                        price,
                        final(self).portfolio@.trades.last().timestamp,
                    )
                    &&& r matches SignalOutcome::Order { side, symbol: s, quantity: q, price: p, result }
                        && side == TradeSide::Sell && s@ == symbol@ && q == quantity && p == price
                        && (result is Ok <==> old(self).portfolio@.sell_outcome(symbol@, quantity) is Ok)
                        && error_text(result) == match old(self).portfolio@.sell_outcome(symbol@, quantity) {
                            Ok(_) => None::<Seq<char>>,
                            Err(e) => Some(e),
                        }
                },
                Signal::Hold => final(self).portfolio@ == old(self).portfolio@ && r is Hold,
            },
    {
        let zero = Dec::zero();
        match signal {
            Signal::Buy { symbol, quantity, entry_price, .. } => {
                let price = if entry_price.gt(&zero) {
                    entry_price
                } else {
                    market_price
                };
                let name = symbol.clone();
                let result = self.portfolio.execute_buy(symbol, quantity, price);
                SignalOutcome::Order { side: TradeSide::Buy, symbol: name, quantity, price, result }
            },
            Signal::Sell { symbol, quantity, entry_price, .. } => {
                let price = if entry_price.gt(&zero) {
                    entry_price
                } else {
                    market_price
                };
                let name = symbol.clone();
                let result = self.portfolio.execute_sell(symbol, quantity, price);
                SignalOutcome::Order { side: TradeSide::Sell, symbol: name, quantity, price, result }
            },
            Signal::Hold => SignalOutcome::Hold,
        }
    }
}

/// The number of trades whose realised PnL is positive.
pub open spec fn winning_count(trades: Seq<Trade>) -> nat {
    count_of(trades.map_values(|t: Trade| t.realized_pnl matches Some(p) && p.value() > 0))
}

/// The number of trades whose realised PnL is negative.
pub open spec fn losing_count(trades: Seq<Trade>) -> nat {
    count_of(trades.map_values(|t: Trade| t.realized_pnl matches Some(p) && p.value() < 0))
}

/// No trade is both a win and a loss, so the two counts together are at most the trades.
pub proof fn lemma_wins_losses_bound(trades: Seq<Trade>)
    ensures
        winning_count(trades) + losing_count(trades) <= trades.len(),
    decreases trades.len(),
{
    if trades.len() > 0 {
        let w = |t: Trade| t.realized_pnl matches Some(p) && p.value() > 0;
        let l = |t: Trade| t.realized_pnl matches Some(p) && p.value() < 0;
        lemma_wins_losses_bound(trades.drop_last());
        assert(trades.drop_last().map_values(w) =~= trades.map_values(w).drop_last());
        assert(trades.drop_last().map_values(l) =~= trades.map_values(l).drop_last());
    }
}

/// The number of trades that have a realised PnL (the closing ones).
pub open spec fn realized_count(trades: Seq<Trade>) -> nat {
    count_of(trades.map_values(|t: Trade| t.realized_pnl is Some))
}

/// Only a trade with a realised PnL is a win or a loss, and none is both: the wins and losses
/// together are at most the trades with a realised PnL.
pub proof fn lemma_wins_losses_realized(trades: Seq<Trade>)
    ensures
        winning_count(trades) + losing_count(trades) <= realized_count(trades),
    decreases trades.len(),
{
    if trades.len() > 0 {
        let w = |t: Trade| t.realized_pnl matches Some(p) && p.value() > 0;
        let l = |t: Trade| t.realized_pnl matches Some(p) && p.value() < 0;
        let c = |t: Trade| t.realized_pnl is Some;
        lemma_wins_losses_realized(trades.drop_last());
        assert(trades.drop_last().map_values(w) =~= trades.map_values(w).drop_last());
        assert(trades.drop_last().map_values(l) =~= trades.map_values(l).drop_last());
        assert(trades.drop_last().map_values(c) =~= trades.map_values(c).drop_last());
    }
}

/// One more trade adds one win exactly when its realised PnL is positive, and one loss exactly
/// when its realised PnL is negative; a trade without a realised PnL (an opening trade) adds
/// neither.
pub proof fn lemma_count_one_more(trades: Seq<Trade>, t: Trade)
    ensures
        winning_count(trades.push(t)) == winning_count(trades) + if t.realized_pnl matches Some(p) && p.value() > 0 {
            1nat
        } else {
            0nat
        },
        losing_count(trades.push(t)) == losing_count(trades) + if t.realized_pnl matches Some(p) && p.value() < 0 {
            1nat
        } else {
            0nat
        },
        t.realized_pnl is None ==> winning_count(trades.push(t)) == winning_count(trades) && losing_count(trades.push(t))
            == losing_count(trades),
{
    let w = |x: Trade| x.realized_pnl matches Some(p) && p.value() > 0;
    let l = |x: Trade| x.realized_pnl matches Some(p) && p.value() < 0;
    assert(trades.push(t).map_values(w).drop_last() =~= trades.map_values(w));
    assert(trades.push(t).map_values(l).drop_last() =~= trades.map_values(l));
}

/// Counts the trades with a positive realised PnL.
pub fn count_winning_trades(trades: &Vec<Trade>) -> (r: usize)
    ensures
        r == winning_count(trades@),
{
    let ghost flags = trades@.map_values(|t: Trade| t.realized_pnl matches Some(p) && p.value() > 0);
    let mut n: usize = 0;
    let mut i: usize = 0;
    let zero = Dec::zero();
    while i < trades.len()
        invariant
            zero.value() == 0,
            flags == trades@.map_values(|t: Trade| t.realized_pnl matches Some(p) && p.value() > 0),
            i <= trades@.len(),
            n == count_of(flags.take(i as int)),
            n <= i,
        decreases trades@.len() - i,
    {
        proof {
            lemma_count_of_step(flags, i as nat);
        }
        let win = match trades[i].realized_pnl {
            Some(p) => p.gt(&zero),
            None => false,
        };
        proof {
            assert(zero.value() == 0);
            assert(flags[i as int] == (trades@[i as int].realized_pnl matches Some(p) && p.value() > 0));
            assert(flags[i as int] == win);
        }
        if win {
            n = n + 1;
        }
        i = i + 1;
    }
    proof {
        assert(flags.take(flags.len() as int) =~= flags);
    }
    n
}

/// Counts the trades with a negative realised PnL.
pub fn count_losing_trades(trades: &Vec<Trade>) -> (r: usize)
    ensures
        r == losing_count(trades@),
{
    let ghost flags = trades@.map_values(|t: Trade| t.realized_pnl matches Some(p) && p.value() < 0);
    let mut n: usize = 0;
    let mut i: usize = 0;
    let zero = Dec::zero();
    while i < trades.len()
        invariant
            zero.value() == 0,
            flags == trades@.map_values(|t: Trade| t.realized_pnl matches Some(p) && p.value() < 0),
            i <= trades@.len(),
            n == count_of(flags.take(i as int)),
            n <= i,
        decreases trades@.len() - i,
    {
        proof {
            lemma_count_of_step(flags, i as nat);
        }
        let lose = match trades[i].realized_pnl {
            Some(p) => p.lt(&zero),
            None => false,
        };
        proof {
            assert(zero.value() == 0);
            assert(flags[i as int] == (trades@[i as int].realized_pnl matches Some(p) && p.value() < 0));
            assert(flags[i as int] == lose);
        }
        if lose {
            n = n + 1;
        }
        i = i + 1;
    }
    proof {
        assert(flags.take(flags.len() as int) =~= flags);
    }
    n
}

/// Risk figures of a finished backtest, computed from its equity curve and trades.
pub struct RiskMetrics {
    pub max_drawdown: Dec,
    pub sharpe_ratio: Dec,
    pub volatility: Dec,
    pub win_rate: Dec,
    pub profit_factor: Dec,
}

/// The figures of a finished backtest.
pub struct BacktestResult {
    pub initial_capital: Dec,
    pub final_value: Dec,
    pub total_pnl: Dec,
    pub return_percentage: Dec,
    pub total_trades: usize,
    pub winning_trades: usize,
    pub losing_trades: usize,
    pub max_drawdown: Dec,
    pub sharpe_ratio: Dec,
    pub volatility: Dec,
    pub win_rate: Dec,
    pub profit_factor: Dec,
    pub total_commission: Dec,
    pub total_slippage_cost: Dec,
    pub positions: Vec<Position>,
    pub trades: Vec<Trade>,
    pub equity_curve: Vec<Dec>,
    pub strategy_name: String,
}

/// The return in percent: `pnl / capital * 100`, zero for a capital that is not positive.
pub open spec fn return_percentage_of(pnl: Dec, capital: Dec) -> Dec {
    if capital.value() > 0 {
        product(quotient(pnl, capital), Dec::spec_new(100, 0))
    } else {
        Dec::spec_zero()
    }
}

/// Every figure of the result can be computed from the portfolio.
pub open spec fn result_ok(p: PortfolioModel) -> bool {
    &&& p.wf()
    &&& p.total_value_spec() is Some
    &&& p.total_pnl_ok()
    &&& p.commission_spec() is Some
    &&& equity_curve_spec(p.initial_capital, p.trades, p.current_prices) is Some
    &&& p.initial_capital.value() > 0 ==> can_div(p.total_pnl_spec(), p.initial_capital)
        && can_mul(quotient(p.total_pnl_spec(), p.initial_capital), Dec::spec_new(100, 0))
}

/// Whether `r` holds the figures of the portfolio and the strategy's name (the risk figures
/// aside).
pub open spec fn result_core(r: BacktestResult, p: PortfolioModel, name: Seq<char>) -> bool {
    &&& r.initial_capital == p.initial_capital
    &&& r.final_value == p.total_value_spec()->0
    &&& r.total_pnl == p.total_pnl_spec()
    &&& r.return_percentage == return_percentage_of(p.total_pnl_spec(), p.initial_capital)
    &&& r.total_trades == p.trades.len()
    &&& r.winning_trades == winning_count(p.trades)
    &&& r.losing_trades == losing_count(p.trades)
    &&& r.total_commission == p.commission_spec()->0
    &&& r.total_slippage_cost == p.total_slippage_cost
    &&& r.positions@ == p.positions
    &&& r.trades@ == p.trades
    &&& r.equity_curve@ == equity_curve_spec(p.initial_capital, p.trades, p.current_prices)->0
    &&& r.strategy_name@ == name
}

/// The shape of a result's figures: one trade count per trade, an equity curve that starts at
/// the initial capital with one value after each trade, and no more wins and losses than trades.
pub open spec fn result_figures(r: BacktestResult) -> bool {
    &&& r.total_trades == r.trades@.len()
    &&& r.equity_curve@.len() == r.trades@.len() + 1
    &&& r.equity_curve@[0] == r.initial_capital
    &&& r.winning_trades + r.losing_trades <= r.total_trades
}

/// Whether `r` holds the figures of the portfolio, the risk figures and the strategy's name.
pub open spec fn result_of(r: BacktestResult, p: PortfolioModel, metrics: RiskMetrics, name: Seq<char>) -> bool {
    &&& result_core(r, p, name)
    &&& r.max_drawdown == metrics.max_drawdown
    &&& r.sharpe_ratio == metrics.sharpe_ratio
    &&& r.volatility == metrics.volatility
    &&& r.win_rate == metrics.win_rate
    &&& r.profit_factor == metrics.profit_factor
}

/// Computes the risk figures of a finished backtest from its equity curve and trades.
pub trait RiskMetricsSource {
    fn compute(&self, equity_curve: &Vec<Dec>, trades: &Vec<Trade>) -> RiskMetrics;
}

impl BacktestResult {
    /// The figures of the portfolio at the end of a backtest, with the risk figures computed
    /// from its equity curve and trades.
    pub fn from_portfolio(portfolio: &Portfolio, metrics: RiskMetrics, strategy_name: String) -> (r: BacktestResult)
        requires
            result_ok(portfolio@),
        ensures
            result_of(r, portfolio@, metrics, strategy_name@),
            result_figures(r),
    {
        proof {
            lemma_curve_shape(portfolio@.initial_capital, portfolio@.trades, portfolio@.current_prices);
            lemma_wins_losses_bound(portfolio@.trades);
        }
        let final_value = portfolio.total_value();
        let total_pnl = portfolio.total_pnl();
        let return_percentage = if portfolio.initial_capital.gt(&Dec::zero()) {
            total_pnl.div(portfolio.initial_capital).mul(Dec::from_int(100))
        } else {
            Dec::zero()
        };
        let equity_curve = portfolio.get_equity_curve();
        BacktestResult {
            initial_capital: portfolio.initial_capital,
            final_value,
            total_pnl,
            return_percentage,
            total_trades: portfolio.trades.len(),
            winning_trades: count_winning_trades(&portfolio.trades),
            losing_trades: count_losing_trades(&portfolio.trades),
            max_drawdown: metrics.max_drawdown,
            sharpe_ratio: metrics.sharpe_ratio,
            volatility: metrics.volatility,
            win_rate: metrics.win_rate,
            profit_factor: metrics.profit_factor,
            total_commission: portfolio.total_commission(),
            total_slippage_cost: portfolio.total_slippage_cost,
            positions: copy_positions(&portfolio.positions),
            trades: copy_trades(&portfolio.trades),
            equity_curve,
            strategy_name,
        }
    }

    /// The figures of the portfolio at the end of a backtest, with the risk figures the source
    /// computes from its equity curve and trades; `None` where `Decimal` would panic.
    pub fn try_from_portfolio<M: RiskMetricsSource>(portfolio: &Portfolio, source: &M, strategy_name: String) -> (r: Option<BacktestResult>)
        requires
            portfolio@.wf(),
        ensures
            r is Some <==> result_ok(portfolio@),
            r matches Some(res) ==> result_core(res, portfolio@, strategy_name@) && result_figures(res),
    {
        proof {
            if equity_curve_spec(portfolio@.initial_capital, portfolio@.trades, portfolio@.current_prices) is Some {
                lemma_curve_shape(portfolio@.initial_capital, portfolio@.trades, portfolio@.current_prices);
            }
            lemma_wins_losses_bound(portfolio@.trades);
        }
        let final_value = match portfolio.try_total_value() {
            Some(v) => v,
            None => return None,
        };
        let (realized, unrealized, commission) = portfolio.try_sums();
        let (realized, unrealized, total_commission) = match (realized, unrealized, commission) {
            (Some(a), Some(b), Some(c)) => (a, b, c),
            _ => return None,
        };
        let total_pnl = match realized.checked_add(unrealized) {
            Some(v) => v,
            None => return None,
        };
        let return_percentage = if portfolio.initial_capital.gt(&Dec::zero()) {
            match total_pnl.checked_div(portfolio.initial_capital) {
                Some(q) => match q.checked_mul(Dec::from_int(100)) {
                    Some(v) => v,
                    None => return None,
                },
                None => return None,
            }
        } else {
            Dec::zero()
        };
        let equity_curve = match portfolio.try_get_equity_curve() {
            Some(v) => v,
            None => return None,
        };
        let metrics = source.compute(&equity_curve, &portfolio.trades);
        Some(BacktestResult {
            initial_capital: portfolio.initial_capital,
            final_value,
            total_pnl,
            return_percentage,
            total_trades: portfolio.trades.len(),
            winning_trades: count_winning_trades(&portfolio.trades),
            losing_trades: count_losing_trades(&portfolio.trades),
            max_drawdown: metrics.max_drawdown,
            sharpe_ratio: metrics.sharpe_ratio,
            volatility: metrics.volatility,
            win_rate: metrics.win_rate,
            profit_factor: metrics.profit_factor,
            total_commission,
            total_slippage_cost: portfolio.total_slippage_cost,
            positions: copy_positions(&portfolio.positions),
            trades: copy_trades(&portfolio.trades),
            equity_curve,
            strategy_name,
        })
    }

    /// Whether the backtest made money.
    pub fn is_profitable(&self) -> (r: bool)
        ensures
            r == (self.total_pnl.value() > 0),
    {
        self.total_pnl.gt(&Dec::zero())
    }
}

impl<S: Strategy> BacktestEngine<S> {
    /// The figures of the backtest so far, with the risk figures computed from its equity curve
    /// and trades.
    pub fn build_result(&self, metrics: RiskMetrics) -> (r: BacktestResult)
        requires
            result_ok(self.portfolio@),
        ensures
            result_of(r, self.portfolio@, metrics, r.strategy_name@),
    {
        BacktestResult::from_portfolio(&self.portfolio, metrics, self.strategy.name())
    }
}

/// The portfolio after executing a signal at the market price, a new trade stamped `ts`.
pub open spec fn after_signal(p: PortfolioModel, signal: Signal, market_price: Dec, ts: i64) -> PortfolioModel {
    match signal {
        Signal::Buy { symbol, quantity, entry_price, .. } => p.after_buy(
            symbol,
            quantity,
            signal_price(entry_price, market_price),
            ts,
        ),
        Signal::Sell { symbol, quantity, entry_price, .. } => p.after_sell(
            symbol,
            quantity,
            signal_price(entry_price, market_price),
            ts,
        ),
        Signal::Hold => p,
    }
}

/// One step of a backtest: the symbol's new price, the strategy's signal and the time stamp of
/// a resulting trade.
pub struct Step {
    pub symbol: Seq<char>,
    pub price: Dec,
    pub signal: Signal,
    pub stamp: i64,
}

/// The portfolio after the steps: at each, the price recorded, then the signal executed at it.
pub open spec fn replay_steps(p: PortfolioModel, steps: Seq<Step>) -> PortfolioModel
    decreases steps.len(),
{
    if steps.len() == 0 {
        p
    } else {
        let q = replay_steps(p, steps.drop_last());
        let s = steps.last();
        after_signal(q.after_update_price(s.symbol, s.price), s.signal, s.price, s.stamp)
    }
}

/// The strategy's state after the ticks, in order.
pub open spec fn after_ticks<S: Strategy>(s: S, ticks: Seq<TickData>) -> S
    decreases ticks.len(),
{
    if ticks.len() == 0 {
        s
    } else {
        after_ticks(s, ticks.drop_last()).after_tick(ticks.last())
    }
}

/// The strategy's state after the bars, in order.
pub open spec fn after_bars<S: Strategy>(s: S, bars: Seq<OHLCData>) -> S
    decreases bars.len(),
{
    if bars.len() == 0 {
        s
    } else {
        after_bars(s, bars.drop_last()).after_bar(bars.last())
    }
}

/// Whether the steps are those of a backtest over the first ticks: one per tick, at its symbol
/// and price, with the signal the strategy (having seen the earlier ticks) gives for it.
pub open spec fn tick_steps<S: Strategy>(s: S, ticks: Seq<TickData>, steps: Seq<Step>) -> bool {
    &&& steps.len() <= ticks.len()
    &&& forall|k: int|
        0 <= k < steps.len() ==> {
            &&& (#[trigger] steps[k]).symbol == ticks[k].symbol@
            &&& steps[k].price == ticks[k].price
            &&& steps[k].signal == after_ticks(s, ticks.take(k)).tick_signal(ticks[k])
        }
}

/// Whether the steps are those of a backtest over the first bars, each priced at its close.
pub open spec fn bar_steps<S: Strategy>(s: S, bars: Seq<OHLCData>, steps: Seq<Step>) -> bool {
    &&& steps.len() <= bars.len()
    &&& forall|k: int|
        0 <= k < steps.len() ==> {
            &&& (#[trigger] steps[k]).symbol == bars[k].symbol@
            &&& steps[k].price == bars[k].close
            &&& steps[k].signal == after_bars(s, bars.take(k)).bar_signal(bars[k])
        }
}

/// Where a backtest over the ticks stops for an overflow (where `Decimal` panics): after the
/// steps done, either the next tick's price cannot be recorded, or the signal the strategy
/// gives for it cannot be executed; or all ticks are done and the result's figures cannot be
/// computed.
pub open spec fn tick_stalls<S: Strategy>(s: S, start: PortfolioModel, ticks: Seq<TickData>, steps: Seq<Step>) -> bool {
    let k = steps.len();
    let q = replay_steps(start, steps);
    &&& tick_steps(s, ticks, steps)
    &&& if k < ticks.len() {
        let t = ticks[k as int];
        ||| !q.update_price_ok(t.symbol@, t.price)
        ||| !signal_ok(
            q.after_update_price(t.symbol@, t.price),
            after_ticks(s, ticks.take(k as int)).tick_signal(t),
            t.price,
        )
    } else {
        !result_ok(q)
    }
}

/// Where a backtest over the bars stops for an overflow, as `tick_stalls` for ticks.
pub open spec fn bar_stalls<S: Strategy>(s: S, start: PortfolioModel, bars: Seq<OHLCData>, steps: Seq<Step>) -> bool {
    let k = steps.len();
    let q = replay_steps(start, steps);
    &&& bar_steps(s, bars, steps)
    &&& if k < bars.len() {
        let b = bars[k as int];
        ||| !q.update_price_ok(b.symbol@, b.close)
        ||| !signal_ok(
            q.after_update_price(b.symbol@, b.close),
            after_bars(s, bars.take(k as int)).bar_signal(b),
            b.close,
        )
    } else {
        !result_ok(q)
    }
}

impl<S: Strategy> BacktestEngine<S> {
    /// Whether executing the signal at the market price is free of overflow.
    pub fn can_execute_signal(&self, signal: &Signal, market_price: Dec) -> (r: bool)
        requires
            self.portfolio@.wf(),
        ensures
            r == signal_ok(self.portfolio@, *signal, market_price),
    {
        let zero = Dec::zero();
        match signal {
            Signal::Buy { symbol, quantity, entry_price, .. } => {
                let price = if entry_price.gt(&zero) {
                    *entry_price
                } else {
                    market_price
                };
                self.portfolio.can_execute_buy(symbol.as_str(), *quantity, price)
            },
            Signal::Sell { symbol, quantity, entry_price, .. } => {
                let price = if entry_price.gt(&zero) {
                    *entry_price
                } else {
                    market_price
                };
                self.portfolio.can_execute_sell(symbol.as_str(), *quantity, price)
            },
            Signal::Hold => true,
        }
    }

    /// Runs the backtest over the ticks: at each, the tick's price is recorded, the strategy
    /// turns the tick into a signal and the signal is executed at its entry price (the tick's
    /// price when that is not positive); then the result is computed. `None` at the first step
    /// whose decimal arithmetic would overflow (where `Decimal` panics).
    pub fn run<M: RiskMetricsSource>(&mut self, data: Vec<TickData>, source: &M) -> (r: Option<BacktestResult>)
        requires
            old(self).portfolio@.wf(),
        ensures
            final(self).portfolio@.wf(),
            r matches Some(res) ==> {
                &&& result_core(res, final(self).portfolio@, res.strategy_name@)
                &&& result_figures(res)
                &&& final(self).strategy == after_ticks(old(self).strategy, data@)
                &&& exists|steps: Seq<Step>| #[trigger] tick_steps(old(self).strategy, data@, steps)
                    && steps.len() == data@.len()
                    && final(self).portfolio@ == replay_steps(old(self).portfolio@, steps)
            },
            r is None ==> exists|steps: Seq<Step>| #[trigger] tick_stalls(
                old(self).strategy,
                old(self).portfolio@,
                data@,
                steps,
            ),
    {
        let ghost start = self.portfolio@;
        let ghost s0 = self.strategy;
        let ghost mut steps: Seq<Step> = Seq::empty();
        let mut i: usize = 0;
        while i < data.len()
            invariant
                self.portfolio@.wf(),
                i <= data@.len(),
                steps.len() == i,
                tick_steps(s0, data@, steps),
                self.portfolio@ == replay_steps(start, steps),
                self.strategy == after_ticks(s0, data@.take(i as int)),
                start == old(self).portfolio@,
                s0 == old(self).strategy,
            decreases data@.len() - i,
        {
            let tick = &data[i];
            proof {
                assert(data@.take(i + 1int).drop_last() =~= data@.take(i as int));
                assert(data@.take(i + 1int).last() == *tick);
            }
            if !self.portfolio.can_update_price(tick.symbol.as_str(), tick.price) {
                proof {
                    assert(tick_stalls(s0, start, data@, steps));
                }
                return None;
            }
            self.portfolio.update_price(tick.symbol.as_str(), tick.price);
            let signal = self.strategy.on_tick(tick);
            if !self.can_execute_signal(&signal, tick.price) {
                proof {
                    assert(tick_stalls(s0, start, data@, steps));
                }
                return None;
            }
            let ghost kept = signal;
            let _outcome = self.execute_signal(signal, tick.price);
            proof {
                let stamp = self.portfolio@.trades.last().timestamp;
                let st = Step { symbol: tick.symbol@, price: tick.price, signal: kept, stamp };
                let old_steps = steps;
                steps = steps.push(st);
                assert(steps.drop_last() =~= old_steps);
                assert forall|k: int| 0 <= k < steps.len() implies {
                    &&& (#[trigger] steps[k]).symbol == data@[k].symbol@
                    &&& steps[k].price == data@[k].price
                } by {
                    if k < i {
                        assert(steps[k] == old_steps[k]);
                    }
                }
                assert(tick_steps(s0, data@, steps));
            }
            i = i + 1;
        }
        proof {
            assert(data@.take(data@.len() as int) =~= data@);
        }
        let name = self.strategy.name();
        let r = BacktestResult::try_from_portfolio(&self.portfolio, source, name);
        proof {
            if r is None {
                assert(tick_stalls(s0, start, data@, steps));
            }
        }
        r
    }

    /// Runs the backtest over the bars, as `run` does over ticks, each bar priced at its close.
    pub fn run_with_ohlc<M: RiskMetricsSource>(&mut self, data: Vec<OHLCData>, source: &M) -> (r: Option<BacktestResult>)
        requires
            old(self).portfolio@.wf(),
        ensures
            final(self).portfolio@.wf(),
            r matches Some(res) ==> {
                &&& result_core(res, final(self).portfolio@, res.strategy_name@)
                &&& result_figures(res)
                &&& final(self).strategy == after_bars(old(self).strategy, data@)
                &&& exists|steps: Seq<Step>| #[trigger] bar_steps(old(self).strategy, data@, steps)
                    && steps.len() == data@.len()
                    && final(self).portfolio@ == replay_steps(old(self).portfolio@, steps)
            },
            r is None ==> exists|steps: Seq<Step>| #[trigger] bar_stalls(
                old(self).strategy,
                old(self).portfolio@,
                data@,
                steps,
            ),
    {
        let ghost start = self.portfolio@;
        let ghost s0 = self.strategy;
        let ghost mut steps: Seq<Step> = Seq::empty();
        let mut i: usize = 0;
        while i < data.len()
            invariant
                self.portfolio@.wf(),
                i <= data@.len(),
                steps.len() == i,
                bar_steps(s0, data@, steps),
                self.portfolio@ == replay_steps(start, steps),
                self.strategy == after_bars(s0, data@.take(i as int)),
                start == old(self).portfolio@,
                s0 == old(self).strategy,
            decreases data@.len() - i,
        {
            let bar = &data[i];
            proof {
                assert(data@.take(i + 1int).drop_last() =~= data@.take(i as int));
                assert(data@.take(i + 1int).last() == *bar);
            }
            if !self.portfolio.can_update_price(bar.symbol.as_str(), bar.close) {
                proof {
                    assert(bar_stalls(s0, start, data@, steps));
                }
                return None;
            }
            self.portfolio.update_price(bar.symbol.as_str(), bar.close);
            let signal = self.strategy.on_ohlc(bar);
            if !self.can_execute_signal(&signal, bar.close) {
                proof {
                    assert(bar_stalls(s0, start, data@, steps));
                }
                return None;
            }
            let ghost kept = signal;
            let _outcome = self.execute_signal(signal, bar.close);
            proof {
                let stamp = self.portfolio@.trades.last().timestamp;
                let st = Step { symbol: bar.symbol@, price: bar.close, signal: kept, stamp };
                let old_steps = steps;
                steps = steps.push(st);
                assert(steps.drop_last() =~= old_steps);
                assert forall|k: int| 0 <= k < steps.len() implies {
                    &&& (#[trigger] steps[k]).symbol == data@[k].symbol@
                    &&& steps[k].price == data@[k].close
                } by {
                    if k < i {
                        assert(steps[k] == old_steps[k]);
                    }
                }
                assert(bar_steps(s0, data@, steps));
            }
            i = i + 1;
        }
        proof {
            assert(data@.take(data@.len() as int) =~= data@);
        }
        let name = self.strategy.name();
        let r = BacktestResult::try_from_portfolio(&self.portfolio, source, name);
        proof {
            if r is None {
                assert(bar_stalls(s0, start, data@, steps));
            }
        }
        r
    }
}

} // verus!
