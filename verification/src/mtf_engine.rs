//! The multi-timeframe backtest engine: 1m bars feed the aggregator, and once every timeframe the
//! strategy needs has enough completed bars, its analysis decides the trades.
use crate::aggregator::{all_timeframes_count, all_timeframes_order, last_n, slot_count, AggregatorModel, KlineAggregator};
use crate::decimal::{can_div, can_mul, product, quotient, Dec};
use crate::engine::{result_core, result_figures, result_ok, result_of, BacktestConfig, BacktestResult, RiskMetrics, RiskMetricsSource};
use crate::indicators::{count_dec, EntryDirection, MultiTimeframeAnalysis};
use crate::portfolio::{find_position, Portfolio, PortfolioModel, Position, PositionSide, Trade};
use crate::strategy::{klines_view, MultiTimeframeStrategy};
use crate::types::{OHLCData, Timeframe};
use vstd::prelude::*;

verus! {

/// The fewest completed bars each required timeframe needs before the strategy is asked.
pub const MIN_CANDLES: usize = 50;

/// Every timeframe in `tfs` has at least `MIN_CANDLES` completed bars.
pub open spec fn enough_bars(agg: AggregatorModel, tfs: Seq<Timeframe>) -> bool {
    forall|i: int| 0 <= i < tfs.len() ==> agg.count_of(#[trigger] tfs[i]) >= MIN_CANDLES
}

/// What the engine does with an analysis.
#[derive(Debug, Clone, Copy, PartialEq, Eq, Structural)]
pub enum TradeAction {
    Nothing,
    OpenLong,
    OpenShort,
    CloseLong,
    CloseShort,
}

/// The side of the open position in the symbol, if any (a position of zero quantity counts as
/// none).
pub open spec fn side_in(p: PortfolioModel, symbol: Seq<char>) -> Option<PositionSide> {
    match find_position(p.positions, symbol) {
        Some(i) => if p.positions[i].quantity.value() > 0 {
            Some(p.positions[i].side)
        } else {
            None
        },
        None => None,
    }
}

/// The action an analysis calls for: without a position, an entry in the analysis's direction
/// when the strategy wants one; with a position, closing it when the strategy wants out.
pub open spec fn action_for(side: Option<PositionSide>, enter: bool, entry: Option<EntryDirection>, exit_long: bool, exit_short: bool) -> TradeAction {
    match side {
        None => if enter {
            match entry {
                Some(EntryDirection::Long) => TradeAction::OpenLong,
                Some(EntryDirection::Short) => TradeAction::OpenShort,
                None => TradeAction::Nothing,
            }
        } else {
            TradeAction::Nothing
        },
        Some(PositionSide::Long) => if exit_long {
            TradeAction::CloseLong
        } else {
            TradeAction::Nothing
        },
        Some(PositionSide::Short) => if exit_short {
            TradeAction::CloseShort
        } else {
            TradeAction::Nothing
        },
    }
}

/// The quantity an entry takes: the cash times the position ratio, divided by the price.
pub open spec fn entry_quantity(cash: Dec, ratio: Dec, price: Dec) -> Dec {
    quotient(product(cash, ratio), price)
}

/// The multi-timeframe backtest engine.
pub struct MultiTimeframeBacktestEngine<S: MultiTimeframeStrategy> {
    pub portfolio: Portfolio,
    pub strategy: S,
    pub aggregator: KlineAggregator,
    pub config: BacktestConfig,
    pub symbol: String,
    /// The share of the cash an entry uses (0 to 1).
    pub position_ratio: Dec,
}

impl<S: MultiTimeframeStrategy> MultiTimeframeBacktestEngine<S> {
    /// Resets and initialises the strategy with the configured parameters, and starts a
    /// portfolio with the configured capital and commission rate (and the default slippage), an
    /// empty aggregator and a 90% position ratio; the strategy's error when it refuses the
    /// parameters.
    pub fn new(strategy: S, config: BacktestConfig, symbol: String) -> (r: Result<MultiTimeframeBacktestEngine<S>, String>)
        ensures
            match r {
                Ok(e) => {
                    &&& e.portfolio@.wf()
                    &&& e.portfolio@.initial_capital == config.initial_capital
                    &&& e.portfolio@.cash == config.initial_capital
                    &&& e.portfolio@.positions.len() == 0
                    &&& e.portfolio@.trades.len() == 0
                    &&& e.portfolio@.current_prices.len() == 0
                    &&& e.portfolio@.commission_rate == config.commission_rate
                    &&& e.portfolio@.slippage_pct.mant() == 1 && e.portfolio@.slippage_pct.scl() == 4
                    &&& e.portfolio@.total_slippage_cost == Dec::spec_zero()
                    &&& e.aggregator@.wf()
                    &&& e.aggregator@.klines_1m.len() == 0
                    &&& forall|s: int| 0 <= s < slot_count() ==> e.aggregator@.aggregated[s].len() == 0
                        && e.aggregator@.current[s] is None
                    &&& e.config == config
                    &&& e.symbol == symbol
                    &&& e.position_ratio == quotient(count_dec(90), count_dec(100))
                    &&& e.strategy == strategy.after_reset().initialized_with(config.strategy_params@).0
                    &&& strategy.after_reset().initialized_with(config.strategy_params@).1 is None
                },
                Err(e) => strategy.after_reset().initialized_with(config.strategy_params@).1 == Some(e@),
            },
    {
        let mut strategy = strategy;
        strategy.reset();
        match strategy.initialize(&config.strategy_params) {
            Ok(()) => {},
            Err(e) => return Err(e),
        }
        let portfolio = Portfolio::new(config.initial_capital).with_commission_rate(config.commission_rate);
        let ratio = match Dec::from_int(90).checked_div(Dec::from_int(100)) {
            Some(q) => q,
            None => Dec::zero(),
        };
        proof {
            crate::decimal::lemma_pow10_pos(28);
            vstd::arithmetic::mul::lemma_mul_inequality(90, 100, crate::decimal::pow10(28));
        }
        Ok(MultiTimeframeBacktestEngine {
            portfolio,
            strategy,
            aggregator: KlineAggregator::new(),
            config,
            symbol,
            position_ratio: ratio,
        })
    }

    /// The same engine with another position ratio.
    pub fn with_position_ratio(self, ratio: Dec) -> (r: MultiTimeframeBacktestEngine<S>)
        ensures
            r == (MultiTimeframeBacktestEngine { position_ratio: ratio, ..self }),
    {
        let mut s = self;
        s.position_ratio = ratio;
        s
    }

    /// Whether every timeframe the strategy needs has at least `MIN_CANDLES` completed bars.
    pub fn has_sufficient_data(&self) -> (r: bool)
        requires
            self.aggregator@.wf(),
        ensures
            r == enough_bars(self.aggregator@, self.strategy.timeframes_needed()),
    {
        let required = self.strategy.required_timeframes();
        let mut i: usize = 0;
        while i < required.len()
            invariant
                self.aggregator@.wf(),
                required@ == self.strategy.timeframes_needed(),
                i <= required@.len(),
                forall|j: int| 0 <= j < i ==> self.aggregator@.count_of(#[trigger] required@[j]) >= MIN_CANDLES,
            decreases required@.len() - i,
        {
            if self.aggregator.count(required[i]) < MIN_CANDLES {
                return false;
            }
            i = i + 1;
        }
        true
    }

    /// Feeds one 1m bar: the aggregator takes it and the portfolio takes its close as the
    /// symbol's price. Returns whether the strategy has enough bars to be asked.
    pub fn feed_bar(&mut self, kline: &OHLCData) -> (r: bool)
        requires
            old(self).aggregator@.wf(),
            old(self).aggregator@.update_ok(*kline),
            old(self).portfolio@.wf(),
            old(self).portfolio@.update_price_ok(old(self).symbol@, kline.close),
        ensures
            final(self).aggregator@.wf(),
            final(self).aggregator@ == old(self).aggregator@.after_update(*kline),
            final(self).portfolio@.wf(),
            final(self).portfolio@ == old(self).portfolio@.after_update_price(old(self).symbol@, kline.close),
            final(self).strategy == old(self).strategy,
            final(self).symbol == old(self).symbol,
            final(self).position_ratio == old(self).position_ratio,
            r == enough_bars(final(self).aggregator@, final(self).strategy.timeframes_needed()),
    {
        self.aggregator.update(kline.duplicate());
        self.portfolio.update_price(self.symbol.as_str(), kline.close);
        self.has_sufficient_data()
    }

    /// The action the analysis calls for, given the current position.
    pub fn decide(&self, analysis: &MultiTimeframeAnalysis) -> (r: TradeAction)
        requires
            self.portfolio@.wf(),
        ensures
            r == action_for(
                side_in(self.portfolio@, self.symbol@),
                self.strategy.wants_entry(*analysis),
                analysis.entry_direction,
                self.strategy.wants_exit(*analysis, true),
                self.strategy.wants_exit(*analysis, false),
            ),
    {
        match self.portfolio.get_position_side(self.symbol.as_str()) {
            None => {
                if self.strategy.should_enter(analysis) {
                    match analysis.entry_direction {
                        Some(EntryDirection::Long) => TradeAction::OpenLong,
                        Some(EntryDirection::Short) => TradeAction::OpenShort,
                        None => TradeAction::Nothing,
                    }
                } else {
                    TradeAction::Nothing
                }
            },
            Some(PositionSide::Long) => {
                if self.strategy.should_exit(analysis, true) {
                    TradeAction::CloseLong
                } else {
                    TradeAction::Nothing
                }
            },
            Some(PositionSide::Short) => {
                if self.strategy.should_exit(analysis, false) {
                    TradeAction::CloseShort
                } else {
                    TradeAction::Nothing
                }
            },
        }
    }

    /// The entry's quantity can be computed.
    pub open spec fn entry_ok(self, price: Dec) -> bool {
        &&& can_mul(self.portfolio@.cash, self.position_ratio)
        &&& can_div(product(self.portfolio@.cash, self.position_ratio), price)
    }

    /// Opens a long position with the position ratio of the cash at `price`; nothing (`None`)
    /// when that quantity is not positive, else the portfolio's answer.
    pub fn open_long(&mut self, price: Dec) -> (r: Option<Result<(), String>>)
        requires
            old(self).portfolio@.wf(),
            old(self).entry_ok(price),
            entry_quantity(old(self).portfolio@.cash, old(self).position_ratio, price).value() > 0 ==> old(
                self,
            ).portfolio@.buy_ok(old(self).symbol@, entry_quantity(old(self).portfolio@.cash, old(self).position_ratio, price), price),
        ensures
            final(self).portfolio@.wf(),
            final(self).strategy == old(self).strategy,
            final(self).symbol == old(self).symbol,
            final(self).aggregator == old(self).aggregator,
            final(self).position_ratio == old(self).position_ratio,
            ({
                let q = entry_quantity(old(self).portfolio@.cash, old(self).position_ratio, price);
                if q.value() > 0 {
                    &&& r is Some
                    &&& final(self).portfolio@ == old(self).portfolio@.after_buy(
                        old(self).symbol,
                        q,
                        price,
                        final(self).portfolio@.trades.last().timestamp,
                    )
                    &&& (r->0 is Ok <==> !old(self).portfolio@.buy_refused(q, price))
                } else {
                    r is None && final(self).portfolio@ == old(self).portfolio@
                }
            }),
    {
        let available = self.portfolio.cash.mul(self.position_ratio);
        let quantity = available.div(price);
        if quantity.le(&Dec::zero()) {
            return None;
        }
        let name = self.symbol.clone();
        Some(self.portfolio.execute_buy(name, quantity, price))
    }

    /// Opens a short position with the position ratio of the cash at `price`; nothing (`None`)
    /// when that quantity is not positive, else the portfolio's answer.
    pub fn open_short(&mut self, price: Dec) -> (r: Option<Result<(), String>>)
        requires
            old(self).portfolio@.wf(),
            old(self).entry_ok(price),
            entry_quantity(old(self).portfolio@.cash, old(self).position_ratio, price).value() > 0 ==> old(
                self,
            ).portfolio@.short_open_ok(old(self).symbol@, entry_quantity(old(self).portfolio@.cash, old(self).position_ratio, price), price),
        ensures
            final(self).portfolio@.wf(),
            final(self).strategy == old(self).strategy,
            final(self).symbol == old(self).symbol,
            final(self).aggregator == old(self).aggregator,
            final(self).position_ratio == old(self).position_ratio,
            ({
                let q = entry_quantity(old(self).portfolio@.cash, old(self).position_ratio, price);
                if q.value() > 0 {
                    &&& r is Some
                    &&& final(self).portfolio@ == old(self).portfolio@.after_short_open(
                        old(self).symbol,
                        q,
                        price,
                        final(self).portfolio@.trades.last().timestamp,
                    )
                } else {
                    r is None && final(self).portfolio@ == old(self).portfolio@
                }
            }),
    {
        let available = self.portfolio.cash.mul(self.position_ratio);
        let quantity = available.div(price);
        if quantity.le(&Dec::zero()) {
            return None;
        }
        let name = self.symbol.clone();
        Some(self.portfolio.execute_short_open(name, quantity, price))
    }

    /// The quantity of the position in the symbol, if there is one.
    pub open spec fn held_quantity(self) -> Option<Dec> {
        match find_position(self.portfolio@.positions, self.symbol@) {
            Some(i) => Some(self.portfolio@.positions[i].quantity),
            None => None,
        }
    }

    /// Sells the whole long position at `price`; nothing (`None`) without a position.
    pub fn close_long(&mut self, price: Dec) -> (r: Option<Result<(), String>>)
        requires
            old(self).portfolio@.wf(),
            old(self).held_quantity() is Some ==> old(self).portfolio@.sell_ok(old(self).symbol@, old(self).held_quantity()->0, price),
        ensures
            final(self).portfolio@.wf(),
            final(self).strategy == old(self).strategy,
            final(self).symbol == old(self).symbol,
            final(self).aggregator == old(self).aggregator,
            final(self).position_ratio == old(self).position_ratio,
            match old(self).held_quantity() {
                Some(q) => r is Some && final(self).portfolio@ == old(self).portfolio@.after_sell(
                    old(self).symbol,
                    q,
                    price,
                    final(self).portfolio@.trades.last().timestamp,
                ),
                None => r is None && final(self).portfolio@ == old(self).portfolio@,
            },
    {
        let quantity = match self.portfolio.get_position(self.symbol.as_str()) {
            Some(position) => position.quantity,
            None => return None,
        };
        let name = self.symbol.clone();
        Some(self.portfolio.execute_sell(name, quantity, price))
    }

    /// Buys back the whole short position at `price`; nothing (`None`) without a position.
    pub fn close_short(&mut self, price: Dec) -> (r: Option<Result<(), String>>)
        requires
            old(self).portfolio@.wf(),
            old(self).held_quantity() is Some ==> old(self).portfolio@.short_close_ok(old(self).symbol@, old(self).held_quantity()->0, price),
        ensures
            final(self).portfolio@.wf(),
            final(self).strategy == old(self).strategy,
            final(self).symbol == old(self).symbol,
            final(self).aggregator == old(self).aggregator,
            final(self).position_ratio == old(self).position_ratio,
            match old(self).held_quantity() {
                Some(q) => r is Some && final(self).portfolio@ == old(self).portfolio@.after_short_close(
                    old(self).symbol,
                    q,
                    price,
                    final(self).portfolio@.trades.last().timestamp,
                ),
                None => r is None && final(self).portfolio@ == old(self).portfolio@,
            },
    {
        let quantity = match self.portfolio.get_position(self.symbol.as_str()) {
            Some(position) => position.quantity,
            None => return None,
        };
        let name = self.symbol.clone();
        Some(self.portfolio.execute_short_close(name, quantity, price))
    }

    /// The figures of the backtest so far, with the risk figures computed from its equity curve
    /// and trades.
    pub fn build_result(&self, metrics: RiskMetrics) -> (r: BacktestResult)
        requires
            result_ok(self.portfolio@),
        ensures
            result_of(r, self.portfolio@, metrics, r.strategy_name@),
    {
        BacktestResult::from_portfolio(&self.portfolio, metrics, self.strategy.name())
    }
}

/// The aggregator after being fed the bars in order.
pub open spec fn fed_all(agg: AggregatorModel, bars: Seq<OHLCData>) -> AggregatorModel
    decreases bars.len(),
{
    if bars.len() == 0 {
        agg
    } else {
        fed_all(agg, bars.drop_last()).after_update(bars.last())
    }
}

/// The quantity held in the symbol, if there is a position.
pub open spec fn held_in(p: PortfolioModel, symbol: Seq<char>) -> Option<Dec> {
    match find_position(p.positions, symbol) {
        Some(i) => Some(p.positions[i].quantity),
        None => None,
    }
}

/// No step of the action at `price` overflows, for a portfolio trading `symbol` with entries of
/// the share `ratio` of the cash.
pub open spec fn act_ok(p: PortfolioModel, symbol: Seq<char>, ratio: Dec, action: TradeAction, price: Dec) -> bool {
    let q = entry_quantity(p.cash, ratio, price);
    let entry = can_mul(p.cash, ratio) && can_div(product(p.cash, ratio), price);
    match action {
        TradeAction::Nothing => true,
        TradeAction::OpenLong => entry && (q.value() > 0 ==> p.buy_ok(symbol, q, price)),
        TradeAction::OpenShort => entry && (q.value() > 0 ==> p.short_open_ok(symbol, q, price)),
        TradeAction::CloseLong => held_in(p, symbol) is Some ==> p.sell_ok(symbol, held_in(p, symbol)->0, price),
        TradeAction::CloseShort => held_in(p, symbol) is Some ==> p.short_close_ok(symbol, held_in(p, symbol)->0, price),
    }
}

/// Whether the action hands an order to the portfolio: an entry of a positive quantity, or the
/// close of an existing position.
pub open spec fn act_orders(p: PortfolioModel, symbol: Seq<char>, ratio: Dec, action: TradeAction, price: Dec) -> bool {
    match action {
        TradeAction::Nothing => false,
        TradeAction::OpenLong | TradeAction::OpenShort => entry_quantity(p.cash, ratio, price).value() > 0,
        TradeAction::CloseLong | TradeAction::CloseShort => held_in(p, symbol) is Some,
    }
}

/// The portfolio after the action at `price`, a resulting trade stamped `ts`.
pub open spec fn act_outcome(p: PortfolioModel, symbol: String, ratio: Dec, action: TradeAction, price: Dec, ts: i64) -> PortfolioModel {
    let q = entry_quantity(p.cash, ratio, price);
    if !act_orders(p, symbol@, ratio, action, price) {
        p
    } else {
        match action {
            TradeAction::OpenLong => p.after_buy(symbol, q, price, ts),
            TradeAction::OpenShort => p.after_short_open(symbol, q, price, ts),
            TradeAction::CloseLong => p.after_sell(symbol, held_in(p, symbol@)->0, price, ts),
            TradeAction::CloseShort => p.after_short_close(symbol, held_in(p, symbol@)->0, price, ts),
            TradeAction::Nothing => p,
        }
    }
}

/// What the engine did at one 1m bar: the action carried out (`Nothing` before the strategy
/// is asked) and the time stamp of a resulting trade.
pub struct ActStep {
    pub action: TradeAction,
    pub stamp: i64,
}

/// The portfolio after the steps over the first bars: at each, the bar's close recorded as the
/// symbol's price, then the step's action carried out at it.
pub open spec fn replay_actions(p: PortfolioModel, symbol: String, ratio: Dec, bars: Seq<OHLCData>, steps: Seq<ActStep>) -> PortfolioModel
    decreases steps.len(),
{
    if steps.len() == 0 {
        p
    } else {
        let k = steps.len() - 1;
        let q = replay_actions(p, symbol, ratio, bars, steps.drop_last());
        let close = bars[k].close;
        act_outcome(q.after_update_price(symbol@, close), symbol, ratio, steps.last().action, close, steps.last().stamp)
    }
}

/// The bars the strategy is shown: the latest of each timeframe, as the aggregator hands them
/// out.
pub open spec fn snapshot_of(agg: AggregatorModel) -> Seq<(Timeframe, Seq<OHLCData>)> {
    Seq::new(7, |i: int| (all_timeframes_order(i), last_n(agg.bars_of(all_timeframes_order(i)), all_timeframes_count(i))))
}

/// The action the strategy (in its state after the analysis) decides on for the analysis, given
/// the portfolio's position in the symbol.
pub open spec fn decided<S: MultiTimeframeStrategy>(st: S, an: MultiTimeframeAnalysis, q: PortfolioModel, symbol: Seq<char>) -> TradeAction {
    action_for(
        side_in(q, symbol),
        st.wants_entry(an),
        an.entry_direction,
        st.wants_exit(an, true),
        st.wants_exit(an, false),
    )
}

/// Whether the steps are those of a multi-timeframe backtest over the first bars, starting from
/// the strategy `s0`, the portfolio `p` and the aggregator `agg`: `states[j]` is the strategy
/// before bar `j` and `states[j + 1]` after it. At a bar after which some needed timeframe
/// still lacks bars, nothing happens; otherwise the strategy analyses the bars it is shown,
/// giving `analyses[j]`, and the step carries out the action it decides on.
pub open spec fn mtf_steps<S: MultiTimeframeStrategy>(
    s0: S,
    p: PortfolioModel,
    agg: AggregatorModel,
    symbol: String,
    ratio: Dec,
    bars: Seq<OHLCData>,
    steps: Seq<ActStep>,
    states: Seq<S>,
    analyses: Seq<Option<MultiTimeframeAnalysis>>,
) -> bool {
    &&& steps.len() <= bars.len()
    &&& states.len() == steps.len() + 1
    &&& analyses.len() == steps.len()
    &&& states[0] == s0
    &&& forall|j: int|
        0 <= j < steps.len() ==> {
            let a = fed_all(agg, bars.take(j + 1));
            let q = replay_actions(p, symbol, ratio, bars, steps.take(j)).after_update_price(symbol@, bars[j].close);
            if enough_bars(a, s0.timeframes_needed()) {
                &&& states[j].analyzes(snapshot_of(a), analyses[j], states[j + 1])
                &&& analyses[j] is Some
                &&& (#[trigger] steps[j]).action == decided(states[j + 1], analyses[j]->0, q, symbol@)
            } else {
                &&& steps[j].action == TradeAction::Nothing
                &&& states[j + 1] == states[j]
            }
        }
}

/// Where a multi-timeframe backtest over the bars stops for an overflow (where `Decimal`
/// panics): after the steps done, either the next bar cannot be aggregated or priced, or the
/// strategy, asked, gives no analysis (`outcome` is `None`), or an analysis whose decided
/// action cannot be carried out; or all bars are done and the result's figures cannot be
/// computed.
pub open spec fn mtf_stalls<S: MultiTimeframeStrategy>(
    s0: S,
    p: PortfolioModel,
    agg: AggregatorModel,
    symbol: String,
    ratio: Dec,
    bars: Seq<OHLCData>,
    steps: Seq<ActStep>,
    states: Seq<S>,
    analyses: Seq<Option<MultiTimeframeAnalysis>>,
    outcome: Option<MultiTimeframeAnalysis>,
    after: S,
) -> bool {
    let k = steps.len();
    let q = replay_actions(p, symbol, ratio, bars, steps);
    let a = fed_all(agg, bars.take(k as int));
    &&& mtf_steps(s0, p, agg, symbol, ratio, bars, steps, states, analyses)
    &&& if k < bars.len() {
        let b = bars[k as int];
        let q2 = q.after_update_price(symbol@, b.close);
        ||| !a.update_ok(b)
        ||| !q.update_price_ok(symbol@, b.close)
        ||| {
            &&& enough_bars(a.after_update(b), s0.timeframes_needed())
            &&& states.last().analyzes(snapshot_of(a.after_update(b)), outcome, after)
            &&& match outcome {
                None => true,
                Some(an) => !act_ok(q2, symbol@, ratio, decided(after, an, q2, symbol@), b.close),
            }
        }
    } else {
        !result_ok(q)
    }
}

/// What a multi-timeframe backtest over the bars gives, from the strategy `s0`, the portfolio
/// `p` and the aggregator `agg`: the figures of the portfolio after a step per bar, or `None`
/// where it stalls for an overflow.
pub open spec fn mtf_ran<S: MultiTimeframeStrategy>(
    s0: S,
    p: PortfolioModel,
    agg: AggregatorModel,
    symbol: String,
    ratio: Dec,
    bars: Seq<OHLCData>,
    r: Option<BacktestResult>,
) -> bool {
    match r {
        Some(res) => exists|steps: Seq<ActStep>, states: Seq<S>, analyses: Seq<Option<MultiTimeframeAnalysis>>|
            #[trigger] mtf_steps(s0, p, agg, symbol, ratio, bars, steps, states, analyses)
            && steps.len() == bars.len()
            && replay_actions(p, symbol, ratio, bars, steps).wf()
            && result_core(res, replay_actions(p, symbol, ratio, bars, steps), res.strategy_name@)
            && result_figures(res),
        None => exists|
            steps: Seq<ActStep>,
            states: Seq<S>,
            analyses: Seq<Option<MultiTimeframeAnalysis>>,
            outcome: Option<MultiTimeframeAnalysis>,
            after: S,
        | #[trigger] mtf_stalls(s0, p, agg, symbol, ratio, bars, steps, states, analyses, outcome, after),
    }
}

impl<S: MultiTimeframeStrategy> MultiTimeframeBacktestEngine<S> {
    /// No step of the action at `price` overflows.
    pub open spec fn action_ok(self, action: TradeAction, price: Dec) -> bool {
        act_ok(self.portfolio@, self.symbol@, self.position_ratio, action, price)
    }

    /// Whether the action at `price` is free of overflow.
    pub fn can_act(&self, action: TradeAction, price: Dec) -> (r: bool)
        requires
            self.portfolio@.wf(),
        ensures
            r == self.action_ok(action, price),
    {
        match action {
            TradeAction::Nothing => true,
            TradeAction::OpenLong | TradeAction::OpenShort => {
                let available = match self.portfolio.cash.checked_mul(self.position_ratio) {
                    Some(v) => v,
                    None => return false,
                };
                let quantity = match available.checked_div(price) {
                    Some(v) => v,
                    None => return false,
                };
                if quantity.le(&Dec::zero()) {
                    return true;
                }
                match action {
                    TradeAction::OpenLong => self.portfolio.can_execute_buy(self.symbol.as_str(), quantity, price),
                    _ => self.portfolio.can_execute_short_open(self.symbol.as_str(), quantity, price),
                }
            },
            TradeAction::CloseLong | TradeAction::CloseShort => {
                let quantity = match self.portfolio.get_position(self.symbol.as_str()) {
                    Some(position) => position.quantity,
                    None => return true,
                };
                match action {
                    TradeAction::CloseLong => self.portfolio.can_execute_sell(self.symbol.as_str(), quantity, price),
                    _ => self.portfolio.can_execute_short_close(self.symbol.as_str(), quantity, price),
                }
            },
        }
    }

    /// Carries out the action at `price`: nothing, an entry (long or short) with the position
    /// ratio of the cash, or closing the whole position.
    pub fn act(&mut self, action: TradeAction, price: Dec) -> (r: Option<Result<(), String>>)
        requires
            old(self).portfolio@.wf(),
            old(self).action_ok(action, price),
        ensures
            final(self).portfolio@.wf(),
            final(self).strategy == old(self).strategy,
            final(self).symbol == old(self).symbol,
            final(self).aggregator == old(self).aggregator,
            final(self).position_ratio == old(self).position_ratio,
            action == TradeAction::Nothing ==> r is None && final(self).portfolio@ == old(self).portfolio@,
            r is Some <==> act_orders(old(self).portfolio@, old(self).symbol@, old(self).position_ratio, action, price),
            final(self).portfolio@ == act_outcome(
                old(self).portfolio@,
                old(self).symbol,
                old(self).position_ratio,
                action,
                price,
                final(self).portfolio@.trades.last().timestamp,
            ),
    {
        match action {
            TradeAction::Nothing => None,
            TradeAction::OpenLong => self.open_long(price),
            TradeAction::OpenShort => self.open_short(price),
            TradeAction::CloseLong => self.close_long(price),
            TradeAction::CloseShort => self.close_short(price),
        }
    }

    /// Runs the backtest over the 1m bars: each feeds the aggregator and prices the symbol;
    /// once every timeframe the strategy needs has enough completed bars, the strategy analyses
    /// them and its decision is carried out at the bar's close. Then the result is computed.
    /// `None` at the first step whose decimal arithmetic would overflow (where `Decimal`
    /// panics).
    pub fn run<M: RiskMetricsSource>(&mut self, klines_1m: Vec<OHLCData>, source: &M) -> (r: Option<BacktestResult>)
        requires
            old(self).portfolio@.wf(),
            old(self).aggregator@.wf(),
        ensures
            final(self).portfolio@.wf(),
            final(self).portfolio@.initial_capital == old(self).portfolio@.initial_capital,
            mtf_ran(
                old(self).strategy,
                old(self).portfolio@,
                old(self).aggregator@,
                old(self).symbol,
                old(self).position_ratio,
                klines_1m@,
                r,
            ),
            r matches Some(res) ==> {
                &&& result_core(res, final(self).portfolio@, res.strategy_name@)
                &&& result_figures(res)
                &&& final(self).aggregator@ == fed_all(old(self).aggregator@, klines_1m@)
                &&& exists|steps: Seq<ActStep>, states: Seq<S>, analyses: Seq<Option<MultiTimeframeAnalysis>>|
                    #[trigger] mtf_steps(
                        old(self).strategy,
                        old(self).portfolio@,
                        old(self).aggregator@,
                        old(self).symbol,
                        old(self).position_ratio,
                        klines_1m@,
                        steps,
                        states,
                        analyses,
                    ) && steps.len() == klines_1m@.len()
                    && final(self).portfolio@ == replay_actions(
                        old(self).portfolio@,
                        old(self).symbol,
                        old(self).position_ratio,
                        klines_1m@,
                        steps,
                    ) && final(self).strategy == states.last()
            },
    {
        let ghost start = self.aggregator@;
        let ghost p0 = self.portfolio@;
        let ghost s0 = self.strategy;
        let ghost sym = self.symbol;
        let ghost ratio = self.position_ratio;
        let ghost needed = self.strategy.timeframes_needed();
        let ghost mut steps: Seq<ActStep> = Seq::empty();
        let ghost mut states: Seq<S> = seq![self.strategy];
        let ghost mut analyses: Seq<Option<MultiTimeframeAnalysis>> = Seq::empty();
        let mut i: usize = 0;
        while i < klines_1m.len()
            invariant
                self.portfolio@.wf(),
                self.aggregator@.wf(),
                i <= klines_1m@.len(),
                self.aggregator@ == fed_all(start, klines_1m@.take(i as int)),
                start == old(self).aggregator@,
                p0 == old(self).portfolio@,
                s0 == old(self).strategy,
                sym == old(self).symbol,
                ratio == old(self).position_ratio,
                needed == s0.timeframes_needed(),
                self.symbol == sym,
                self.position_ratio == ratio,
                self.strategy.timeframes_needed() == needed,
                steps.len() == i,
                mtf_steps(s0, p0, start, sym, ratio, klines_1m@, steps, states, analyses),
                self.strategy == states.last(),
                self.portfolio@ == replay_actions(p0, sym, ratio, klines_1m@, steps),
                self.portfolio@.initial_capital == p0.initial_capital,
            decreases klines_1m@.len() - i,
        {
            let kline = &klines_1m[i];
            if !self.aggregator.can_update(kline) || !self.portfolio.can_update_price(self.symbol.as_str(), kline.close) {
                proof {
                    assert(mtf_stalls(s0, p0, start, sym, ratio, klines_1m@, steps, states, analyses, None, s0));
                }
                return None;
            }
            let ready = self.feed_bar(kline);
            proof {
                assert(klines_1m@.take(i + 1int).drop_last() =~= klines_1m@.take(i as int));
            }
            let ghost mut step = ActStep { action: TradeAction::Nothing, stamp: 0 };
            let ghost mut seen: Option<MultiTimeframeAnalysis> = None;
            if ready {
                let snapshot = self.aggregator.get_all_timeframes();
                proof {
                    assert(klines_view(snapshot@) =~= snapshot_of(self.aggregator@));
                }
                let analysis = match self.strategy.analyze(&snapshot) {
                    Some(a) => a,
                    None => {
                        proof {
                            assert(mtf_stalls(s0, p0, start, sym, ratio, klines_1m@, steps, states, analyses, None, self.strategy));
                        }
                        return None;
                    },
                };
                let action = self.decide(&analysis);
                if !self.can_act(action, kline.close) {
                    proof {
                        assert(mtf_stalls(s0, p0, start, sym, ratio, klines_1m@, steps, states, analyses, Some(analysis), self.strategy));
                    }
                    return None;
                }
                let _outcome = self.act(action, kline.close);
                proof {
                    step = ActStep { action, stamp: self.portfolio@.trades.last().timestamp };
                    seen = Some(analysis);
                }
            }
            proof {
                let old_steps = steps;
                let old_states = states;
                let old_analyses = analyses;
                steps = steps.push(step);
                states = states.push(self.strategy);
                analyses = analyses.push(seen);
                assert(steps.drop_last() =~= old_steps);
                assert(steps.take(i as int) =~= old_steps);
                assert(steps.last() == step);
                assert(self.portfolio@ == replay_actions(p0, sym, ratio, klines_1m@, steps));
                assert forall|j: int| 0 <= j < steps.len() implies {
                    let a = fed_all(start, klines_1m@.take(j + 1));
                    let q = replay_actions(p0, sym, ratio, klines_1m@, steps.take(j)).after_update_price(sym@, klines_1m@[j].close);
                    if enough_bars(a, s0.timeframes_needed()) {
                        &&& states[j].analyzes(snapshot_of(a), analyses[j], states[j + 1])
                        &&& analyses[j] is Some
                        &&& (#[trigger] steps[j]).action == decided(states[j + 1], analyses[j]->0, q, sym@)
                    } else {
                        &&& steps[j].action == TradeAction::Nothing
                        &&& states[j + 1] == states[j]
                    }
                } by {
                    if j < i {
                        assert(steps[j] == old_steps[j]);
                        assert(steps.take(j) =~= old_steps.take(j));
                        assert(states[j] == old_states[j]);
                        assert(states[j + 1] == old_states[j + 1]);
                        assert(analyses[j] == old_analyses[j]);
                    }
                }
                assert(mtf_steps(s0, p0, start, sym, ratio, klines_1m@, steps, states, analyses));
            }
            i = i + 1;
        }
        proof {
            assert(klines_1m@.take(klines_1m@.len() as int) =~= klines_1m@);
        }
        let name = self.strategy.name();
        let r = BacktestResult::try_from_portfolio(&self.portfolio, source, name);
        proof {
            if r is None {
                assert(mtf_stalls(s0, p0, start, sym, ratio, klines_1m@, steps, states, analyses, None, s0));
            } else {
                assert(mtf_steps(s0, p0, start, sym, ratio, klines_1m@, steps, states, analyses));
            }
        }
        r
    }
}


/// Whether `p` and `agg` are what a fresh engine starts from under the configuration: a
/// portfolio with the configured capital as cash, the configured commission rate, the default
/// slippage and nothing else, and an empty aggregator.
pub open spec fn fresh_start(p: PortfolioModel, agg: AggregatorModel, config: BacktestConfig) -> bool {
    &&& p.wf()
    &&& p.initial_capital == config.initial_capital
    &&& p.cash == config.initial_capital
    &&& p.positions.len() == 0
    &&& p.trades.len() == 0
    &&& p.current_prices.len() == 0
    &&& p.commission_rate == config.commission_rate
    &&& p.slippage_pct.mant() == 1 && p.slippage_pct.scl() == 4
    &&& p.total_slippage_cost == Dec::spec_zero()
    &&& agg.wf()
    &&& agg.klines_1m.len() == 0
    &&& forall|s: int| 0 <= s < slot_count() ==> agg.aggregated[s].len() == 0 && agg.current[s] is None
}

/// The position ratio of a fresh engine: 90%.
pub open spec fn default_ratio() -> Dec {
    quotient(count_dec(90), count_dec(100))
}

/// What backtesting the bars with the strategy `s` on a fresh engine for the symbol gives: the
/// strategy's error where, reset, it refuses the configured parameters; otherwise the backtest
/// of the reset and initialised strategy from a fresh start.
pub open spec fn fresh_backtest<S: MultiTimeframeStrategy>(
    s: S,
    config: BacktestConfig,
    symbol: Seq<char>,
    bars: Seq<OHLCData>,
    r: Option<Result<BacktestResult, String>>,
) -> bool {
    let init = s.after_reset().initialized_with(config.strategy_params@);
    match init.1 {
        Some(e) => r matches Some(Err(x)) && x@ == e,
        None => match r {
            Some(x) => x is Ok && ran_fresh(init.0, config, symbol, bars, Some(x->Ok_0)),
            None => ran_fresh(init.0, config, symbol, bars, None),
        },
    }
}

/// What the backtest of the bars with the (initialised) strategy `s` from a fresh start for
/// the symbol gives.
pub open spec fn ran_fresh<S: MultiTimeframeStrategy>(
    s: S,
    config: BacktestConfig,
    symbol: Seq<char>,
    bars: Seq<OHLCData>,
    r: Option<BacktestResult>,
) -> bool {
    exists|p: PortfolioModel, agg: AggregatorModel, sym: String|
        sym@ == symbol && fresh_start(p, agg, config) && #[trigger] mtf_ran(s, p, agg, sym, default_ratio(), bars, r)
}

/// What backtesting the bars on a fresh engine with a strategy from the factory gives.
pub open spec fn window_ran<S: MultiTimeframeStrategy, F: Fn() -> S>(
    factory: F,
    config: BacktestConfig,
    symbol: Seq<char>,
    bars: Seq<OHLCData>,
    r: Option<Result<BacktestResult, String>>,
) -> bool {
    exists|s: S| call_ensures(factory, (), s) && #[trigger] fresh_backtest(s, config, symbol, bars, r)
}

/// Backtests the bars on a fresh engine for the symbol with a strategy from the factory: the
/// strategy's error where it refuses the configured parameters, `None` where the backtest's
/// decimal arithmetic overflows.
pub fn backtest_fresh<S: MultiTimeframeStrategy, F: Fn() -> S, M: RiskMetricsSource>(
    factory: &F,
    config: &BacktestConfig,
    symbol: &str,
    data: Vec<OHLCData>,
    source: &M,
) -> (r: Option<Result<BacktestResult, String>>)
    requires
        call_requires(*factory, ()),
    ensures
        window_ran(*factory, *config, symbol@, data@, r),
{
    let strategy = factory();
    let ghost s = strategy;
    let engine = MultiTimeframeBacktestEngine::new(strategy, config.duplicate(), String::from_str(symbol));
    let mut engine = match engine {
        Ok(e) => e,
        Err(e) => {
            assert(fresh_backtest(s, *config, symbol@, data@, Some(Err(e))));
            return Some(Err(e));
        },
    };
    let ghost p = engine.portfolio@;
    let ghost agg = engine.aggregator@;
    let ghost sym = engine.symbol;
    let ghost data_v = data@;
    assert(fresh_start(p, agg, *config));
    let r = engine.run(data, source);
    match r {
        Some(res) => {
            assert(mtf_ran(engine_strategy_of(s, *config), p, agg, sym, default_ratio(), data_v, Some(res)));
            assert(ran_fresh(engine_strategy_of(s, *config), *config, symbol@, data_v, Some(res)));
            assert(fresh_backtest(s, *config, symbol@, data_v, Some(Ok(res))));
            Some(Ok(res))
        },
        None => {
            assert(mtf_ran(engine_strategy_of(s, *config), p, agg, sym, default_ratio(), data_v, None));
            assert(fresh_backtest(s, *config, symbol@, data_v, None));
            None
        },
    }
}

/// The strategy a fresh engine runs: `s` reset and initialised with the configured parameters.
pub open spec fn engine_strategy_of<S: MultiTimeframeStrategy>(s: S, config: BacktestConfig) -> S {
    s.after_reset().initialized_with(config.strategy_params@).0
}

} // verus!
