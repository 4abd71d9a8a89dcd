//! Strategy interfaces, trading signals and the registry of the built-in strategies.
use crate::decimal::Dec;
use crate::indicators::MultiTimeframeAnalysis;
use crate::text::{concat, str_eq};
use crate::trend_strategy::{is_default_trend, TrendStrategy};
use crate::types::{OHLCData, TickData, Timeframe};
use vstd::prelude::*;
use vstd::string::StringExecFns;

verus! {

/// What a signal intends.
#[derive(Debug, Clone, Copy, PartialEq, Eq, Structural)]
pub enum SignalIntent {
    /// Open a new position.
    Entry,
    /// Close a position only (stop loss, take profit, trend reversal).
    Exit,
    /// Close the old position and open the opposite one.
    Reverse,
}

/// A trading signal.
#[derive(Debug, Clone)]
pub enum Signal {
    Buy {
        symbol: String,
        quantity: Dec,
        entry_price: Dec,
        intent: SignalIntent,
        /// The strategy's stop price, if it computed one.
        stop_loss: Option<Dec>,
    },
    Sell {
        symbol: String,
        quantity: Dec,
        entry_price: Dec,
        intent: SignalIntent,
        /// The strategy's stop price, if it computed one.
        stop_loss: Option<Dec>,
    },
    Hold,
}

/// A strategy driven by ticks or bars.
pub trait Strategy: Sized {
    fn name(&self) -> String;

    /// The signal the strategy gives for the tick in its present state.
    spec fn tick_signal(&self, tick: TickData) -> Signal;

    /// The strategy's state once it has seen the tick.
    spec fn after_tick(&self, tick: TickData) -> Self;

    /// The signal the strategy gives for the bar in its present state.
    spec fn bar_signal(&self, bar: OHLCData) -> Signal;

    /// The strategy's state once it has seen the bar.
    spec fn after_bar(&self, bar: OHLCData) -> Self;

    /// The signal for the tick; the strategy moves on to its state after the tick.
    fn on_tick(&mut self, tick: &TickData) -> (r: Signal)
        ensures
            r == old(self).tick_signal(*tick),
            *final(self) == old(self).after_tick(*tick),
    ;

    /// The strategy once initialised with the parameters, and what the initialisation returns.
    spec fn initialized_as(&self, params: Vec<(String, String)>) -> (Self, Result<(), String>);

    /// Reads the parameters, or refuses them with an error.
    fn initialize(&mut self, params: &Vec<(String, String)>) -> (r: Result<(), String>)
        ensures
            (*final(self), r) == old(self).initialized_as(*params),
    ;

    /// The strategy once reset for a new backtest.
    spec fn after_reset(&self) -> Self;

    /// Resets the state for a new backtest.
    fn reset(&mut self)
        ensures
            *final(self) == old(self).after_reset(),
    ;

    /// The signal for the bar; the strategy moves on to its state after the bar.
    fn on_ohlc(&mut self, ohlc: &OHLCData) -> (r: Signal)
        ensures
            r == old(self).bar_signal(*ohlc),
            *final(self) == old(self).after_bar(*ohlc),
    ;

    fn supports_ohlc(&self) -> bool;

    fn preferred_timeframe(&self) -> Option<Timeframe>;
}

/// The bars of each timeframe, taken by value.
pub open spec fn klines_view(klines: Seq<(Timeframe, Vec<OHLCData>)>) -> Seq<(Timeframe, Seq<OHLCData>)> {
    klines.map_values(|e: (Timeframe, Vec<OHLCData>)| (e.0, e.1@))
}

/// A strategy that analyses several timeframes at once.
pub trait MultiTimeframeStrategy: Sized {
    fn name(&self) -> String;

    fn description(&self) -> String;

    /// The timeframes the strategy needs, from the largest down.
    spec fn timeframes_needed(&self) -> Seq<Timeframe>;

    /// The timeframes the strategy needs, from the largest down.
    fn required_timeframes(&self) -> (r: Vec<Timeframe>)
        ensures
            r@ == self.timeframes_needed(),
    ;

    /// The strategy's state once initialised with the parameters, and the error it gives when it
    /// refuses them.
    spec fn initialized_with(&self, params: Seq<(String, String)>) -> (Self, Option<Seq<char>>);

    /// Reads the parameters, or refuses them with an error.
    fn initialize(&mut self, params: &Vec<(String, String)>) -> (r: Result<(), String>)
        ensures
            *final(self) == old(self).initialized_with(params@).0,
            match r {
                Ok(()) => old(self).initialized_with(params@).1 is None,
                Err(e) => old(self).initialized_with(params@).1 == Some(e@),
            },
    ;

    /// Whether analysing the bars of each timeframe may give `r` and leave the strategy as
    /// `after`.
    spec fn analyzes(&self, klines: Seq<(Timeframe, Seq<OHLCData>)>, r: Option<MultiTimeframeAnalysis>, after: Self) -> bool;

    /// Analyses the bars of each timeframe, keeping the timeframes it needs; `None` where the
    /// analysis's decimal arithmetic overflows.
    fn analyze(&mut self, klines: &Vec<(Timeframe, Vec<OHLCData>)>) -> (r: Option<MultiTimeframeAnalysis>)
        ensures
            final(self).timeframes_needed() == old(self).timeframes_needed(),
            old(self).analyzes(klines_view(klines@), r, *final(self)),
    ;

    /// Whether the analysis calls for opening a position.
    spec fn wants_entry(&self, analysis: MultiTimeframeAnalysis) -> bool;

    /// Whether the analysis calls for opening a position.
    fn should_enter(&self, analysis: &MultiTimeframeAnalysis) -> (r: bool)
        ensures
            r == self.wants_entry(*analysis),
    ;

    /// Whether the analysis calls for closing the position (long or short).
    spec fn wants_exit(&self, analysis: MultiTimeframeAnalysis, is_long: bool) -> bool;

    /// Whether the analysis calls for closing the position (long or short).
    fn should_exit(&self, analysis: &MultiTimeframeAnalysis, is_long: bool) -> (r: bool)
        ensures
            r == self.wants_exit(*analysis, is_long),
    ;

    /// The strategy's state once reset for a new backtest.
    spec fn after_reset(&self) -> Self;

    /// Resets the state for a new backtest.
    fn reset(&mut self)
        ensures
            *final(self) == old(self).after_reset(),
    ;
}

/// Registry entry of a strategy.
#[derive(Debug, Clone)]
pub struct StrategyInfo {
    pub id: String,
    pub name: String,
    pub description: String,
    pub is_multi_timeframe: bool,
}

impl StrategyInfo {
    /// A copy of the entry.
    pub fn duplicate(&self) -> (r: StrategyInfo)
        ensures
            r == *self,
    {
        StrategyInfo {
            id: self.id.clone(),
            name: self.name.clone(),
            description: self.description.clone(),
            is_multi_timeframe: self.is_multi_timeframe,
        }
    }
}

/// The identifier of the built-in strategy.
pub open spec fn pullback_id() -> Seq<char> {
    "ma_trend_pullback"@
}

/// The name of the built-in strategy.
pub open spec fn pullback_name() -> Seq<char> {
    "MA Trend Pullback"@
}

/// The description of the built-in strategy.
pub open spec fn pullback_description() -> Seq<char> {
    "Dual MA trend pullback strategy: MA288/MA488 trend detection with MA288 crossover entry and trailing stop"@
}

/// Whether the entry is the built-in strategy's registry entry.
pub open spec fn is_pullback_info(info: StrategyInfo) -> bool {
    &&& info.id@ == pullback_id()
    &&& info.name@ == pullback_name()
    &&& info.description@ == pullback_description()
    &&& !info.is_multi_timeframe
}

fn pullback_info() -> (r: StrategyInfo)
    ensures
        is_pullback_info(r),
{
    StrategyInfo {
        id: String::from_str("ma_trend_pullback"),
        name: String::from_str("MA Trend Pullback"),
        description: String::from_str(
            "Dual MA trend pullback strategy: MA288/MA488 trend detection with MA288 crossover entry and trailing stop",
        ),
        is_multi_timeframe: false,
    }
}

/// The strategies that can be backtested: the MA trend pullback strategy.
pub fn list_strategies() -> (r: Vec<StrategyInfo>)
    ensures
        r@.len() == 1,
        is_pullback_info(r@[0]),
{
    let mut v: Vec<StrategyInfo> = Vec::new();
    v.push(pullback_info());
    v
}

/// Builds the multi-timeframe strategy registered under the id: `"trend"` gives a fresh
/// multi-timeframe trend strategy; any other id is refused as unknown.
pub fn create_multi_timeframe_strategy(strategy_id: &str) -> (r: Result<TrendStrategy, String>)
    ensures
        strategy_id@ == "trend"@ ==> (r matches Ok(s) && is_default_trend(s)),
        strategy_id@ != "trend"@ ==> (r matches Err(e) && e@ == "Unknown multi-timeframe strategy: "@ + strategy_id@),
{
    if str_eq(strategy_id, "trend") {
        Ok(TrendStrategy::new())
    } else {
        Err(concat(String::from_str("Unknown multi-timeframe strategy: "), strategy_id))
    }
}

/// The registry entry of the strategy, if it is listed.
pub fn get_strategy_info(strategy_id: &str) -> (r: Option<StrategyInfo>)
    ensures
        match r {
            Some(info) => strategy_id@ == pullback_id() && is_pullback_info(info),
            None => strategy_id@ != pullback_id(),
        },
{
    let list = list_strategies();
    let mut i: usize = 0;
    while i < list.len()
        invariant
            list@.len() == 1,
            is_pullback_info(list@[0]),
            i <= 1,
            i == 1 ==> strategy_id@ != pullback_id(),
        decreases 1 - i,
    {
        if str_eq(list[i].id.as_str(), strategy_id) {
            return Some(list[i].duplicate());
        }
        i = i + 1;
    }
    None
}

/// Whether the strategy is listed as a multi-timeframe one.
pub fn is_multi_timeframe_strategy(strategy_id: &str) -> (r: bool)
    ensures
        !r,
{
    match get_strategy_info(strategy_id) {
        Some(info) => info.is_multi_timeframe,
        None => false,
    }
}

/// The value stored for the key in the parameter list (the first one when a key repeats).
pub open spec fn param_value(params: Seq<(String, String)>, key: Seq<char>) -> Option<String>
    decreases params.len(),
{
    if params.len() == 0 {
        None
    } else if params[0].0@ == key {
        Some(params[0].1)
    } else {
        param_value(params.drop_first(), key)
    }
}

/// The value stored for the key.
pub fn get_param<'a>(params: &'a Vec<(String, String)>, key: &str) -> (r: Option<&'a String>)
    ensures
        match r {
            Some(v) => param_value(params@, key@) == Some(*v),
            None => param_value(params@, key@) is None,
        },
{
    proof {
        assert(params@.skip(0) =~= params@);
    }
    let mut i: usize = 0;
    while i < params.len()
        invariant
            i <= params@.len(),
            param_value(params@, key@) == param_value(params@.skip(i as int), key@),
        decreases params@.len() - i,
    {
        proof {
            assert(params@.skip(i as int).drop_first() =~= params@.skip(i + 1));
        }
        if str_eq(params[i].0.as_str(), key) {
            return Some(&params[i].1);
        }
        i = i + 1;
    }
    None
}

} // verus!
