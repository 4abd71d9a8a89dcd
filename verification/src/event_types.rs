//! The events of a trade's whole path: strategy analysis, risk check, order, fill, stop and
//! risk action. A signal id ties the events of one path together.
//!
//! Ids are 128-bit UUID values, instants are UTC milliseconds since the epoch, and free-form
//! details stay JSON values.
use crate::decimal::Dec;
use vstd::prelude::*;

verus! {

/// A JSON value, carried as it came.
#[verifier::external_type_specification]
#[verifier::external_body]
pub struct ExJsonValue(serde_json::Value);

/// One event on a trade's path.
#[derive(Debug)]
pub enum TradingEvent {
    /// A strategy finished an analysis.
    StrategyAnalyzed {
        signal_id: u128,
        strategy_id: String,
        symbol: String,
        direction: String,
        entry_price: Dec,
        confidence: Dec,
        signal_strength: Option<Dec>,
        stop_loss: Option<Dec>,
        take_profit: Option<Dec>,
        timeframe_details: serde_json::Value,
        market_context: Option<serde_json::Value>,
        reason: String,
        created_at: i64,
    },
    /// The outcome of a risk check.
    RiskCheck {
        signal_id: Option<u128>,
        exchange: String,
        market_type: String,
        symbol: String,
        check_type: String,
        result: String,
        reason: String,
        current_equity: Option<Dec>,
        peak_equity: Option<Dec>,
        daily_pnl: Option<Dec>,
        details: serde_json::Value,
        timestamp: i64,
    },
    /// An order was placed.
    OrderPlaced {
        signal_id: Option<u128>,
        order_id: String,
        exchange: String,
        market_type: String,
        symbol: String,
        side: String,
        quantity: Dec,
        order_type: String,
        timestamp: i64,
    },
    /// An order was filled.
    OrderFilled {
        signal_id: Option<u128>,
        order_id: String,
        exchange: String,
        market_type: String,
        symbol: String,
        side: String,
        quantity: Dec,
        avg_price: Dec,
        commission: Option<Dec>,
        slippage: Option<Dec>,
        pnl: Option<Dec>,
        event_type: String,
        timestamp: i64,
    },
    /// A stop loss or take profit fired.
    StopTriggered {
        signal_id: Option<u128>,
        order_id: Option<String>,
        exchange: String,
        market_type: String,
        symbol: String,
        trigger_type: String,
        trigger_price: Dec,
        close_price: Dec,
        quantity: Dec,
        pnl: Dec,
        timestamp: i64,
    },
    /// Risk control closed or reduced a position.
    RiskAction {
        signal_id: Option<u128>,
        exchange: String,
        market_type: String,
        action_type: String,
        symbol: Option<String>,
        reason: String,
        details: serde_json::Value,
        timestamp: i64,
    },
}

impl TradingEvent {
    /// The signal id the event belongs to, if it has one (an analysis always has one).
    pub open spec fn signal_of(self) -> Option<u128> {
        match self {
            TradingEvent::StrategyAnalyzed { signal_id, .. } => Some(signal_id),
            TradingEvent::RiskCheck { signal_id, .. } => signal_id,
            TradingEvent::OrderPlaced { signal_id, .. } => signal_id,
            TradingEvent::OrderFilled { signal_id, .. } => signal_id,
            TradingEvent::StopTriggered { signal_id, .. } => signal_id,
            TradingEvent::RiskAction { signal_id, .. } => signal_id,
        }
    }

    /// The instant the event carries (for an analysis, when it was made).
    pub open spec fn instant(self) -> i64 {
        match self {
            TradingEvent::StrategyAnalyzed { created_at, .. } => created_at,
            TradingEvent::RiskCheck { timestamp, .. } => timestamp,
            TradingEvent::OrderPlaced { timestamp, .. } => timestamp,
            TradingEvent::OrderFilled { timestamp, .. } => timestamp,
            TradingEvent::StopTriggered { timestamp, .. } => timestamp,
            TradingEvent::RiskAction { timestamp, .. } => timestamp,
        }
    }

    /// The name of the event's kind.
    pub open spec fn kind_text(self) -> Seq<char> {
        match self {
            TradingEvent::StrategyAnalyzed { .. } => "strategy_analyzed"@,
            TradingEvent::RiskCheck { .. } => "risk_check"@,
            TradingEvent::OrderPlaced { .. } => "order_placed"@,
            TradingEvent::OrderFilled { .. } => "order_filled"@,
            TradingEvent::StopTriggered { .. } => "stop_triggered"@,
            TradingEvent::RiskAction { .. } => "risk_action"@,
        }
    }

    /// The signal id the event belongs to, if any.
    pub fn signal_id(&self) -> (r: Option<u128>)
        ensures
            r == self.signal_of(),
    {
        match self {
            TradingEvent::StrategyAnalyzed { signal_id, .. } => Some(*signal_id),
            TradingEvent::RiskCheck { signal_id, .. } => *signal_id,
            TradingEvent::OrderPlaced { signal_id, .. } => *signal_id,
            TradingEvent::OrderFilled { signal_id, .. } => *signal_id,
            TradingEvent::StopTriggered { signal_id, .. } => *signal_id,
            TradingEvent::RiskAction { signal_id, .. } => *signal_id,
        }
    }

    /// The instant the event carries, in milliseconds since the epoch.
    pub fn timestamp(&self) -> (r: i64)
        ensures
            r == self.instant(),
    {
        match self {
            TradingEvent::StrategyAnalyzed { created_at, .. } => *created_at,
            TradingEvent::RiskCheck { timestamp, .. } => *timestamp,
            TradingEvent::OrderPlaced { timestamp, .. } => *timestamp,
            TradingEvent::OrderFilled { timestamp, .. } => *timestamp,
            TradingEvent::StopTriggered { timestamp, .. } => *timestamp,
            TradingEvent::RiskAction { timestamp, .. } => *timestamp,
        }
    }

    /// The name of the event's kind, such as "order_filled".
    pub fn event_type_name(&self) -> (r: &'static str)
        ensures
            r@ == self.kind_text(),
    {
        match self {
            TradingEvent::StrategyAnalyzed { .. } => "strategy_analyzed",
            TradingEvent::RiskCheck { .. } => "risk_check",
            TradingEvent::OrderPlaced { .. } => "order_placed",
            TradingEvent::OrderFilled { .. } => "order_filled",
            TradingEvent::StopTriggered { .. } => "stop_triggered",
            TradingEvent::RiskAction { .. } => "risk_action",
        }
    }
}

} // verus!
