//! The events that flow between market data, strategies, trading and the system, and the
//! filter that picks them by category.
//!
//! Instants are UTC milliseconds since the epoch; an order book side is a list of
//! (price, quantity) levels; strategy parameters are (key, value) pairs.
use crate::decimal::Dec;
use crate::types::{OHLCData, TickData, Timeframe};
use vstd::prelude::*;

verus! {

/// Market data.
#[derive(Clone, Debug)]
pub enum MarketEvent {
    /// A real-time trade.
    Tick(TickData),
    /// A finished bar.
    Kline(OHLCData),
    /// An order book update.
    OrderBookUpdate { symbol: String, bids: Vec<(Dec, Dec)>, asks: Vec<(Dec, Dec)>, timestamp: i64 },
    /// A mark price update.
    MarkPriceUpdate { symbol: String, mark_price: Dec, index_price: Dec, timestamp: i64 },
}

/// The state of an order.
#[derive(Clone, Copy, Debug, PartialEq, Eq, Structural)]
pub enum OrderStatus {
    New,
    PartiallyFilled,
    Filled,
    Canceled,
    Rejected,
    Expired,
}

/// The direction of an order.
#[derive(Clone, Copy, Debug, PartialEq, Eq, Structural)]
pub enum OrderSide {
    Buy,
    Sell,
}

/// The kind of an order.
#[derive(Clone, Copy, Debug, PartialEq, Eq, Structural)]
pub enum OrderType {
    Market,
    Limit,
    StopLoss,
    TakeProfit,
}

/// Order and position activity.
#[derive(Clone, Debug)]
pub enum TradingEvent {
    OrderPlaced {
        order_id: String,
        symbol: String,
        side: OrderSide,
        order_type: OrderType,
        quantity: Dec,
        price: Option<Dec>,
        timestamp: i64,
    },
    OrderFilled {
        order_id: String,
        symbol: String,
        side: OrderSide,
        filled_quantity: Dec,
        filled_price: Dec,
        commission: Dec,
        timestamp: i64,
    },
    OrderCancelled { order_id: String, symbol: String, timestamp: i64 },
    OrderRejected { order_id: String, symbol: String, reason: String, timestamp: i64 },
    PositionChanged {
        symbol: String,
        side: OrderSide,
        quantity: Dec,
        avg_price: Dec,
        unrealized_pnl: Dec,
        timestamp: i64,
    },
}

/// What a strategy signals.
#[derive(Clone, Copy, Debug, PartialEq, Eq, Structural)]
pub enum SignalType {
    Buy,
    Sell,
    Hold,
}

/// Strategy activity.
#[derive(Clone, Debug)]
pub enum StrategyEvent {
    SignalGenerated {
        strategy_id: String,
        symbol: String,
        signal: SignalType,
        price: Dec,
        timestamp: i64,
    },
    StrategyStarted { strategy_id: String, timestamp: i64 },
    StrategyStopped { strategy_id: String, reason: String, timestamp: i64 },
    ParametersUpdated { strategy_id: String, parameters: Vec<(String, String)>, timestamp: i64 },
}

/// The state of a connection to an exchange.
#[derive(Clone, Debug)]
pub enum ConnectionStatus {
    Connected,
    Disconnected,
    Reconnecting,
    Error(String),
}

/// System activity.
#[derive(Clone, Debug)]
pub enum SystemEvent {
    Error { module: String, message: String, timestamp: i64 },
    Heartbeat { timestamp: i64 },
    ConnectionChanged { exchange: String, status: ConnectionStatus, timestamp: i64 },
    DataCollectionStatus {
        symbol: String,
        timeframe: Timeframe,
        last_timestamp: i64,
        gap_detected: bool,
        timestamp: i64,
    },
}

/// Any event of the four categories.
#[derive(Clone, Debug)]
pub enum Event {
    Market(MarketEvent),
    Trading(TradingEvent),
    Strategy(StrategyEvent),
    System(SystemEvent),
}

impl MarketEvent {
    /// The instant a market event carries.
    pub open spec fn instant(self) -> i64 {
        match self {
            MarketEvent::Tick(tick) => tick.timestamp,
            MarketEvent::Kline(kline) => kline.timestamp,
            MarketEvent::OrderBookUpdate { timestamp, .. } => timestamp,
            MarketEvent::MarkPriceUpdate { timestamp, .. } => timestamp,
        }
    }
}

impl TradingEvent {
    /// The instant a trading event carries.
    pub open spec fn instant(self) -> i64 {
        match self {
            TradingEvent::OrderPlaced { timestamp, .. } => timestamp,
            TradingEvent::OrderFilled { timestamp, .. } => timestamp,
            TradingEvent::OrderCancelled { timestamp, .. } => timestamp,
            TradingEvent::OrderRejected { timestamp, .. } => timestamp,
            TradingEvent::PositionChanged { timestamp, .. } => timestamp,
        }
    }
}

impl StrategyEvent {
    /// The instant a strategy event carries.
    pub open spec fn instant(self) -> i64 {
        match self {
            StrategyEvent::SignalGenerated { timestamp, .. } => timestamp,
            StrategyEvent::StrategyStarted { timestamp, .. } => timestamp,
            StrategyEvent::StrategyStopped { timestamp, .. } => timestamp,
            StrategyEvent::ParametersUpdated { timestamp, .. } => timestamp,
        }
    }
}

impl SystemEvent {
    /// The instant a system event carries (for a data collection report, when it was made,
    /// not the last bar it saw).
    pub open spec fn instant(self) -> i64 {
        match self {
            SystemEvent::Error { timestamp, .. } => timestamp,
            SystemEvent::Heartbeat { timestamp } => timestamp,
            SystemEvent::ConnectionChanged { timestamp, .. } => timestamp,
            SystemEvent::DataCollectionStatus { timestamp, .. } => timestamp,
        }
    }
}

impl Event {
    /// The instant an event carries.
    pub open spec fn instant(self) -> i64 {
        match self {
            Event::Market(e) => e.instant(),
            Event::Trading(e) => e.instant(),
            Event::Strategy(e) => e.instant(),
            Event::System(e) => e.instant(),
        }
    }

    /// The name of an event's category.
    pub open spec fn category_text(self) -> Seq<char> {
        match self {
            Event::Market(_) => "market"@,
            Event::Trading(_) => "trading"@,
            Event::Strategy(_) => "strategy"@,
            Event::System(_) => "system"@,
        }
    }

    /// Wraps a market event.
    pub fn from_market(e: MarketEvent) -> (r: Event)
        ensures
            r == Event::Market(e),
    {
        Event::Market(e)
    }

    /// Wraps a trading event.
    pub fn from_trading(e: TradingEvent) -> (r: Event)
        ensures
            r == Event::Trading(e),
    {
        Event::Trading(e)
    }

    /// Wraps a strategy event.
    pub fn from_strategy(e: StrategyEvent) -> (r: Event)
        ensures
            r == Event::Strategy(e),
    {
        Event::Strategy(e)
    }

    /// Wraps a system event.
    pub fn from_system(e: SystemEvent) -> (r: Event)
        ensures
            r == Event::System(e),
    {
        Event::System(e)
    }

    /// The instant the event carries, in milliseconds since the epoch.
    pub fn timestamp(&self) -> (r: i64)
        ensures
            r == self.instant(),
    {
        match self {
            Event::Market(e) => match e {
                MarketEvent::Tick(tick) => tick.timestamp,
                MarketEvent::Kline(kline) => kline.timestamp,
                MarketEvent::OrderBookUpdate { timestamp, .. } => *timestamp,
                MarketEvent::MarkPriceUpdate { timestamp, .. } => *timestamp,
            },
            Event::Trading(e) => match e {
                TradingEvent::OrderPlaced { timestamp, .. } => *timestamp,
                TradingEvent::OrderFilled { timestamp, .. } => *timestamp,
                TradingEvent::OrderCancelled { timestamp, .. } => *timestamp,
                TradingEvent::OrderRejected { timestamp, .. } => *timestamp,
                TradingEvent::PositionChanged { timestamp, .. } => *timestamp,
            },
            Event::Strategy(e) => match e {
                StrategyEvent::SignalGenerated { timestamp, .. } => *timestamp,
                StrategyEvent::StrategyStarted { timestamp, .. } => *timestamp,
                StrategyEvent::StrategyStopped { timestamp, .. } => *timestamp,
                StrategyEvent::ParametersUpdated { timestamp, .. } => *timestamp,
            },
            Event::System(e) => match e {
                SystemEvent::Error { timestamp, .. } => *timestamp,
                SystemEvent::Heartbeat { timestamp } => *timestamp,
                SystemEvent::ConnectionChanged { timestamp, .. } => *timestamp,
                SystemEvent::DataCollectionStatus { timestamp, .. } => *timestamp,
            },
        }
    }

    /// The name of the event's category: "market", "trading", "strategy" or "system".
    pub fn category(&self) -> (r: &'static str)
        ensures
            r@ == self.category_text(),
    {
        match self {
            Event::Market(_) => "market",
            Event::Trading(_) => "trading",
            Event::Strategy(_) => "strategy",
            Event::System(_) => "system",
        }
    }
}

/// The capacity of the channel an event bus is made with.
pub struct EventBusConfig {
    pub capacity: usize,
}

impl EventBusConfig {
    /// A channel of 1024 slots.
    pub fn default() -> (r: EventBusConfig)
        ensures
            r.capacity == 1024,
    {
        EventBusConfig { capacity: 1024 }
    }
}

/// Which categories of events to handle.
#[derive(Clone, Copy, Debug, PartialEq, Eq, Structural)]
pub struct EventFilter {
    pub market: bool,
    pub trading: bool,
    pub strategy: bool,
    pub system: bool,
}

impl EventFilter {
    /// Whether the filter lets `event` through: the flag of the event's category.
    pub open spec fn admits(self, event: Event) -> bool {
        match event {
            Event::Market(_) => self.market,
            Event::Trading(_) => self.trading,
            Event::Strategy(_) => self.strategy,
            Event::System(_) => self.system,
        }
    }

    /// A filter that lets every event through.
    pub fn all() -> (r: EventFilter)
        ensures
            r == (EventFilter { market: true, trading: true, strategy: true, system: true }),
    {
        EventFilter { market: true, trading: true, strategy: true, system: true }
    }

    /// A filter that lets market events through and nothing else.
    pub fn market_only() -> (r: EventFilter)
        ensures
            r == (EventFilter { market: true, trading: false, strategy: false, system: false }),
    {
        EventFilter { market: true, trading: false, strategy: false, system: false }
    }

    /// A filter that lets trading events through and nothing else.
    pub fn trading_only() -> (r: EventFilter)
        ensures
            r == (EventFilter { market: false, trading: true, strategy: false, system: false }),
    {
        EventFilter { market: false, trading: true, strategy: false, system: false }
    }

    /// Whether the event passes the filter.
    pub fn matches(&self, event: &Event) -> (r: bool)
        ensures
            r == self.admits(*event),
    {
        match event {
            Event::Market(_) => self.market,
            Event::Trading(_) => self.trading,
            Event::Strategy(_) => self.strategy,
            Event::System(_) => self.system,
        }
    }
}

impl Default for EventFilter {
    /// The filter that lets every event through.
    fn default() -> (r: EventFilter)
        ensures
            r == (EventFilter { market: true, trading: true, strategy: true, system: true }),
    {
        EventFilter::all()
    }
}

/// The filter `all` lets every event through; `market_only` and `trading_only` let through
/// exactly the events of their one category.
pub proof fn lemma_filters_select_categories(event: Event)
    ensures
        (EventFilter { market: true, trading: true, strategy: true, system: true }).admits(event),
        (EventFilter { market: true, trading: false, strategy: false, system: false }).admits(event)
            <==> event is Market,
        (EventFilter { market: false, trading: true, strategy: false, system: false }).admits(event)
            <==> event is Trading,
{
}

} // verus!
