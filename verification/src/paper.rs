//! Paper trading: a simulated portfolio driven by live prices, with market orders filled at
//! once and limit, stop-loss and take-profit orders held until their price is reached.
use crate::decimal::{
    decimal_checked_add, decimal_checked_div, decimal_checked_mul, decimal_checked_sub,
    can_mul, decimal_display, min_of, product, Dec,
};
use crate::portfolio::{
    error_text, find_position, find_price, insufficient_funds_text, lemma_find_position, now_millis, Portfolio,
    PortfolioModel, Position, PositionSide, Trade,
};
use crate::text::{digits_text, pad_zeros, str_eq, u64_to_string, zero_padded};
use crate::types::TradeSide;
use vstd::pervasive::VecAdditionalExecFns;
use vstd::prelude::*;
use vstd::string::StringExecFns;

verus! {

/// Settings of a paper trader.
pub struct PaperTraderConfig {
    /// The strategy instance the trader belongs to, if any (a UUID as a 128-bit number).
    pub instance_id: Option<u128>,
    pub strategy_type: Option<String>,
    pub display_name: Option<String>,
    /// Starting capital, in USDT.
    pub initial_capital: Dec,
    /// e.g. 0.001 for 0.1%
    pub commission_rate: Dec,
    /// e.g. 0.0001 for 0.01%
    pub slippage_pct: Dec,
    /// The symbols watched.
    pub symbols: Vec<String>,
}

impl PaperTraderConfig {
    /// 10000 USDT, 0.1% commission, 0.01% slippage, watching BTCUSDT and ETHUSDT.
    pub fn default() -> (r: PaperTraderConfig)
        ensures
            r.instance_id is None,
            r.strategy_type is None,
            r.display_name is None,
            r.initial_capital == Dec::spec_new(10000, 0),
            r.commission_rate == Dec::spec_new(1, 3),
            r.slippage_pct == Dec::spec_new(1, 4),
            r.symbols@.len() == 2,
            r.symbols@[0]@ == "BTCUSDT"@,
            r.symbols@[1]@ == "ETHUSDT"@,
    {
        let mut symbols: Vec<String> = Vec::new();
        symbols.push(String::from_str("BTCUSDT"));
        symbols.push(String::from_str("ETHUSDT"));
        PaperTraderConfig {
            instance_id: None,
            strategy_type: None,
            display_name: None,
            initial_capital: Dec::from_int(10000),
            commission_rate: Dec::new(1, 3),
            slippage_pct: Dec::new(1, 4),
            symbols,
        }
    }
}

/// The kind of a paper order.
#[derive(Debug, Clone, Copy, PartialEq, Eq, Structural)]
pub enum PaperOrderType {
    /// Filled at once.
    Market,
    /// Filled once the price reaches the limit.
    Limit,
    /// Filled at market once the stop price is crossed.
    StopLoss,
    /// Filled at market once the target price is reached.
    TakeProfit,
}

/// The state of a paper order.
#[derive(Debug, Clone, Copy, PartialEq, Eq, Structural)]
pub enum PaperOrderStatus {
    /// Waiting for its price (limit, stop-loss, take-profit).
    Pending,
    Filled,
    Canceled,
    /// Refused by the portfolio (not enough cash and the like).
    Rejected,
}

/// A paper order.
#[derive(Debug)]
pub struct PaperOrder {
    pub order_id: String,
    pub symbol: String,
    pub side: TradeSide,
    pub order_type: PaperOrderType,
    pub quantity: Dec,
    /// The limit, stop or target price (none for a market order).
    pub price: Option<Dec>,
    pub status: PaperOrderStatus,
    pub filled_price: Option<Dec>,
    pub commission: Dec,
    /// When the order was placed, in milliseconds since the epoch.
    pub created_at: i64,
    /// When the order was filled, in milliseconds since the epoch.
    pub filled_at: Option<i64>,
    pub reject_reason: Option<String>,
}

impl PaperOrder {
    /// A copy of the order.
    pub fn duplicate(&self) -> (r: PaperOrder)
        ensures
            r == *self,
    {
        PaperOrder {
            order_id: self.order_id.clone(),
            symbol: self.symbol.clone(),
            side: self.side,
            order_type: self.order_type,
            quantity: self.quantity,
            price: self.price,
            status: self.status,
            filled_price: self.filled_price,
            commission: self.commission,
            created_at: self.created_at,
            filled_at: self.filled_at,
            reject_reason: match &self.reject_reason {
                Some(s) => Some(s.clone()),
                None => None,
            },
        }
    }
}

/// A copy of the orders.
pub fn copy_orders(v: &Vec<PaperOrder>) -> (r: Vec<PaperOrder>)
    ensures
        r@ == v@,
{
    let mut out: Vec<PaperOrder> = Vec::new();
    let mut i: usize = 0;
    while i < v.len()
        invariant
            i <= v@.len(),
            out@ == v@.take(i as int),
        decreases v@.len() - i,
    {
        out.push(v[i].duplicate());
        proof {
            assert(out@ =~= v@.take(i + 1));
        }
        i = i + 1;
    }
    proof {
        assert(out@ =~= v@);
    }
    out
}

/// A position as the status shows it.
pub struct PaperPosition {
    pub symbol: String,
    /// "Long" or "Short".
    pub side: String,
    pub quantity: Dec,
    pub avg_price: Dec,
    pub current_price: Dec,
    pub market_value: Dec,
    pub unrealized_pnl: Dec,
    pub unrealized_pnl_pct: Dec,
}

/// A snapshot of a paper trader.
pub struct PaperTraderStatus {
    pub running: bool,
    pub instance_id: Option<u128>,
    pub strategy_type: Option<String>,
    pub display_name: Option<String>,
    pub initial_capital: Dec,
    pub cash: Dec,
    /// Cash plus the value of the positions.
    pub total_value: Dec,
    pub total_pnl: Dec,
    pub total_pnl_pct: Dec,
    pub realized_pnl: Dec,
    pub unrealized_pnl: Dec,
    pub total_commission: Dec,
    /// The number of orders that are no longer pending.
    pub total_trades: usize,
    /// The share of closing trades that made money, in percent.
    pub win_rate: Dec,
    pub positions: Vec<PaperPosition>,
    pub pending_orders: usize,
    /// The latest price of each symbol.
    pub latest_prices: Vec<(String, Dec)>,
    /// When the trader was started, in milliseconds since the epoch.
    pub started_at: Option<i64>,
}

/// The paper trader.
pub struct PaperTrader {
    pub config: PaperTraderConfig,
    /// The simulated portfolio.
    pub portfolio: Portfolio,
    /// Orders waiting for their price.
    pub pending_orders: Vec<PaperOrder>,
    /// Orders no longer pending: filled, rejected or canceled.
    pub filled_orders: Vec<PaperOrder>,
    /// The latest price of each symbol, at most one entry per symbol.
    pub latest_prices: Vec<(String, Dec)>,
    pub running: bool,
    pub started_at: Option<i64>,
    /// The number of orders placed so far.
    pub order_counter: u64,
}

/// The latest prices with the symbols as texts.
pub open spec fn prices_view(v: Seq<(String, Dec)>) -> Seq<(Seq<char>, Dec)> {
    v.map_values(|e: (String, Dec)| (e.0@, e.1))
}

/// The identifier of the `n`-th order: `PAPER-` and the number on at least six digits.
pub open spec fn order_id_text(n: nat) -> Seq<char> {
    "PAPER-"@ + zero_padded(digits_text(n), 6)
}

impl PaperTrader {
    /// The trader's invariant: the portfolio has one position and one price per symbol, and the
    /// latest prices one entry per symbol.
    pub open spec fn wf(self) -> bool {
        &&& self.portfolio@.wf()
        &&& crate::portfolio::prices_distinct(prices_view(self.latest_prices@))
    }

    /// A stopped trader with the configured capital and commission (the portfolio's own
    /// default slippage), no orders and no prices.
    pub fn new(config: PaperTraderConfig) -> (r: PaperTrader)
        ensures
            r.wf(),
            r.portfolio@.initial_capital == config.initial_capital,
            r.portfolio@.cash == config.initial_capital,
            r.portfolio@.positions.len() == 0,
            r.portfolio@.trades.len() == 0,
            r.portfolio@.current_prices.len() == 0,
            r.portfolio@.commission_rate == config.commission_rate,
            r.portfolio@.slippage_pct.mant() == 1 && r.portfolio@.slippage_pct.scl() == 4,
            r.portfolio@.total_slippage_cost == Dec::spec_zero(),
            r.pending_orders@.len() == 0,
            r.filled_orders@.len() == 0,
            r.latest_prices@.len() == 0,
            !r.running,
            r.started_at is None,
            r.order_counter == 0,
            r.config == config,
    {
        let portfolio = Portfolio::new(config.initial_capital).with_commission_rate(config.commission_rate);
        let r = PaperTrader {
            config,
            portfolio,
            pending_orders: Vec::new(),
            filled_orders: Vec::new(),
            latest_prices: Vec::new(),
            running: false,
            started_at: None,
            order_counter: 0,
        };
        proof {
            assert(prices_view(r.latest_prices@) =~= Seq::<(Seq<char>, Dec)>::empty());
        }
        r
    }

    /// Starts the trader, stamping the start time.
    pub fn start(&mut self)
        requires
            old(self).wf(),
        ensures
            final(self).wf(),
            final(self).running,
            final(self).started_at is Some,
            final(self).portfolio == old(self).portfolio,
            final(self).pending_orders == old(self).pending_orders,
            final(self).filled_orders == old(self).filled_orders,
            final(self).latest_prices == old(self).latest_prices,
            final(self).order_counter == old(self).order_counter,
    {
        self.running = true;
        self.started_at = Some(now_millis());
    }

    /// Stops the trader.
    pub fn stop(&mut self)
        ensures
            *final(self) == (PaperTrader { running: false, ..*old(self) }),
    {
        self.running = false;
    }

    pub fn is_running(&self) -> (r: bool)
        ensures
            r == self.running,
    {
        self.running
    }

    pub fn instance_id(&self) -> (r: Option<u128>)
        ensures
            r == self.config.instance_id,
    {
        self.config.instance_id
    }

    pub fn strategy_type(&self) -> (r: Option<&str>)
        ensures
            match r {
                Some(s) => self.config.strategy_type is Some && s@ == self.config.strategy_type->0@,
                None => self.config.strategy_type is None,
            },
    {
        match &self.config.strategy_type {
            Some(s) => Some(s.as_str()),
            None => None,
        }
    }

    pub fn display_name(&self) -> (r: Option<&str>)
        ensures
            match r {
                Some(s) => self.config.display_name is Some && s@ == self.config.display_name->0@,
                None => self.config.display_name is None,
            },
    {
        match &self.config.display_name {
            Some(s) => Some(s.as_str()),
            None => None,
        }
    }

    /// Takes the next order identifier.
    fn next_order_id(&mut self) -> (r: String)
        requires
            old(self).order_counter < u64::MAX,
        ensures
            final(self).order_counter == old(self).order_counter + 1,
            r@ == order_id_text(final(self).order_counter as nat),
            *final(self) == (PaperTrader { order_counter: final(self).order_counter, ..*old(self) }),
    {
        self.order_counter = self.order_counter + 1;
        let digits = pad_zeros(u64_to_string(self.order_counter), 6);
        let mut id = String::from_str("PAPER-");
        id.append(digits.as_str());
        id
    }
}

/// The fill price: moved against the trader by the slippage rate (up for a buy, down for a
/// sell).
pub open spec fn paper_slipped(price: Dec, slippage_pct: Dec, side: TradeSide) -> Option<Dec> {
    match decimal_checked_mul(price, slippage_pct) {
        Some(s) => match side {
            TradeSide::Buy => decimal_checked_add(price, s),
            TradeSide::Sell => decimal_checked_sub(price, s),
        },
        None => None,
    }
}

impl PaperTrader {
    /// The fill price for the side, or `None` where `Decimal` would panic.
    pub fn try_apply_slippage(&self, price: Dec, side: TradeSide) -> (r: Option<Dec>)
        ensures
            r == paper_slipped(price, self.config.slippage_pct, side),
    {
        match price.checked_mul(self.config.slippage_pct) {
            Some(s) => match side {
                TradeSide::Buy => price.checked_add(s),
                TradeSide::Sell => price.checked_sub(s),
            },
            None => None,
        }
    }

    /// Records the latest price of the symbol.
    fn set_latest_price(&mut self, symbol: &str, price: Dec)
        requires
            old(self).wf(),
        ensures
            final(self).wf(),
            prices_view(final(self).latest_prices@) == match find_price(prices_view(old(self).latest_prices@), symbol@) {
                Some(i) => prices_view(old(self).latest_prices@).update(i, (symbol@, price)),
                None => prices_view(old(self).latest_prices@).push((symbol@, price)),
            },
            final(self).portfolio == old(self).portfolio,
            final(self).pending_orders == old(self).pending_orders,
            final(self).filled_orders == old(self).filled_orders,
            final(self).running == old(self).running,
            final(self).order_counter == old(self).order_counter,
            final(self).config == old(self).config,
            final(self).started_at == old(self).started_at,
    {
        let ghost before = prices_view(self.latest_prices@);
        let ghost start = *self;
        let mut i: usize = 0;
        while i < self.latest_prices.len()
            invariant
                *self == start,
                start == *old(self),
                start.wf(),
                before == prices_view(self.latest_prices@),
                crate::portfolio::prices_distinct(before),
                i <= before.len(),
                forall|j: int| 0 <= j < i ==> before[j].0 != symbol@,
            decreases before.len() - i,
        {
            if str_eq(self.latest_prices[i].0.as_str(), symbol) {
                let key = self.latest_prices[i].0.clone();
                self.latest_prices.set(i, (key, price));
                proof {
                    assert(prices_view(self.latest_prices@) =~= before.update(i as int, (symbol@, price)));
                    assert(before[i as int].0 == symbol@);
                    crate::portfolio::lemma_find_price(before, symbol@);
                    assert(find_price(before, symbol@) == Some(i as int));
                    assert(crate::portfolio::prices_distinct(prices_view(self.latest_prices@)));
                }
                return;
            }
            i = i + 1;
        }
        self.latest_prices.push((String::from_str(symbol), price));
        proof {
            assert(prices_view(self.latest_prices@) =~= before.push((symbol@, price)));
            crate::portfolio::lemma_find_price(before, symbol@);
            assert(crate::portfolio::prices_distinct(prices_view(self.latest_prices@)));
        }
    }

    /// The latest price of the symbol, if known.
    pub fn latest_price(&self, symbol: &str) -> (r: Option<Dec>)
        requires
            self.wf(),
        ensures
            r == match find_price(prices_view(self.latest_prices@), symbol@) {
                Some(i) => Some(prices_view(self.latest_prices@)[i].1),
                None => None::<Dec>,
            },
    {
        let ghost pv = prices_view(self.latest_prices@);
        let mut i: usize = 0;
        while i < self.latest_prices.len()
            invariant
                pv == prices_view(self.latest_prices@),
                crate::portfolio::prices_distinct(pv),
                i <= pv.len(),
                forall|j: int| 0 <= j < i ==> pv[j].0 != symbol@,
            decreases pv.len() - i,
        {
            if str_eq(self.latest_prices[i].0.as_str(), symbol) {
                proof {
                    assert(pv[i as int].0 == symbol@);
                    crate::portfolio::lemma_find_price(pv, symbol@);
                    assert(find_price(pv, symbol@) == Some(i as int));
                }
                return Some(self.latest_prices[i].1);
            }
            i = i + 1;
        }
        proof {
            crate::portfolio::lemma_find_price(pv, symbol@);
        }
        None
    }
}

/// Whether a pending order for `symbol` is triggered by the price `current`: a limit buy or a
/// take-profit buy at or below its price, a stop-loss buy at or above it, and the reverse for
/// sells.
pub open spec fn triggers(o: PaperOrder, symbol: Seq<char>, current: Dec) -> bool {
    &&& o.symbol@ == symbol
    &&& o.price is Some
    &&& {
        let t = o.price->0;
        match o.order_type {
            PaperOrderType::Limit | PaperOrderType::TakeProfit => match o.side {
                TradeSide::Buy => current.value() <= t.value(),
                TradeSide::Sell => current.value() >= t.value(),
            },
            PaperOrderType::StopLoss => match o.side {
                TradeSide::Buy => current.value() >= t.value(),
                TradeSide::Sell => current.value() <= t.value(),
            },
            PaperOrderType::Market => false,
        }
    }
}

/// Whether the order is triggered by the price.
pub fn should_trigger(order: &PaperOrder, symbol: &str, current: Dec) -> (r: bool)
    ensures
        r == triggers(*order, symbol@, current),
{
    if !str_eq(order.symbol.as_str(), symbol) {
        return false;
    }
    let t = match order.price {
        Some(t) => t,
        None => return false,
    };
    match order.order_type {
        PaperOrderType::Limit | PaperOrderType::TakeProfit => match order.side {
            TradeSide::Buy => current.le(&t),
            TradeSide::Sell => current.ge(&t),
        },
        PaperOrderType::StopLoss => match order.side {
            TradeSide::Buy => current.ge(&t),
            TradeSide::Sell => current.le(&t),
        },
        PaperOrderType::Market => false,
    }
}

/// The orders the price does not trigger, in their order.
pub open spec fn untriggered(orders: Seq<PaperOrder>, symbol: Seq<char>, current: Dec) -> Seq<PaperOrder>
    decreases orders.len(),
{
    if orders.len() == 0 {
        Seq::empty()
    } else {
        let prev = untriggered(orders.drop_last(), symbol, current);
        if triggers(orders.last(), symbol, current) {
            prev
        } else {
            prev.push(orders.last())
        }
    }
}

/// The orders the price triggers, in their order.
pub open spec fn triggered(orders: Seq<PaperOrder>, symbol: Seq<char>, current: Dec) -> Seq<PaperOrder>
    decreases orders.len(),
{
    if orders.len() == 0 {
        Seq::empty()
    } else {
        let prev = triggered(orders.drop_last(), symbol, current);
        if triggers(orders.last(), symbol, current) {
            prev.push(orders.last())
        } else {
            prev
        }
    }
}

/// A price check splits the pending orders: every order is either filled (the price triggers
/// it) or kept pending (it does not), none is lost, and no kept order is one the price
/// triggers.
pub proof fn lemma_pending_split(orders: Seq<PaperOrder>, symbol: Seq<char>, current: Dec)
    ensures
        untriggered(orders, symbol, current).len() + triggered(orders, symbol, current).len() == orders.len(),
        forall|i: int|
            0 <= i < untriggered(orders, symbol, current).len() ==> !triggers(
                #[trigger] untriggered(orders, symbol, current)[i],
                symbol,
                current,
            ),
        forall|i: int|
            0 <= i < triggered(orders, symbol, current).len() ==> triggers(
                #[trigger] triggered(orders, symbol, current)[i],
                symbol,
                current,
            ),
    decreases orders.len(),
{
    if orders.len() > 0 {
        lemma_pending_split(orders.drop_last(), symbol, current);
        let u = untriggered(orders.drop_last(), symbol, current);
        let t = triggered(orders.drop_last(), symbol, current);
        if triggers(orders.last(), symbol, current) {
            assert forall|i: int| 0 <= i < t.push(orders.last()).len() implies triggers(
                #[trigger] t.push(orders.last())[i],
                symbol,
                current,
            ) by {
                if i < t.len() {
                    assert(t.push(orders.last())[i] == t[i]);
                }
            }
        } else {
            assert forall|i: int| 0 <= i < u.push(orders.last()).len() implies !triggers(
                #[trigger] u.push(orders.last())[i],
                symbol,
                current,
            ) by {
                if i < u.len() {
                    assert(u.push(orders.last())[i] == u[i]);
                }
            }
        }
    }
}

/// The text of a refusal for a stopped trader.
pub open spec fn not_running_text() -> Seq<char> {
    "Paper Trader is not running"@
}

/// A fresh order of the kind, pending.
pub open spec fn fresh_order(o: PaperOrder, id: Seq<char>, symbol: Seq<char>, side: TradeSide, kind: PaperOrderType, quantity: Dec, price: Option<Dec>) -> bool {
    &&& o.order_id@ == id
    &&& o.symbol@ == symbol
    &&& o.side == side
    &&& o.order_type == kind
    &&& o.quantity == quantity
    &&& o.price == price
    &&& o.status == PaperOrderStatus::Pending
    &&& o.filled_price is None
    &&& o.commission == Dec::spec_zero()
    &&& o.filled_at is None
    &&& o.reject_reason is None
}

impl PaperTrader {
    /// Places a pending order of the kind at its price (a limit, a stop or a target).
    fn place_pending(&mut self, symbol: &str, side: TradeSide, kind: PaperOrderType, quantity: Dec, price: Dec) -> (r: Result<PaperOrder, String>)
        requires
            old(self).order_counter < u64::MAX,
        ensures
            r is Ok <==> old(self).running,
            match r {
                Ok(o) => {
                    &&& fresh_order(o, order_id_text((old(self).order_counter + 1) as nat), symbol@, side, kind, quantity, Some(price))
                    &&& final(self).pending_orders@ == old(self).pending_orders@.push(o)
                    &&& final(self).order_counter == old(self).order_counter + 1
                    &&& *final(self) == (PaperTrader {
                        pending_orders: final(self).pending_orders,
                        order_counter: final(self).order_counter,
                        ..*old(self)
                    })
                },
                Err(e) => e@ == not_running_text() && *final(self) == *old(self),
            },
    {
        if !self.running {
            return Err(String::from_str("Paper Trader is not running"));
        }
        let order_id = self.next_order_id();
        let order = PaperOrder {
            order_id,
            symbol: String::from_str(symbol),
            side,
            order_type: kind,
            quantity,
            price: Some(price),
            status: PaperOrderStatus::Pending,
            filled_price: None,
            commission: Dec::zero(),
            created_at: now_millis(),
            filled_at: None,
            reject_reason: None,
        };
        let copy = order.duplicate();
        self.pending_orders.push(order);
        Ok(copy)
    }

    /// Places a limit order: filled once the price reaches `price`. Refused while stopped.
    pub fn place_limit_order(&mut self, symbol: &str, side: TradeSide, quantity: Dec, price: Dec) -> (r: Result<PaperOrder, String>)
        requires
            old(self).order_counter < u64::MAX,
        ensures
            r is Ok <==> old(self).running,
            match r {
                Ok(o) => fresh_order(o, order_id_text((old(self).order_counter + 1) as nat), symbol@, side, PaperOrderType::Limit, quantity, Some(price))
                    && final(self).pending_orders@ == old(self).pending_orders@.push(o)
                    && final(self).portfolio == old(self).portfolio
                    && final(self).filled_orders == old(self).filled_orders,
                Err(e) => e@ == not_running_text() && *final(self) == *old(self),
            },
    {
        self.place_pending(symbol, side, PaperOrderType::Limit, quantity, price)
    }

    /// Places a stop-loss order: filled at market once the price crosses `stop_price`. Refused
    /// while stopped.
    pub fn place_stop_loss_order(&mut self, symbol: &str, side: TradeSide, quantity: Dec, stop_price: Dec) -> (r: Result<PaperOrder, String>)
        requires
            old(self).order_counter < u64::MAX,
        ensures
            r is Ok <==> old(self).running,
            match r {
                Ok(o) => fresh_order(o, order_id_text((old(self).order_counter + 1) as nat), symbol@, side, PaperOrderType::StopLoss, quantity, Some(stop_price))
                    && final(self).pending_orders@ == old(self).pending_orders@.push(o)
                    && final(self).portfolio == old(self).portfolio
                    && final(self).filled_orders == old(self).filled_orders,
                Err(e) => e@ == not_running_text() && *final(self) == *old(self),
            },
    {
        self.place_pending(symbol, side, PaperOrderType::StopLoss, quantity, stop_price)
    }

    /// Places a take-profit order: filled at market once the price reaches
    /// `take_profit_price`. Refused while stopped.
    pub fn place_take_profit_order(&mut self, symbol: &str, side: TradeSide, quantity: Dec, take_profit_price: Dec) -> (r: Result<PaperOrder, String>)
        requires
            old(self).order_counter < u64::MAX,
        ensures
            r is Ok <==> old(self).running,
            match r {
                Ok(o) => fresh_order(o, order_id_text((old(self).order_counter + 1) as nat), symbol@, side, PaperOrderType::TakeProfit, quantity, Some(take_profit_price))
                    && final(self).pending_orders@ == old(self).pending_orders@.push(o)
                    && final(self).portfolio == old(self).portfolio
                    && final(self).filled_orders == old(self).filled_orders,
                Err(e) => e@ == not_running_text() && *final(self) == *old(self),
            },
    {
        self.place_pending(symbol, side, PaperOrderType::TakeProfit, quantity, take_profit_price)
    }

    /// Cancels the pending order with the identifier, moving it to the finished orders.
    pub fn cancel_order(&mut self, order_id: &str) -> (r: Result<(), String>)
        ensures
            r is Ok <==> exists|i: int| 0 <= i < old(self).pending_orders@.len() && (#[trigger] old(self).pending_orders@[i]).order_id@ == order_id@,
            match r {
                Ok(()) => exists|i: int| {
                    &&& 0 <= i < old(self).pending_orders@.len()
                    &&& (#[trigger] old(self).pending_orders@[i]).order_id@ == order_id@
                    &&& forall|j: int| 0 <= j < i ==> old(self).pending_orders@[j].order_id@ != order_id@
                    &&& final(self).pending_orders@ == old(self).pending_orders@.remove(i)
                    &&& final(self).filled_orders@ == old(self).filled_orders@.push(
                        PaperOrder { status: PaperOrderStatus::Canceled, ..old(self).pending_orders@[i] },
                    )
                },
                Err(e) => e@ == "Order "@ + order_id@ + " not found or already filled"@ && *final(self) == *old(self),
            },
            final(self).portfolio == old(self).portfolio,
            final(self).running == old(self).running,
            final(self).order_counter == old(self).order_counter,
            final(self).latest_prices == old(self).latest_prices,
    {
        let mut i: usize = 0;
        while i < self.pending_orders.len()
            invariant
                *self == *old(self),
                i <= self.pending_orders@.len(),
                forall|j: int| 0 <= j < i ==> self.pending_orders@[j].order_id@ != order_id@,
            decreases self.pending_orders@.len() - i,
        {
            if str_eq(self.pending_orders[i].order_id.as_str(), order_id) {
                let mut order = self.pending_orders.remove(i);
                order.status = PaperOrderStatus::Canceled;
                self.filled_orders.push(order);
                return Ok(());
            }
            i = i + 1;
        }
        let mut e = String::from_str("Order ");
        e.append(order_id);
        e.append(" not found or already filled");
        Err(e)
    }
}

// ----- fills -----

/// The size of the short position of the symbol, which a buy closes first.
pub open spec fn short_to_close(p: PortfolioModel, symbol: Seq<char>) -> Option<Dec> {
    match find_position(p.positions, symbol) {
        Some(i) => if p.positions[i].side == PositionSide::Short {
            Some(p.positions[i].quantity)
        } else {
            None
        },
        None => None,
    }
}

/// The size of the (positive) long position of the symbol, which a sell closes first.
pub open spec fn long_to_close(p: PortfolioModel, symbol: Seq<char>) -> Option<Dec> {
    match find_position(p.positions, symbol) {
        Some(i) => if p.positions[i].side == PositionSide::Long && p.positions[i].quantity.value() > 0 {
            Some(p.positions[i].quantity)
        } else {
            None
        },
        None => None,
    }
}

/// A buy of `q` at `price`: the portfolio after it and its answer.
pub open spec fn buy_leg(p: PortfolioModel, symbol: String, q: Dec, price: Dec, ts: i64) -> (PortfolioModel, Result<(), Seq<char>>) {
    (
        p.after_buy(symbol, q, price, ts),
        if p.buy_refused(q, price) {
            Err(insufficient_funds_text(p.buy_total(q, price), p.cash))
        } else {
            Ok(())
        },
    )
}

/// A sell of `q` at `price`: the portfolio after it and its answer.
pub open spec fn sell_leg(p: PortfolioModel, symbol: String, q: Dec, price: Dec, ts: i64) -> (PortfolioModel, Result<(), Seq<char>>) {
    (
        p.after_sell(symbol, q, price, ts),
        match p.sell_outcome(symbol@, q) {
            Ok(_) => Ok(()),
            Err(e) => Err(e),
        },
    )
}

/// Buying back `q` of a short at `price`: the portfolio after it and its answer.
pub open spec fn short_close_leg(p: PortfolioModel, symbol: String, q: Dec, price: Dec, ts: i64) -> (PortfolioModel, Result<(), Seq<char>>) {
    (
        p.after_short_close(symbol, q, price, ts),
        match p.short_close_outcome(symbol@, q) {
            Ok(_) => Ok(()),
            Err(e) => Err(e),
        },
    )
}

/// What a fill at `fill` does to the portfolio, and its answer: a buy first buys back a short
/// (up to its size) and buys the rest if that went through; a sell first sells a long (up to
/// its size) and shorts the rest if that went through.
pub open spec fn fill_outcome(p: PortfolioModel, o: PaperOrder, fill: Dec, ts1: i64, ts2: i64) -> (PortfolioModel, Result<(), Seq<char>>) {
    let sym = o.symbol;
    match o.side {
        TradeSide::Buy => match short_to_close(p, sym@) {
            None => buy_leg(p, sym, o.quantity, fill, ts1),
            Some(held) => {
                let close = min_of(o.quantity, held);
                let first = if close.value() > 0 {
                    short_close_leg(p, sym, close, fill, ts1)
                } else {
                    (p, Ok(()))
                };
                let rest = decimal_checked_sub(o.quantity, close)->0;
                if rest.value() > 0 && first.1 is Ok {
                    buy_leg(first.0, sym, rest, fill, ts2)
                } else {
                    first
                }
            },
        },
        TradeSide::Sell => match long_to_close(p, sym@) {
            None => (p.after_short_open(sym, o.quantity, fill, ts1), Ok(())),
            Some(held) => {
                let close = min_of(o.quantity, held);
                let first = if close.value() > 0 {
                    sell_leg(p, sym, close, fill, ts1)
                } else {
                    (p, Ok(()))
                };
                let rest = decimal_checked_sub(o.quantity, close)->0;
                if rest.value() > 0 && first.1 is Ok {
                    (first.0.after_short_open(sym, rest, fill, ts2), Ok(()))
                } else {
                    first
                }
            },
        },
    }
}

/// The portfolio without its trade list, which none of the checks of a fill reads.
pub open spec fn untraded(p: PortfolioModel) -> PortfolioModel {
    PortfolioModel { trades: Seq::empty(), ..p }
}

/// No step of a fill of the order at `fill` overflows: neither the legs the portfolio runs nor
/// the order's commission at `rate` (the legs' trade times do not matter, see
/// `lemma_fill_untraded`).
pub open spec fn fill_ok(p: PortfolioModel, o: PaperOrder, fill: Dec, rate: Dec) -> bool {
    let sym = o.symbol;
    let legs_ok = match o.side {
        TradeSide::Buy => match short_to_close(p, sym@) {
            None => p.buy_ok(sym@, o.quantity, fill),
            Some(held) => {
                let close = min_of(o.quantity, held);
                let first = if close.value() > 0 {
                    short_close_leg(p, sym, close, fill, 0)
                } else {
                    (p, Ok(()))
                };
                let rest = decimal_checked_sub(o.quantity, close);
                &&& close.value() > 0 ==> p.short_close_ok(sym@, close, fill)
                &&& rest is Some
                &&& (rest->0.value() > 0 && first.1 is Ok) ==> first.0.buy_ok(sym@, rest->0, fill)
            },
        },
        TradeSide::Sell => match long_to_close(p, sym@) {
            None => p.short_open_ok(sym@, o.quantity, fill),
            Some(held) => {
                let close = min_of(o.quantity, held);
                let first = if close.value() > 0 {
                    sell_leg(p, sym, close, fill, 0)
                } else {
                    (p, Ok(()))
                };
                let rest = decimal_checked_sub(o.quantity, close);
                &&& close.value() > 0 ==> p.sell_ok(sym@, close, fill)
                &&& rest is Some
                &&& (rest->0.value() > 0 && first.1 is Ok) ==> first.0.short_open_ok(sym@, rest->0, fill)
            },
        },
    };
    &&& legs_ok
    &&& fill_outcome(p, o, fill, 0, 0).1 is Ok ==> (can_mul(o.quantity, fill) && can_mul(
        product(o.quantity, fill),
        rate,
    ))
}

/// Whether a fill overflows depends on the order's symbol only through its text.
proof fn lemma_fill_ok_by_text(p: PortfolioModel, a: PaperOrder, b: PaperOrder, fill: Dec, rate: Dec)
    requires
        a.symbol@ == b.symbol@,
        a.side == b.side,
        a.quantity == b.quantity,
    ensures
        fill_ok(p, a, fill, rate) == fill_ok(p, b, fill, rate),
{
    let (sa, sb) = (a.symbol, b.symbol);
    let q = a.quantity;
    match short_to_close(p, sa@) {
        Some(held) => {
            let close = min_of(q, held);
            let x = short_close_leg(p, sa, close, fill, 0).0;
            let y = short_close_leg(p, sb, close, fill, 0).0;
            assert(untraded(x) == untraded(y));
            assert(x.cash == y.cash && x.positions == y.positions && x.slippage_pct == y.slippage_pct
                && x.commission_rate == y.commission_rate && x.total_slippage_cost == y.total_slippage_cost);
        },
        None => {},
    }
    match long_to_close(p, sa@) {
        Some(held) => {
            let close = min_of(q, held);
            let x = sell_leg(p, sa, close, fill, 0).0;
            let y = sell_leg(p, sb, close, fill, 0).0;
            assert(untraded(x) == untraded(y));
            assert(x.cash == y.cash && x.positions == y.positions && x.slippage_pct == y.slippage_pct
                && x.commission_rate == y.commission_rate && x.total_slippage_cost == y.total_slippage_cost);
        },
        None => {},
    }
    assert(fill_outcome(p, a, fill, 0, 0).1 == fill_outcome(p, b, fill, 0, 0).1);
}

/// What a fill does depends on the order's symbol, side and quantity alone.
proof fn lemma_fill_outcome_reads_leg(p: PortfolioModel, a: PaperOrder, b: PaperOrder, fill: Dec, ts1: i64, ts2: i64)
    requires
        a.symbol == b.symbol,
        a.side == b.side,
        a.quantity == b.quantity,
    ensures
        fill_outcome(p, a, fill, ts1, ts2) == fill_outcome(p, b, fill, ts1, ts2),
{
}

impl PaperTrader {
    /// Fills the order at `fill` against the portfolio (see `fill_outcome`), marking it filled
    /// with its commission or rejected with the reason. `None`, the fill possibly half done,
    /// where the decimal arithmetic overflows (where `Decimal` panics).
    pub fn execute_fill(&mut self, order: &mut PaperOrder, fill: Dec) -> (r: Option<()>)
        requires
            old(self).wf(),
        ensures
            final(self).wf(),
            final(self).pending_orders == old(self).pending_orders,
            final(self).filled_orders == old(self).filled_orders,
            final(self).latest_prices == old(self).latest_prices,
            final(self).config == old(self).config,
            final(self).running == old(self).running,
            final(self).order_counter == old(self).order_counter,
            final(self).started_at == old(self).started_at,
            r is Some <==> fill_ok(old(self).portfolio@, *old(order), fill, old(self).config.commission_rate),
            r is Some ==> exists|ts1: i64, ts2: i64| {
                let out = #[trigger] fill_outcome(old(self).portfolio@, *old(order), fill, ts1, ts2);
                &&& final(self).portfolio@ == out.0
                &&& final(order).order_id == old(order).order_id
                &&& final(order).symbol == old(order).symbol
                &&& final(order).side == old(order).side
                &&& final(order).order_type == old(order).order_type
                &&& final(order).quantity == old(order).quantity
                &&& final(order).price == old(order).price
                &&& final(order).created_at == old(order).created_at
                &&& match out.1 {
                    Ok(()) => {
                        &&& final(order).status == PaperOrderStatus::Filled
                        &&& final(order).filled_price == Some(fill)
                        &&& final(order).commission == decimal_checked_mul(
                            decimal_checked_mul(old(order).quantity, fill)->0,
                            old(self).config.commission_rate,
                        )->0
                        &&& final(order).filled_at is Some
                        &&& final(order).reject_reason == old(order).reject_reason
                    },
                    Err(e) => {
                        &&& final(order).status == PaperOrderStatus::Rejected
                        &&& final(order).reject_reason matches Some(reason) && reason@ == e
                        &&& final(order).filled_price == old(order).filled_price
                        &&& final(order).commission == old(order).commission
                        &&& final(order).filled_at == old(order).filled_at
                    },
                }
            },
    {
        let ghost p0 = self.portfolio@;
        let zero = Dec::zero();
        proof {
            lemma_find_position(p0.positions, order.symbol@);
        }
        let held = match self.portfolio.get_position(order.symbol.as_str()) {
            Some(pos) => Some((pos.side, pos.quantity)),
            None => None,
        };
        let mut ts1: i64 = 0;
        let mut ts2: i64 = 0;
        let result: Result<(), String> = match order.side {
            TradeSide::Buy => {
                let short_qty = match held {
                    Some((PositionSide::Short, q)) => Some(q),
                    _ => None,
                };
                match short_qty {
                    None => {
                        if !self.portfolio.can_execute_buy(order.symbol.as_str(), order.quantity, fill) {
                            return None;
                        }
                        let res = self.portfolio.execute_buy(order.symbol.clone(), order.quantity, fill);
                        ts1 = self.last_stamp();
                        res
                    },
                    Some(sq) => {
                        let close = order.quantity.min(sq);
                        let mut res: Result<(), String> = Ok(());
                        if close.gt(&zero) {
                            if !self.portfolio.can_execute_short_close(order.symbol.as_str(), close, fill) {
                                return None;
                            }
                            res = self.portfolio.execute_short_close(order.symbol.clone(), close, fill);
                            ts1 = self.last_stamp();
                        }
                        let rest = match order.quantity.checked_sub(close) {
                            Some(v) => v,
                            None => return None,
                        };
                        if rest.gt(&zero) && res.is_ok() {
                            if !self.portfolio.can_execute_buy(order.symbol.as_str(), rest, fill) {
                                return None;
                            }
                            res = self.portfolio.execute_buy(order.symbol.clone(), rest, fill);
                            ts2 = self.last_stamp();
                        }
                        res
                    },
                }
            },
            TradeSide::Sell => {
                let long_qty = match held {
                    Some((PositionSide::Long, q)) => if q.gt(&zero) {
                        Some(q)
                    } else {
                        None
                    },
                    _ => None,
                };
                match long_qty {
                    None => {
                        if !self.portfolio.can_execute_short_open(order.symbol.as_str(), order.quantity, fill) {
                            return None;
                        }
                        let res = self.portfolio.execute_short_open(order.symbol.clone(), order.quantity, fill);
                        ts1 = self.last_stamp();
                        res
                    },
                    Some(lq) => {
                        let close = order.quantity.min(lq);
                        let mut res: Result<(), String> = Ok(());
                        if close.gt(&zero) {
                            if !self.portfolio.can_execute_sell(order.symbol.as_str(), close, fill) {
                                return None;
                            }
                            res = self.portfolio.execute_sell(order.symbol.clone(), close, fill);
                            ts1 = self.last_stamp();
                        }
                        let rest = match order.quantity.checked_sub(close) {
                            Some(v) => v,
                            None => return None,
                        };
                        if rest.gt(&zero) && res.is_ok() {
                            if !self.portfolio.can_execute_short_open(order.symbol.as_str(), rest, fill) {
                                return None;
                            }
                            res = self.portfolio.execute_short_open(order.symbol.clone(), rest, fill);
                            ts2 = self.last_stamp();
                        }
                        res
                    },
                }
            },
        };
        match result {
            Ok(()) => {
                let commission = match order.quantity.checked_mul(fill) {
                    Some(n) => match n.checked_mul(self.config.commission_rate) {
                        Some(c) => c,
                        None => return None,
                    },
                    None => return None,
                };
                order.status = PaperOrderStatus::Filled;
                order.filled_price = Some(fill);
                order.commission = commission;
                order.filled_at = Some(now_millis());
            },
            Err(e) => {
                order.status = PaperOrderStatus::Rejected;
                order.reject_reason = Some(e);
            },
        }
        proof {
            let out = fill_outcome(p0, *old(order), fill, ts1, ts2);
            assert(self.portfolio@ == out.0);
        }
        Some(())
    }

    /// The time stamp of the portfolio's last trade.
    fn last_stamp(&self) -> (r: i64)
        ensures
            self.portfolio@.trades.len() > 0 ==> r == self.portfolio@.trades.last().timestamp,
    {
        if self.portfolio.trades.len() > 0 {
            self.portfolio.trades[self.portfolio.trades.len() - 1].timestamp
        } else {
            0
        }
    }
}

/// The portfolio after the fills of the orders in turn, each at its slipped price, with the
/// trade time stamps `stamps`.
pub open spec fn fill_chain(p: PortfolioModel, orders: Seq<PaperOrder>, current: Dec, slippage: Dec, stamps: Seq<(i64, i64)>) -> PortfolioModel
    decreases orders.len(),
{
    if orders.len() == 0 || stamps.len() != orders.len() {
        p
    } else {
        let o = orders.last();
        fill_outcome(
            fill_chain(p, orders.drop_last(), current, slippage, stamps.drop_last()),
            o,
            paper_slipped(current, slippage, o.side)->0,
            stamps.last().0,
            stamps.last().1,
        ).0
    }
}

/// A fill reads the portfolio without its trade list: two portfolios that differ only in their
/// trades give the same answer, the same checks and the same outcome but for the trades.
proof fn lemma_fill_untraded(x: PortfolioModel, y: PortfolioModel, o: PaperOrder, fill: Dec, rate: Dec, ts1: i64, ts2: i64)
    requires
        untraded(x) == untraded(y),
    ensures
        fill_outcome(x, o, fill, ts1, ts2).1 == fill_outcome(y, o, fill, 0, 0).1,
        untraded(fill_outcome(x, o, fill, ts1, ts2).0) == untraded(fill_outcome(y, o, fill, 0, 0).0),
        fill_ok(x, o, fill, rate) == fill_ok(y, o, fill, rate),
{
    assert(x.cash == untraded(x).cash && x.positions == untraded(x).positions);
    assert(y.cash == untraded(y).cash && y.positions == untraded(y).positions);
    assert(x.slippage_pct == y.slippage_pct && x.commission_rate == y.commission_rate
        && x.total_slippage_cost == y.total_slippage_cost && x.initial_capital == y.initial_capital
        && x.current_prices == y.current_prices);
    let sym = o.symbol;
    let q = o.quantity;
    match short_to_close(x, sym@) {
        Some(held) => {
            let close = min_of(q, held);
            let a = short_close_leg(x, sym, close, fill, ts1).0;
            let b = short_close_leg(y, sym, close, fill, 0).0;
            let a0 = short_close_leg(x, sym, close, fill, 0).0;
            assert(untraded(a) == untraded(b));
            assert(untraded(a0) == untraded(b));
            assert(a.cash == b.cash && a.positions == b.positions && a.slippage_pct == b.slippage_pct
                && a.commission_rate == b.commission_rate && a.total_slippage_cost == b.total_slippage_cost);
            assert(a0.cash == b.cash && a0.positions == b.positions && a0.slippage_pct == b.slippage_pct
                && a0.commission_rate == b.commission_rate && a0.total_slippage_cost == b.total_slippage_cost);
            let rest = decimal_checked_sub(q, close)->0;
            assert(untraded(buy_leg(a, sym, rest, fill, ts2).0) == untraded(buy_leg(b, sym, rest, fill, 0).0));
        },
        None => {},
    }
    match long_to_close(x, sym@) {
        Some(held) => {
            let close = min_of(q, held);
            let a = sell_leg(x, sym, close, fill, ts1).0;
            let b = sell_leg(y, sym, close, fill, 0).0;
            let a0 = sell_leg(x, sym, close, fill, 0).0;
            assert(untraded(a) == untraded(b));
            assert(untraded(a0) == untraded(b));
            assert(a.cash == b.cash && a.positions == b.positions && a.slippage_pct == b.slippage_pct
                && a.commission_rate == b.commission_rate && a.total_slippage_cost == b.total_slippage_cost);
            assert(a0.cash == b.cash && a0.positions == b.positions && a0.slippage_pct == b.slippage_pct
                && a0.commission_rate == b.commission_rate && a0.total_slippage_cost == b.total_slippage_cost);
            let rest = decimal_checked_sub(q, close)->0;
            assert(untraded(a.after_short_open(sym, rest, fill, ts2)) == untraded(b.after_short_open(sym, rest, fill, 0)));
        },
        None => {},
    }
    assert(untraded(buy_leg(x, sym, q, fill, ts1).0) == untraded(buy_leg(y, sym, q, fill, 0).0));
    assert(untraded(x.after_short_open(sym, q, fill, ts1)) == untraded(y.after_short_open(sym, q, fill, 0)));
}

/// Trade times all zero, one pair per order.
pub open spec fn zero_stamps(n: nat) -> Seq<(i64, i64)> {
    Seq::new(n, |i: int| (0i64, 0i64))
}

/// No fill of the chain overflows: each order has a slipped price and its fill is sound on the
/// portfolio the earlier fills leave.
pub open spec fn chain_ok(p: PortfolioModel, orders: Seq<PaperOrder>, current: Dec, slippage: Dec, rate: Dec) -> bool
    decreases orders.len(),
{
    if orders.len() == 0 {
        true
    } else {
        let o = orders.last();
        let prev = orders.drop_last();
        &&& chain_ok(p, prev, current, slippage, rate)
        &&& paper_slipped(current, slippage, o.side) is Some
        &&& fill_ok(
            fill_chain(p, prev, current, slippage, zero_stamps(prev.len())),
            o,
            paper_slipped(current, slippage, o.side)->0,
            rate,
        )
    }
}

/// A chain of fills reads the portfolio without its trade list, and its trade times change
/// only the trade list.
proof fn lemma_chain_untraded(
    x: PortfolioModel,
    y: PortfolioModel,
    orders: Seq<PaperOrder>,
    current: Dec,
    slippage: Dec,
    rate: Dec,
    stamps: Seq<(i64, i64)>,
)
    requires
        untraded(x) == untraded(y),
        stamps.len() == orders.len(),
    ensures
        untraded(fill_chain(x, orders, current, slippage, stamps)) == untraded(
            fill_chain(y, orders, current, slippage, zero_stamps(orders.len())),
        ),
        chain_ok(x, orders, current, slippage, rate) == chain_ok(y, orders, current, slippage, rate),
    decreases orders.len(),
{
    if orders.len() > 0 {
        let z = zero_stamps(orders.len());
        let prev = orders.drop_last();
        let zp = zero_stamps(prev.len());
        assert(z.drop_last() =~= zp);
        lemma_chain_untraded(x, y, prev, current, slippage, rate, stamps.drop_last());
        lemma_chain_untraded(x, y, prev, current, slippage, rate, zp);
        let o = orders.last();
        let f = paper_slipped(current, slippage, o.side)->0;
        lemma_fill_untraded(
            fill_chain(x, prev, current, slippage, stamps.drop_last()),
            fill_chain(y, prev, current, slippage, zp),
            o,
            f,
            rate,
            stamps.last().0,
            stamps.last().1,
        );
        lemma_fill_untraded(
            fill_chain(x, prev, current, slippage, zp),
            fill_chain(y, prev, current, slippage, zp),
            o,
            f,
            rate,
            0,
            0,
        );
    }
}

/// A chain that goes through goes through on each prefix.
proof fn lemma_chain_ok_prefix(p: PortfolioModel, orders: Seq<PaperOrder>, current: Dec, slippage: Dec, rate: Dec, k: int)
    requires
        0 <= k <= orders.len(),
        chain_ok(p, orders, current, slippage, rate),
    ensures
        chain_ok(p, orders.take(k), current, slippage, rate),
    decreases orders.len(),
{
    if k < orders.len() {
        assert(orders.drop_last().take(k) =~= orders.take(k));
        lemma_chain_ok_prefix(p, orders.drop_last(), current, slippage, rate, k);
    } else {
        assert(orders.take(k) =~= orders);
    }
}

impl PaperTrader {
    /// Fills the pending orders of the symbol that the price triggers, the last placed first,
    /// each at the price moved by the slippage; the others stay pending in their order. `None`
    /// where the decimal arithmetic overflows (where `Decimal` panics).
    pub fn check_pending_orders(&mut self, symbol: &str, current: Dec) -> (r: Option<()>)
        requires
            old(self).wf(),
        ensures
            final(self).wf(),
            final(self).latest_prices == old(self).latest_prices,
            final(self).config == old(self).config,
            final(self).running == old(self).running,
            final(self).order_counter == old(self).order_counter,
            r is Some <==> chain_ok(
                old(self).portfolio@,
                triggered(old(self).pending_orders@, symbol@, current).reverse(),
                current,
                old(self).config.slippage_pct,
                old(self).config.commission_rate,
            ),
            r is Some ==> {
                let fired = triggered(old(self).pending_orders@, symbol@, current).reverse();
                &&& final(self).pending_orders@ == untriggered(old(self).pending_orders@, symbol@, current)
                &&& final(self).filled_orders@.len() == old(self).filled_orders@.len() + fired.len()
                &&& forall|k: int| 0 <= k < old(self).filled_orders@.len() ==> final(self).filled_orders@[k] == old(self).filled_orders@[k]
                &&& forall|k: int| 0 <= k < fired.len() ==> (#[trigger] final(self).filled_orders@[old(self).filled_orders@.len() + k]).order_id == fired[k].order_id
                &&& exists|stamps: Seq<(i64, i64)>| stamps.len() == fired.len() && final(self).portfolio@ == #[trigger] fill_chain(
                    old(self).portfolio@,
                    fired,
                    current,
                    old(self).config.slippage_pct,
                    stamps,
                )
            },
    {
        let ghost pend = self.pending_orders@;
        let mut kept: Vec<PaperOrder> = Vec::new();
        let mut fired: Vec<PaperOrder> = Vec::new();
        let mut i: usize = 0;
        while i < self.pending_orders.len()
            invariant
                pend == self.pending_orders@,
                i <= pend.len(),
                kept@ == untriggered(pend.take(i as int), symbol@, current),
                fired@ == triggered(pend.take(i as int), symbol@, current),
            decreases pend.len() - i,
        {
            proof {
                assert(pend.take(i + 1int).drop_last() =~= pend.take(i as int));
                assert(pend.take(i + 1int).last() == pend[i as int]);
            }
            if should_trigger(&self.pending_orders[i], symbol, current) {
                fired.push(self.pending_orders[i].duplicate());
            } else {
                kept.push(self.pending_orders[i].duplicate());
            }
            i = i + 1;
        }
        proof {
            assert(pend.take(pend.len() as int) =~= pend);
        }
        self.pending_orders = kept;
        let ghost order_seq = fired@.reverse();
        let ghost p0 = self.portfolio@;
        let ghost f0 = self.filled_orders@;
        let ghost mut stamps: Seq<(i64, i64)> = Seq::empty();
        let mut k: usize = fired.len();
        while k > 0
            invariant
                self.wf(),
                order_seq == fired@.reverse(),
                k <= fired@.len(),
                stamps.len() == fired@.len() - k,
                self.filled_orders@.len() == f0.len() + (fired@.len() - k),
                forall|j: int| 0 <= j < f0.len() ==> self.filled_orders@[j] == f0[j],
                forall|j: int| 0 <= j < fired@.len() - k ==> (#[trigger] self.filled_orders@[f0.len() + j]).order_id == order_seq[j].order_id,
                self.portfolio@ == fill_chain(p0, order_seq.take(fired@.len() - k), current, self.config.slippage_pct, stamps),
                chain_ok(p0, order_seq.take(fired@.len() - k), current, self.config.slippage_pct, self.config.commission_rate),
                p0 == old(self).portfolio@,
                fired@ == triggered(old(self).pending_orders@, symbol@, current),
                self.pending_orders@ == untriggered(pend, symbol@, current),
                self.config == old(self).config,
                self.running == old(self).running,
                self.order_counter == old(self).order_counter,
                self.latest_prices == old(self).latest_prices,
            decreases k,
        {
            k = k - 1;
            let mut order = fired[k].duplicate();
            let ghost n = fired@.len() - k - 1;
            let ghost rate = self.config.commission_rate;
            let ghost slip = self.config.slippage_pct;
            proof {
                assert(order_seq.take(n + 1).drop_last() =~= order_seq.take(n as int));
                assert(order_seq.take(n + 1).last() == order_seq[n as int]);
                assert(order_seq[n as int] == order);
                lemma_chain_untraded(p0, p0, order_seq.take(n as int), current, slip, rate, stamps);
            }
            let fill = match self.try_apply_slippage(current, order.side) {
                Some(v) => v,
                None => {
                    proof {
                        assert(!chain_ok(p0, order_seq.take(n + 1), current, slip, rate));
                        if chain_ok(p0, order_seq, current, slip, rate) {
                            lemma_chain_ok_prefix(p0, order_seq, current, slip, rate, n + 1);
                        }
                    }
                    return None;
                },
            };
            let ghost before = self.portfolio@;
            let ghost o = order;
            proof {
                lemma_fill_untraded(
                    before,
                    fill_chain(p0, order_seq.take(n as int), current, slip, zero_stamps(n as nat)),
                    o,
                    fill,
                    rate,
                    0,
                    0,
                );
            }
            match self.execute_fill(&mut order, fill) {
                Some(()) => {},
                None => {
                    proof {
                        assert(!chain_ok(p0, order_seq.take(n + 1), current, slip, rate));
                        if chain_ok(p0, order_seq, current, slip, rate) {
                            lemma_chain_ok_prefix(p0, order_seq, current, slip, rate, n + 1);
                        }
                    }
                    return None;
                },
            }
            proof {
                assert(chain_ok(p0, order_seq.take(n + 1), current, slip, rate));
                assert(order_seq[n as int] == o);
                let (t1, t2) = choose|t1: i64, t2: i64| self.portfolio@ == #[trigger] fill_outcome(before, o, fill, t1, t2).0;
                let old_stamps = stamps;
                stamps = stamps.push((t1, t2));
                assert(order_seq.take(n + 1).drop_last() =~= order_seq.take(n as int));
                assert(order_seq.take(n + 1).last() == o);
                assert(stamps.drop_last() =~= old_stamps);
                assert(fill == paper_slipped(current, self.config.slippage_pct, o.side)->0);
                assert(self.portfolio@ == fill_chain(p0, order_seq.take(n + 1), current, self.config.slippage_pct, stamps));
            }
            self.filled_orders.push(order);
        }
        proof {
            assert(order_seq.take(fired@.len() as int) =~= order_seq);
        }
        Some(())
    }
}

/// The unrealised PnL of a position in percent of its average price at `current`: the rise
/// for a long, the fall for a short; zero without a positive average price.
pub open spec fn position_pnl_pct(pos: Position, current: Dec) -> Option<Dec> {
    if pos.avg_price.value() > 0 {
        let gap = match pos.side {
            PositionSide::Long => decimal_checked_sub(current, pos.avg_price),
            PositionSide::Short => decimal_checked_sub(pos.avg_price, current),
        };
        match gap {
            Some(g) => match decimal_checked_div(g, pos.avg_price) {
                Some(q) => decimal_checked_mul(q, Dec::spec_new(100, 0)),
                None => None,
            },
            None => None,
        }
    } else {
        Some(Dec::spec_zero())
    }
}

/// The trades that closed something (have a realised PnL), and those of them that made money.
pub open spec fn closing_counts(trades: Seq<Trade>) -> (nat, nat) {
    (
        crate::seqs::count_of(trades.map_values(|t: Trade| t.realized_pnl is Some)),
        crate::seqs::count_of(trades.map_values(|t: Trade| t.realized_pnl matches Some(p) && p.value() > 0)),
    )
}

/// The latest prices with the symbol's price set.
pub open spec fn with_price(latest: Seq<(Seq<char>, Dec)>, symbol: Seq<char>, price: Dec) -> Seq<(Seq<char>, Dec)> {
    match find_price(latest, symbol) {
        Some(i) => latest.update(i, (symbol, price)),
        None => latest.push((symbol, price)),
    }
}

/// The state a trader is in, but for its trade list: portfolio without trades, pending orders
/// and latest prices.
pub type TraderState = (PortfolioModel, Seq<PaperOrder>, Seq<(Seq<char>, Dec)>);

/// One price update: the price recorded, the position revalued and the triggered orders filled,
/// the last placed first; `None` where that overflows.
pub open spec fn price_step(st: TraderState, symbol: Seq<char>, price: Dec, slippage: Dec, rate: Dec) -> Option<TraderState> {
    let (p, pending, latest) = st;
    let fired = triggered(pending, symbol, price).reverse();
    let q = p.after_update_price(symbol, price);
    if p.update_price_ok(symbol, price) && chain_ok(q, fired, price, slippage, rate) {
        Some((
            untraded(fill_chain(q, fired, price, slippage, zero_stamps(fired.len()))),
            untriggered(pending, symbol, price),
            with_price(latest, symbol, price),
        ))
    } else {
        None
    }
}

/// The price updates in turn; `None` where one overflows.
pub open spec fn price_walk(st: TraderState, prices: Seq<(String, Dec)>, slippage: Dec, rate: Dec) -> Option<TraderState>
    decreases prices.len(),
{
    if prices.len() == 0 {
        Some(st)
    } else {
        match price_walk(st, prices.drop_last(), slippage, rate) {
            Some(mid) => price_step(mid, prices.last().0@, prices.last().1, slippage, rate),
            None => None,
        }
    }
}

/// A walk that goes through goes through on each prefix.
proof fn lemma_price_walk_prefix(st: TraderState, prices: Seq<(String, Dec)>, slippage: Dec, rate: Dec, k: int)
    requires
        0 <= k <= prices.len(),
        price_walk(st, prices, slippage, rate) is Some,
    ensures
        price_walk(st, prices.take(k), slippage, rate) is Some,
    decreases prices.len(),
{
    if k < prices.len() {
        assert(prices.drop_last().take(k) =~= prices.take(k));
        lemma_price_walk_prefix(st, prices.drop_last(), slippage, rate, k);
    } else {
        assert(prices.take(k) =~= prices);
    }
}

impl PaperTrader {
    /// Records the price of the symbol, revalues its position and fills the pending orders it
    /// triggers. `None` where the decimal arithmetic overflows (where `Decimal` panics).
    pub fn update_price(&mut self, symbol: &str, price: Dec) -> (r: Option<()>)
        requires
            old(self).wf(),
        ensures
            final(self).wf(),
            final(self).config == old(self).config,
            final(self).running == old(self).running,
            final(self).order_counter == old(self).order_counter,
            prices_view(final(self).latest_prices@) == match find_price(prices_view(old(self).latest_prices@), symbol@) {
                Some(i) => prices_view(old(self).latest_prices@).update(i, (symbol@, price)),
                None => prices_view(old(self).latest_prices@).push((symbol@, price)),
            },
            r is Some ==> final(self).pending_orders@ == untriggered(old(self).pending_orders@, symbol@, price),
            r is Some <==> price_step(
                (untraded(old(self).portfolio@), old(self).pending_orders@, prices_view(old(self).latest_prices@)),
                symbol@,
                price,
                old(self).config.slippage_pct,
                old(self).config.commission_rate,
            ) is Some,
            r is Some ==> price_step(
                (untraded(old(self).portfolio@), old(self).pending_orders@, prices_view(old(self).latest_prices@)),
                symbol@,
                price,
                old(self).config.slippage_pct,
                old(self).config.commission_rate,
            ) == Some((untraded(final(self).portfolio@), final(self).pending_orders@, prices_view(final(self).latest_prices@))),
    {
        let ghost p0 = self.portfolio@;
        let ghost u0 = untraded(p0);
        let ghost fired = triggered(self.pending_orders@, symbol@, price).reverse();
        let ghost slip = self.config.slippage_pct;
        let ghost rate = self.config.commission_rate;
        proof {
            assert(u0.positions == p0.positions && u0.current_prices == p0.current_prices);
            assert(untraded(p0.after_update_price(symbol@, price)) == untraded(u0.after_update_price(symbol@, price)));
            lemma_chain_untraded(
                p0.after_update_price(symbol@, price),
                u0.after_update_price(symbol@, price),
                fired,
                price,
                slip,
                rate,
                zero_stamps(fired.len()),
            );
        }
        self.set_latest_price(symbol, price);
        if !self.portfolio.can_update_price(symbol, price) {
            return None;
        }
        self.portfolio.update_price(symbol, price);
        let r = self.check_pending_orders(symbol, price);
        proof {
            if r is Some {
                let stamps = choose|stamps: Seq<(i64, i64)>| stamps.len() == fired.len() && self.portfolio@ == #[trigger] fill_chain(
                    p0.after_update_price(symbol@, price),
                    fired,
                    price,
                    slip,
                    stamps,
                );
                lemma_chain_untraded(
                    p0.after_update_price(symbol@, price),
                    u0.after_update_price(symbol@, price),
                    fired,
                    price,
                    slip,
                    rate,
                    stamps,
                );
            }
        }
        r
    }

    /// Records each price in turn.
    pub fn update_prices(&mut self, prices: &Vec<(String, Dec)>) -> (r: Option<()>)
        requires
            old(self).wf(),
        ensures
            final(self).wf(),
            final(self).config == old(self).config,
            final(self).running == old(self).running,
            final(self).order_counter == old(self).order_counter,
            r is Some <==> price_walk(
                (untraded(old(self).portfolio@), old(self).pending_orders@, prices_view(old(self).latest_prices@)),
                prices@,
                old(self).config.slippage_pct,
                old(self).config.commission_rate,
            ) is Some,
            r is Some ==> price_walk(
                (untraded(old(self).portfolio@), old(self).pending_orders@, prices_view(old(self).latest_prices@)),
                prices@,
                old(self).config.slippage_pct,
                old(self).config.commission_rate,
            ) == Some((untraded(final(self).portfolio@), final(self).pending_orders@, prices_view(final(self).latest_prices@))),
    {
        let ghost st0: TraderState = (untraded(self.portfolio@), self.pending_orders@, prices_view(self.latest_prices@));
        let ghost slip = self.config.slippage_pct;
        let ghost rate = self.config.commission_rate;
        let mut i: usize = 0;
        proof {
            assert(prices@.take(0) =~= Seq::<(String, Dec)>::empty());
        }
        while i < prices.len()
            invariant
                self.wf(),
                self.config == old(self).config,
                self.running == old(self).running,
                self.order_counter == old(self).order_counter,
                slip == self.config.slippage_pct,
                rate == self.config.commission_rate,
                st0 == (untraded(old(self).portfolio@), old(self).pending_orders@, prices_view(old(self).latest_prices@)),
                i <= prices@.len(),
                price_walk(st0, prices@.take(i as int), slip, rate) == Some(
                    (untraded(self.portfolio@), self.pending_orders@, prices_view(self.latest_prices@)),
                ),
            decreases prices@.len() - i,
        {
            proof {
                assert(prices@.take(i + 1int).drop_last() =~= prices@.take(i as int));
                assert(prices@.take(i + 1int).last() == prices@[i as int]);
            }
            match self.update_price(prices[i].0.as_str(), prices[i].1) {
                Some(()) => {},
                None => {
                    proof {
                        if price_walk(st0, prices@, slip, rate) is Some {
                            lemma_price_walk_prefix(st0, prices@, slip, rate, i + 1);
                        }
                    }
                    return None;
                },
            }
            i = i + 1;
        }
        proof {
            assert(prices@.take(prices@.len() as int) =~= prices@);
        }
        Some(())
    }

    /// Places a market order, filled at once at the latest price moved by the slippage.
    /// Refused while stopped or without a price for the symbol; `None` where the decimal
    /// arithmetic overflows (where `Decimal` panics).
    pub fn place_market_order(&mut self, symbol: &str, side: TradeSide, quantity: Dec) -> (r: Option<Result<PaperOrder, String>>)
        requires
            old(self).wf(),
            old(self).order_counter < u64::MAX,
        ensures
            final(self).wf(),
            match r {
                Some(Err(e)) => {
                    &&& *final(self) == *old(self)
                    &&& if !old(self).running {
                        e@ == not_running_text()
                    } else {
                        find_price(prices_view(old(self).latest_prices@), symbol@) is None && e@ == "No price data for "@ + symbol@
                    }
                },
                Some(Ok(o)) => {
                    &&& old(self).running
                    &&& find_price(prices_view(old(self).latest_prices@), symbol@) is Some
                    &&& o.order_id@ == order_id_text((old(self).order_counter + 1) as nat)
                    &&& o.symbol@ == symbol@
                    &&& o.side == side
                    &&& o.order_type == PaperOrderType::Market
                    &&& o.quantity == quantity
                    &&& o.price is None
                    &&& (o.status == PaperOrderStatus::Filled || o.status == PaperOrderStatus::Rejected)
                    &&& final(self).filled_orders@ == old(self).filled_orders@.push(o)
                    &&& final(self).pending_orders == old(self).pending_orders
                    &&& final(self).order_counter == old(self).order_counter + 1
                    &&& final(self).latest_prices == old(self).latest_prices
                    &&& final(self).config == old(self).config
                    &&& final(self).running == old(self).running
                    &&& {
                        let current = prices_view(old(self).latest_prices@)[find_price(
                            prices_view(old(self).latest_prices@),
                            symbol@,
                        )->0].1;
                        let fill = paper_slipped(current, old(self).config.slippage_pct, side)->0;
                        exists|ts1: i64, ts2: i64| {
                            let out = #[trigger] fill_outcome(
                                old(self).portfolio@,
                                o,
                                fill,
                                ts1,
                                ts2,
                            );
                            &&& paper_slipped(current, old(self).config.slippage_pct, side) is Some
                            &&& final(self).portfolio@ == out.0
                            &&& (o.status == PaperOrderStatus::Filled <==> out.1 is Ok)
                            &&& match out.1 {
                                Ok(()) => o.filled_price == Some(fill),
                                Err(e) => o.reject_reason matches Some(reason) && reason@ == e && o.filled_price is None,
                            }
                        }
                    }
                },
                None => true,
            },
            r is None <==> ({
                &&& old(self).running
                &&& find_price(prices_view(old(self).latest_prices@), symbol@) is Some
                &&& ({
                    let current = prices_view(old(self).latest_prices@)[find_price(
                        prices_view(old(self).latest_prices@),
                        symbol@,
                    )->0].1;
                    let slipped = paper_slipped(current, old(self).config.slippage_pct, side);
                    ||| slipped is None
                    ||| exists|o: PaperOrder|
                        o.symbol@ == symbol@ && o.side == side && o.quantity == quantity && !#[trigger] fill_ok(
                            old(self).portfolio@,
                            o,
                            slipped->0,
                            old(self).config.commission_rate,
                        )
                })
            }),
    {
        if !self.running {
            return Some(Err(String::from_str("Paper Trader is not running")));
        }
        let current = match self.latest_price(symbol) {
            Some(p) => p,
            None => {
                let mut e = String::from_str("No price data for ");
                e.append(symbol);
                return Some(Err(e));
            },
        };
        let fill = match self.try_apply_slippage(current, side) {
            Some(v) => v,
            None => return None,
        };
        let order_id = self.next_order_id();
        let mut order = PaperOrder {
            order_id,
            symbol: String::from_str(symbol),
            side,
            order_type: PaperOrderType::Market,
            quantity,
            price: None,
            status: PaperOrderStatus::Pending,
            filled_price: None,
            commission: Dec::zero(),
            created_at: now_millis(),
            filled_at: None,
            reject_reason: None,
        };
        let ghost before = order;
        let ghost p0 = self.portfolio@;
        let ghost rate = self.config.commission_rate;
        match self.execute_fill(&mut order, fill) {
            Some(()) => {},
            None => {
                assert(!fill_ok(p0, before, fill, rate));
                return None;
            },
        }
        proof {
            assert forall|o: PaperOrder|
                o.symbol@ == symbol@ && o.side == side && o.quantity == quantity implies #[trigger] fill_ok(
                p0,
                o,
                fill,
                rate,
            ) by {
                lemma_fill_ok_by_text(p0, o, before, fill, rate);
            }
        }
        proof {
            let (t1, t2) = choose|t1: i64, t2: i64| {
                let out = #[trigger] fill_outcome(old(self).portfolio@, before, fill, t1, t2);
                &&& self.portfolio@ == out.0
                &&& order.symbol == before.symbol
                &&& order.side == before.side
                &&& order.quantity == before.quantity
            };
            lemma_fill_outcome_reads_leg(old(self).portfolio@, before, order, fill, t1, t2);
        }
        let copy = order.duplicate();
        self.filled_orders.push(order);
        Some(Ok(copy))
    }

    /// The finished orders.
    pub fn get_trades(&self) -> (r: Vec<PaperOrder>)
        ensures
            r@ == self.filled_orders@,
    {
        copy_orders(&self.filled_orders)
    }

    /// The pending orders.
    pub fn get_pending_orders(&self) -> (r: Vec<PaperOrder>)
        ensures
            r@ == self.pending_orders@,
    {
        copy_orders(&self.pending_orders)
    }

    pub fn get_config(&self) -> (r: &PaperTraderConfig)
        ensures
            *r == self.config,
    {
        &self.config
    }

    /// Clears the portfolio, the orders and the prices, keeping the configuration; stopped.
    pub fn reset(&mut self)
        ensures
            final(self).wf(),
            final(self).config == old(self).config,
            final(self).portfolio@.initial_capital == old(self).config.initial_capital,
            final(self).portfolio@.cash == old(self).config.initial_capital,
            final(self).portfolio@.positions.len() == 0,
            final(self).portfolio@.trades.len() == 0,
            final(self).portfolio@.current_prices.len() == 0,
            final(self).portfolio@.commission_rate == old(self).config.commission_rate,
            final(self).pending_orders@.len() == 0,
            final(self).filled_orders@.len() == 0,
            final(self).latest_prices@.len() == 0,
            !final(self).running,
            final(self).started_at is None,
            final(self).order_counter == 0,
    {
        self.portfolio = Portfolio::new(self.config.initial_capital).with_commission_rate(self.config.commission_rate);
        self.pending_orders = Vec::new();
        self.filled_orders = Vec::new();
        self.latest_prices = Vec::new();
        self.running = false;
        self.started_at = None;
        self.order_counter = 0;
        proof {
            assert(prices_view(self.latest_prices@) =~= Seq::<(Seq<char>, Dec)>::empty());
        }
    }
}

/// Whether `pp` shows the position: priced at the latest price of its symbol (its average
/// price when there is none), with its PnL in percent.
/// The price a position is shown at: the symbol's latest price, else its average price.
pub open spec fn position_current(pos: Position, latest: Seq<(Seq<char>, Dec)>) -> Dec {
    match find_price(latest, pos.symbol@) {
        Some(i) => latest[i].1,
        None => pos.avg_price,
    }
}

/// The figures of a trader's snapshot can be computed: each position's PnL percentage, the
/// total value, the realised and unrealised PnL and commission sums, their total, the PnL
/// percentage of the capital and the win rate.
pub open spec fn status_ok(t: PaperTrader) -> bool {
    let p = t.portfolio@;
    let (closed, won) = closing_counts(p.trades);
    &&& forall|i: int| 0 <= i < p.positions.len() ==> #[trigger] position_pnl_pct(
        p.positions[i],
        position_current(p.positions[i], prices_view(t.latest_prices@)),
    ) is Some
    &&& p.total_value_spec() is Some
    &&& p.realized_spec() is Some
    &&& p.unrealized_spec() is Some
    &&& p.commission_spec() is Some
    &&& decimal_checked_add(p.realized_spec()->0, p.unrealized_spec()->0) is Some
    &&& p.initial_capital.value() > 0 ==> {
        &&& decimal_checked_div(p.total_pnl_spec(), p.initial_capital) is Some
        &&& decimal_checked_mul(decimal_checked_div(p.total_pnl_spec(), p.initial_capital)->0, Dec::spec_new(100, 0)) is Some
    }
    &&& closed > 0 ==> {
        &&& decimal_checked_div(Dec::spec_new(won as int, 0), Dec::spec_new(closed as int, 0)) is Some
        &&& decimal_checked_mul(
            decimal_checked_div(Dec::spec_new(won as int, 0), Dec::spec_new(closed as int, 0))->0,
            Dec::spec_new(100, 0),
        ) is Some
    }
}

pub open spec fn shows_position(pp: PaperPosition, pos: Position, latest: Seq<(Seq<char>, Dec)>) -> bool {
    let current = position_current(pos, latest);
    &&& pp.symbol@ == pos.symbol@
    &&& pp.side@ == if pos.side == PositionSide::Long { "Long"@ } else { "Short"@ }
    &&& pp.quantity == pos.quantity
    &&& pp.avg_price == pos.avg_price
    &&& pp.current_price == current
    &&& pp.market_value == pos.market_value
    &&& pp.unrealized_pnl == pos.unrealized_pnl
    &&& position_pnl_pct(pos, current) == Some(pp.unrealized_pnl_pct)
}

impl PaperTrader {
    fn show_position(&self, pos: &Position) -> (r: Option<PaperPosition>)
        requires
            self.wf(),
        ensures
            r matches Some(pp) ==> shows_position(pp, *pos, prices_view(self.latest_prices@)),
            r is Some <==> position_pnl_pct(*pos, position_current(*pos, prices_view(self.latest_prices@))) is Some,
    {
        let current = match self.latest_price(pos.symbol.as_str()) {
            Some(p) => p,
            None => pos.avg_price,
        };
        let pct = if pos.avg_price.gt(&Dec::zero()) {
            let gap = match pos.side {
                PositionSide::Long => current.checked_sub(pos.avg_price),
                PositionSide::Short => pos.avg_price.checked_sub(current),
            };
            match gap {
                Some(g) => match g.checked_div(pos.avg_price) {
                    Some(q) => match q.checked_mul(Dec::from_int(100)) {
                        Some(v) => v,
                        None => return None,
                    },
                    None => return None,
                },
                None => return None,
            }
        } else {
            Dec::zero()
        };
        let side = match pos.side {
            PositionSide::Long => String::from_str("Long"),
            PositionSide::Short => String::from_str("Short"),
        };
        Some(PaperPosition {
            symbol: pos.symbol.clone(),
            side,
            quantity: pos.quantity,
            avg_price: pos.avg_price,
            current_price: current,
            market_value: pos.market_value,
            unrealized_pnl: pos.unrealized_pnl,
            unrealized_pnl_pct: pct,
        })
    }

    /// A snapshot of the trader: its money, PnL, win rate over the closing trades, positions
    /// and orders. `None` where the decimal arithmetic overflows (where `Decimal` panics).
    pub fn get_status(&self) -> (r: Option<PaperTraderStatus>)
        requires
            self.wf(),
        ensures
            r is Some <==> status_ok(*self),
            r matches Some(st) ==> {
                let p = self.portfolio@;
                let (closed, won) = closing_counts(p.trades);
                &&& st.running == self.running
                &&& st.instance_id == self.config.instance_id
                &&& st.strategy_type == self.config.strategy_type
                &&& st.display_name == self.config.display_name
                &&& st.initial_capital == p.initial_capital
                &&& st.cash == p.cash
                &&& st.total_value == p.total_value_spec()->0
                &&& st.realized_pnl == p.realized_spec()->0
                &&& st.unrealized_pnl == p.unrealized_spec()->0
                &&& st.total_pnl == p.total_pnl_spec()
                &&& st.total_pnl_pct == if p.initial_capital.value() > 0 {
                    decimal_checked_mul(decimal_checked_div(p.total_pnl_spec(), p.initial_capital)->0, Dec::spec_new(100, 0))->0
                } else {
                    Dec::spec_zero()
                }
                &&& st.total_commission == p.commission_spec()->0
                &&& st.total_trades == self.filled_orders@.len()
                &&& st.win_rate == if closed > 0 {
                    decimal_checked_mul(
                        decimal_checked_div(Dec::spec_new(won as int, 0), Dec::spec_new(closed as int, 0))->0,
                        Dec::spec_new(100, 0),
                    )->0
                } else {
                    Dec::spec_zero()
                }
                &&& st.positions@.len() == p.positions.len()
                &&& forall|i: int| 0 <= i < p.positions.len() ==> shows_position(#[trigger] st.positions@[i], p.positions[i], prices_view(self.latest_prices@))
                &&& st.pending_orders == self.pending_orders@.len()
                &&& prices_view(st.latest_prices@) == prices_view(self.latest_prices@)
                &&& st.started_at == self.started_at
            },
    {
        let mut positions: Vec<PaperPosition> = Vec::new();
        let mut i: usize = 0;
        while i < self.portfolio.positions.len()
            invariant
                self.wf(),
                i <= self.portfolio@.positions.len(),
                positions@.len() == i,
                forall|j: int| 0 <= j < i ==> shows_position(#[trigger] positions@[j], self.portfolio@.positions[j], prices_view(self.latest_prices@)),
                forall|j: int| 0 <= j < i ==> #[trigger] position_pnl_pct(
                    self.portfolio@.positions[j],
                    position_current(self.portfolio@.positions[j], prices_view(self.latest_prices@)),
                ) is Some,
            decreases self.portfolio@.positions.len() - i,
        {
            match self.show_position(&self.portfolio.positions[i]) {
                Some(pp) => positions.push(pp),
                None => return None,
            }
            i = i + 1;
        }
        let total_value = match self.portfolio.try_total_value() {
            Some(v) => v,
            None => return None,
        };
        let (realized, unrealized, commission) = self.portfolio.try_sums();
        let (realized, unrealized, commission) = match (realized, unrealized, commission) {
            (Some(a), Some(b), Some(c)) => (a, b, c),
            _ => return None,
        };
        let total_pnl = match realized.checked_add(unrealized) {
            Some(v) => v,
            None => return None,
        };
        let total_pnl_pct = if self.portfolio.initial_capital.gt(&Dec::zero()) {
            match total_pnl.checked_div(self.portfolio.initial_capital) {
                Some(q) => match q.checked_mul(Dec::from_int(100)) {
                    Some(v) => v,
                    None => return None,
                },
                None => return None,
            }
        } else {
            Dec::zero()
        };
        let ghost closed_flags = self.portfolio@.trades.map_values(|t: Trade| t.realized_pnl is Some);
        let ghost won_flags = self.portfolio@.trades.map_values(|t: Trade| t.realized_pnl matches Some(p) && p.value() > 0);
        let mut closed: usize = 0;
        let mut won: usize = 0;
        let zero = Dec::zero();
        let mut k: usize = 0;
        while k < self.portfolio.trades.len()
            invariant
                closed_flags == self.portfolio@.trades.map_values(|t: Trade| t.realized_pnl is Some),
                won_flags == self.portfolio@.trades.map_values(|t: Trade| t.realized_pnl matches Some(p) && p.value() > 0),
                zero.value() == 0,
                k <= self.portfolio@.trades.len(),
                closed == crate::seqs::count_of(closed_flags.take(k as int)),
                won == crate::seqs::count_of(won_flags.take(k as int)),
                closed <= k,
                won <= k,
            decreases self.portfolio@.trades.len() - k,
        {
            proof {
                crate::seqs::lemma_count_of_step(closed_flags, k as nat);
                crate::seqs::lemma_count_of_step(won_flags, k as nat);
            }
            match self.portfolio.trades[k].realized_pnl {
                Some(p) => {
                    closed = closed + 1;
                    if p.gt(&zero) {
                        won = won + 1;
                    }
                },
                None => {},
            }
            k = k + 1;
        }
        proof {
            assert(closed_flags.take(closed_flags.len() as int) =~= closed_flags);
            assert(won_flags.take(won_flags.len() as int) =~= won_flags);
        }
        let win_rate = if closed > 0 {
            match Dec::from_usize(won).checked_div(Dec::from_usize(closed)) {
                Some(q) => match q.checked_mul(Dec::from_int(100)) {
                    Some(v) => v,
                    None => return None,
                },
                None => return None,
            }
        } else {
            Dec::zero()
        };
        let mut latest: Vec<(String, Dec)> = Vec::new();
        let mut j: usize = 0;
        while j < self.latest_prices.len()
            invariant
                j <= self.latest_prices@.len(),
                prices_view(latest@) == prices_view(self.latest_prices@.take(j as int)),
            decreases self.latest_prices@.len() - j,
        {
            let key = self.latest_prices[j].0.clone();
            let ghost before = latest@;
            latest.push((key, self.latest_prices[j].1));
            proof {
                assert(key@ == self.latest_prices@[j as int].0@);
                assert(latest@ == before.push((key, self.latest_prices@[j as int].1)));
                assert(prices_view(latest@) =~= prices_view(before).push((key@, self.latest_prices@[j as int].1)));
                assert(prices_view(self.latest_prices@.take(j + 1)) =~= prices_view(self.latest_prices@.take(j as int)).push((key@, self.latest_prices@[j as int].1)));
            }
            j = j + 1;
        }
        proof {
            assert(self.latest_prices@.take(self.latest_prices@.len() as int) =~= self.latest_prices@);
        }
        let strategy_type = match &self.config.strategy_type {
            Some(s) => Some(s.clone()),
            None => None,
        };
        let display_name = match &self.config.display_name {
            Some(s) => Some(s.clone()),
            None => None,
        };
        Some(PaperTraderStatus {
            running: self.running,
            instance_id: self.config.instance_id,
            strategy_type,
            display_name,
            initial_capital: self.portfolio.initial_capital,
            cash: self.portfolio.cash,
            total_value,
            total_pnl,
            total_pnl_pct,
            realized_pnl: realized,
            unrealized_pnl: unrealized,
            total_commission: commission,
            total_trades: self.filled_orders.len(),
            win_rate,
            positions,
            pending_orders: self.pending_orders.len(),
            latest_prices: latest,
            started_at: self.started_at,
        })
    }
}

} // verus!
