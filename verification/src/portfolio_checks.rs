//! Checks, before a portfolio operation, that none of its decimal arithmetic overflows (where
//! `Decimal`'s operators would panic), and the sums over a portfolio computed with that check.
use crate::decimal::{fold_add, lemma_fold_add_step, Dec};
use crate::portfolio::{
    find_position, lemma_find_position, Portfolio, PortfolioModel, Position, PositionSide, Trade,
};
use crate::types::TradeSide;
use vstd::prelude::*;

verus! {

/// Once a prefix of a fold overflows, so does the whole fold.
proof fn lemma_fold_add_prefix_none(init: Dec, s: Seq<Option<Dec>>, k: nat)
    requires
        k <= s.len(),
        fold_add(init, s.take(k as int)) is None,
    ensures
        fold_add(init, s) is None,
    decreases s.len() - k,
{
    if k < s.len() {
        lemma_fold_add_step(init, s, k);
        lemma_fold_add_prefix_none(init, s, k + 1);
    } else {
        assert(s.take(k as int) =~= s);
    }
}

/// `init` plus the present values, or `None` where an addition overflows.
fn try_fold(init: Dec, items: &Vec<Option<Dec>>) -> (r: Option<Dec>)
    ensures
        r == fold_add(init, items@),
{
    let mut total = init;
    let mut i: usize = 0;
    while i < items.len()
        invariant
            i <= items@.len(),
            fold_add(init, items@.take(i as int)) == Some(total),
        decreases items@.len() - i,
    {
        proof {
            lemma_fold_add_step(init, items@, i as nat);
        }
        match items[i] {
            Some(x) => match total.checked_add(x) {
                Some(v) => {
                    total = v;
                },
                None => {
                    proof {
                        lemma_fold_add_prefix_none(init, items@, (i + 1) as nat);
                    }
                    return None;
                },
            },
            None => {},
        }
        i = i + 1;
    }
    proof {
        assert(items@.take(items@.len() as int) =~= items@);
    }
    Some(total)
}

impl Portfolio {
    /// The slipped price, or `None` where the slippage or its cost overflows.
    fn try_slippage(&self, quantity: Dec, price: Dec, side: TradeSide) -> (r: Option<Dec>)
        ensures
            r is Some <==> self@.slippage_ok(quantity, price, side),
            r is Some ==> r->0 == self@.slipped(price, side),
    {
        let p = if self.slippage_pct.is_zero() {
            price
        } else {
            let s = match price.checked_mul(self.slippage_pct) {
                Some(v) => v,
                None => return None,
            };
            let moved = match side {
                TradeSide::Buy => price.checked_add(s),
                TradeSide::Sell => price.checked_sub(s),
            };
            match moved {
                Some(v) => v,
                None => return None,
            }
        };
        let gap = match side {
            TradeSide::Buy => p.checked_sub(price),
            TradeSide::Sell => price.checked_sub(p),
        };
        let gap = match gap {
            Some(v) => v,
            None => return None,
        };
        let cost = match gap.checked_mul(quantity) {
            Some(v) => v,
            None => return None,
        };
        match self.total_slippage_cost.checked_add(cost) {
            Some(_) => Some(p),
            None => None,
        }
    }

    /// Whether buying `quantity` of the symbol at `price` is free of overflow.
    pub fn can_execute_buy(&self, symbol: &str, quantity: Dec, price: Dec) -> (r: bool)
        requires
            self@.wf(),
        ensures
            r == self@.buy_ok(symbol@, quantity, price),
    {
        let p = match self.try_slippage(quantity, price, TradeSide::Buy) {
            Some(p) => p,
            None => return false,
        };
        let cost = match quantity.checked_mul(p) {
            Some(v) => v,
            None => return false,
        };
        let commission = match cost.checked_mul(self.commission_rate) {
            Some(v) => v,
            None => return false,
        };
        let total = match cost.checked_add(commission) {
            Some(v) => v,
            None => return false,
        };
        if total.gt(&self.cash) {
            return true;
        }
        if self.cash.checked_sub(total).is_none() {
            return false;
        }
        proof {
            lemma_find_position(self@.positions, symbol@);
        }
        match self.position_index(symbol) {
            None => true,
            Some(i) => {
                let pos = &self.positions[i];
                let tq = match pos.quantity.checked_add(quantity) {
                    Some(v) => v,
                    None => return false,
                };
                let held = match pos.quantity.checked_mul(pos.avg_price) {
                    Some(v) => v,
                    None => return false,
                };
                let tc = match held.checked_add(cost) {
                    Some(v) => v,
                    None => return false,
                };
                let avg = match tc.checked_div(tq) {
                    Some(v) => v,
                    None => return false,
                };
                if tq.checked_mul(p).is_none() {
                    return false;
                }
                match p.checked_sub(avg) {
                    Some(d) => d.checked_mul(tq).is_some(),
                    None => false,
                }
            },
        }
    }

    /// Whether selling `quantity` of the symbol at `price` is free of overflow.
    pub fn can_execute_sell(&self, symbol: &str, quantity: Dec, price: Dec) -> (r: bool)
        requires
            self@.wf(),
        ensures
            r == self@.sell_ok(symbol@, quantity, price),
    {
        let p = match self.try_slippage(quantity, price, TradeSide::Sell) {
            Some(p) => p,
            None => return false,
        };
        proof {
            lemma_find_position(self@.positions, symbol@);
        }
        let i = match self.position_index(symbol) {
            None => return true,
            Some(i) => i,
        };
        let pos = &self.positions[i];
        if quantity.gt(&pos.quantity) {
            return true;
        }
        let proceeds = match quantity.checked_mul(p) {
            Some(v) => v,
            None => return false,
        };
        let commission = match proceeds.checked_mul(self.commission_rate) {
            Some(v) => v,
            None => return false,
        };
        let net = match proceeds.checked_sub(commission) {
            Some(v) => v,
            None => return false,
        };
        if self.cash.checked_add(net).is_none() {
            return false;
        }
        let gain = match p.checked_sub(pos.avg_price) {
            Some(v) => v,
            None => return false,
        };
        let gross = match gain.checked_mul(quantity) {
            Some(v) => v,
            None => return false,
        };
        if gross.checked_sub(commission).is_none() {
            return false;
        }
        let left = match pos.quantity.checked_sub(quantity) {
            Some(v) => v,
            None => return false,
        };
        if left.is_zero() {
            true
        } else {
            left.checked_mul(p).is_some() && gain.checked_mul(left).is_some()
        }
    }

    /// Whether opening or adding to a short of `quantity` of the symbol at `price` is free of
    /// overflow.
    pub fn can_execute_short_open(&self, symbol: &str, quantity: Dec, price: Dec) -> (r: bool)
        requires
            self@.wf(),
        ensures
            r == self@.short_open_ok(symbol@, quantity, price),
    {
        let p = match self.try_slippage(quantity, price, TradeSide::Sell) {
            Some(p) => p,
            None => return false,
        };
        let proceeds = match quantity.checked_mul(p) {
            Some(v) => v,
            None => return false,
        };
        let commission = match proceeds.checked_mul(self.commission_rate) {
            Some(v) => v,
            None => return false,
        };
        let net = match proceeds.checked_sub(commission) {
            Some(v) => v,
            None => return false,
        };
        if self.cash.checked_add(net).is_none() {
            return false;
        }
        proof {
            lemma_find_position(self@.positions, symbol@);
        }
        match self.position_index(symbol) {
            None => true,
            Some(i) => {
                let pos = &self.positions[i];
                match pos.side {
                    PositionSide::Long => true,
                    PositionSide::Short => {
                        let tq = match pos.quantity.checked_add(quantity) {
                            Some(v) => v,
                            None => return false,
                        };
                        let held = match pos.quantity.checked_mul(pos.avg_price) {
                            Some(v) => v,
                            None => return false,
                        };
                        let tc = match held.checked_add(proceeds) {
                            Some(v) => v,
                            None => return false,
                        };
                        let avg = match tc.checked_div(tq) {
                            Some(v) => v,
                            None => return false,
                        };
                        match avg.checked_sub(p) {
                            Some(d) => d.checked_mul(tq).is_some(),
                            None => false,
                        }
                    },
                }
            },
        }
    }

    /// Whether buying back `quantity` of the symbol's short at `price` is free of overflow.
    pub fn can_execute_short_close(&self, symbol: &str, quantity: Dec, price: Dec) -> (r: bool)
        requires
            self@.wf(),
        ensures
            r == self@.short_close_ok(symbol@, quantity, price),
    {
        let p = match self.try_slippage(quantity, price, TradeSide::Buy) {
            Some(p) => p,
            None => return false,
        };
        proof {
            lemma_find_position(self@.positions, symbol@);
        }
        let i = match self.position_index(symbol) {
            None => return true,
            Some(i) => i,
        };
        let pos = &self.positions[i];
        match pos.side {
            PositionSide::Long => {
                return true;
            },
            PositionSide::Short => {},
        }
        if quantity.gt(&pos.quantity) {
            return true;
        }
        let cost = match quantity.checked_mul(p) {
            Some(v) => v,
            None => return false,
        };
        let commission = match cost.checked_mul(self.commission_rate) {
            Some(v) => v,
            None => return false,
        };
        let outlay = match cost.checked_add(commission) {
            Some(v) => v,
            None => return false,
        };
        if self.cash.checked_sub(outlay).is_none() {
            return false;
        }
        let open_proceeds = match quantity.checked_mul(pos.avg_price) {
            Some(v) => v,
            None => return false,
        };
        let open_commission = match open_proceeds.checked_mul(self.commission_rate) {
            Some(v) => v,
            None => return false,
        };
        let a = match open_proceeds.checked_sub(cost) {
            Some(v) => v,
            None => return false,
        };
        let b = match a.checked_sub(open_commission) {
            Some(v) => v,
            None => return false,
        };
        if b.checked_sub(commission).is_none() {
            return false;
        }
        let left = match pos.quantity.checked_sub(quantity) {
            Some(v) => v,
            None => return false,
        };
        if left.is_zero() {
            true
        } else {
            match pos.avg_price.checked_sub(p) {
                Some(d) => d.checked_mul(left).is_some(),
                None => false,
            }
        }
    }

    /// Whether recording the price of the symbol is free of overflow.
    pub fn can_update_price(&self, symbol: &str, price: Dec) -> (r: bool)
        requires
            self@.wf(),
        ensures
            r == self@.update_price_ok(symbol@, price),
    {
        proof {
            lemma_find_position(self@.positions, symbol@);
        }
        match self.position_index(symbol) {
            None => true,
            Some(k) => {
                let pos = &self.positions[k];
                match pos.side {
                    PositionSide::Long => {
                        pos.quantity.checked_mul(price).is_some() && match price.checked_sub(pos.avg_price) {
                            Some(d) => d.checked_mul(pos.quantity).is_some(),
                            None => false,
                        }
                    },
                    PositionSide::Short => {
                        let twice = match pos.avg_price.checked_mul(Dec::from_int(2)) {
                            Some(v) => v,
                            None => return false,
                        };
                        let base = match twice.checked_sub(price) {
                            Some(v) => v,
                            None => return false,
                        };
                        if pos.quantity.checked_mul(base).is_none() {
                            return false;
                        }
                        match pos.avg_price.checked_sub(price) {
                            Some(d) => d.checked_mul(pos.quantity).is_some(),
                            None => false,
                        }
                    },
                }
            },
        }
    }

    /// Cash plus what each position adds, or `None` where an addition overflows.
    pub fn try_total_value(&self) -> (r: Option<Dec>)
        ensures
            r == self@.total_value_spec(),
    {
        let mut items: Vec<Option<Dec>> = Vec::new();
        let mut i: usize = 0;
        while i < self.positions.len()
            invariant
                i <= self.positions@.len(),
                items@ == self@.positions.take(i as int).map_values(|p: Position| PortfolioModel::value_contribution(p)),
            decreases self.positions@.len() - i,
        {
            match self.positions[i].side {
                PositionSide::Long => items.push(Some(self.positions[i].market_value)),
                PositionSide::Short => items.push(Some(self.positions[i].unrealized_pnl)),
            }
            proof {
                assert(items@ =~= self@.positions.take(i + 1).map_values(|p: Position| PortfolioModel::value_contribution(p)));
            }
            i = i + 1;
        }
        proof {
            assert(self@.positions.take(self@.positions.len() as int) =~= self@.positions);
        }
        try_fold(self.cash, &items)
    }

    /// The sums the result of a backtest needs (realised, unrealised PnL and commissions), each
    /// `None` where an addition overflows.
    pub fn try_sums(&self) -> (r: (Option<Dec>, Option<Dec>, Option<Dec>))
        ensures
            r.0 == self@.realized_spec(),
            r.1 == self@.unrealized_spec(),
            r.2 == self@.commission_spec(),
    {
        let mut realized: Vec<Option<Dec>> = Vec::new();
        let mut commissions: Vec<Option<Dec>> = Vec::new();
        let mut i: usize = 0;
        while i < self.trades.len()
            invariant
                i <= self.trades@.len(),
                realized@ == self@.trades.take(i as int).map_values(|t: Trade| t.realized_pnl),
                commissions@ == self@.trades.take(i as int).map_values(|t: Trade| Some(t.commission)),
            decreases self.trades@.len() - i,
        {
            realized.push(self.trades[i].realized_pnl);
            commissions.push(Some(self.trades[i].commission));
            proof {
                assert(realized@ =~= self@.trades.take(i + 1).map_values(|t: Trade| t.realized_pnl));
                assert(commissions@ =~= self@.trades.take(i + 1).map_values(|t: Trade| Some(t.commission)));
            }
            i = i + 1;
        }
        let mut unrealized: Vec<Option<Dec>> = Vec::new();
        let mut j: usize = 0;
        while j < self.positions.len()
            invariant
                j <= self.positions@.len(),
                unrealized@ == self@.positions.take(j as int).map_values(|p: Position| Some(p.unrealized_pnl)),
            decreases self.positions@.len() - j,
        {
            unrealized.push(Some(self.positions[j].unrealized_pnl));
            proof {
                assert(unrealized@ =~= self@.positions.take(j + 1).map_values(|p: Position| Some(p.unrealized_pnl)));
            }
            j = j + 1;
        }
        proof {
            assert(self@.trades.take(self@.trades.len() as int) =~= self@.trades);
            assert(self@.positions.take(self@.positions.len() as int) =~= self@.positions);
        }
        (
            try_fold(Dec::zero(), &realized),
            try_fold(Dec::zero(), &unrealized),
            try_fold(Dec::zero(), &commissions),
        )
    }
}

} // verus!
