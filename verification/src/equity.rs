//! The equity curve of a portfolio, replayed from its trades.
use crate::decimal::{decimal_checked_add, decimal_checked_div, decimal_checked_mul, decimal_checked_sub, Dec};
use crate::portfolio::{find_price, lemma_find_price, Portfolio, PortfolioModel, Trade};
use crate::types::TradeSide;
use vstd::pervasive::VecAdditionalExecFns;
use vstd::prelude::*;
use vstd::string::StringExecFns;

verus! {

/// A running holding: symbol, quantity and average price.
pub type Holding = (Seq<char>, Dec, Dec);

/// The index of the first holding of the symbol.
pub open spec fn holding_index(h: Seq<Holding>, symbol: Seq<char>) -> Option<int> {
    if exists|i: int| 0 <= i < h.len() && h[i].0 == symbol && forall|j: int| 0 <= j < i ==> h[j].0 != symbol {
        Some(choose|i: int| 0 <= i < h.len() && h[i].0 == symbol && forall|j: int| 0 <= j < i ==> h[j].0 != symbol)
    } else {
        None
    }
}

/// The average price after adding `quantity` at `price` to `q0` at `a0`, the new quantity
/// being `nq`: zero when `nq` is not positive.
pub open spec fn merged_average(q0: Dec, a0: Dec, quantity: Dec, price: Dec, nq: Dec) -> Option<Dec> {
    if nq.value() > 0 {
        match (decimal_checked_mul(q0, a0), decimal_checked_mul(quantity, price)) {
            (Some(x), Some(y)) => match decimal_checked_add(x, y) {
                Some(total) => decimal_checked_div(total, nq),
                None => None,
            },
            _ => None,
        }
    } else {
        Some(Dec::spec_zero())
    }
}

/// One trade replayed on the running cash and holdings: a buy pays quantity times price plus
/// commission and merges into the holding; a sell receives quantity times price less commission
/// and reduces the holding, dropping it once it is not positive.
pub open spec fn equity_step(cash: Dec, h: Seq<Holding>, t: Trade) -> Option<(Dec, Seq<Holding>)> {
    match decimal_checked_mul(t.quantity, t.price) {
        None => None,
        Some(notional) => match t.side {
            TradeSide::Buy => match decimal_checked_add(notional, t.commission) {
                None => None,
                Some(outlay) => match decimal_checked_sub(cash, outlay) {
                    None => None,
                    Some(c) => {
                        let idx = holding_index(h, t.symbol@);
                        let q0 = if idx is Some { h[idx->0].1 } else { Dec::spec_zero() };
                        let a0 = if idx is Some { h[idx->0].2 } else { Dec::spec_zero() };
                        match decimal_checked_add(q0, t.quantity) {
                            None => None,
                            Some(nq) => match merged_average(q0, a0, t.quantity, t.price, nq) {
                                None => None,
                                Some(na) => Some(
                                    (
                                        c,
                                        if idx is Some {
                                            h.update(idx->0, (t.symbol@, nq, na))
                                        } else {
                                            h.push((t.symbol@, nq, na))
                                        },
                                    ),
                                ),
                            },
                        }
                    },
                },
            },
            TradeSide::Sell => match decimal_checked_sub(notional, t.commission) {
                None => None,
                Some(income) => match decimal_checked_add(cash, income) {
                    None => None,
                    Some(c) => match holding_index(h, t.symbol@) {
                        None => Some((c, h)),
                        Some(i) => match decimal_checked_sub(h[i].1, t.quantity) {
                            None => None,
                            Some(nq) => if nq.value() <= 0 {
                                Some((c, h.remove(i)))
                            } else {
                                Some((c, h.update(i, (h[i].0, nq, h[i].2))))
                            },
                        },
                    },
                },
            },
        },
    }
}

/// The cash and holdings after replaying the trades from the capital.
pub open spec fn replay(initial: Dec, trades: Seq<Trade>) -> Option<(Dec, Seq<Holding>)>
    decreases trades.len(),
{
    if trades.len() == 0 {
        Some((initial, Seq::empty()))
    } else {
        match replay(initial, trades.drop_last()) {
            Some((c, h)) => equity_step(c, h, trades.last()),
            None => None,
        }
    }
}

/// The cash plus each holding's quantity times its latest price (holdings without a price add
/// nothing), added in the order of the holdings.
pub open spec fn holdings_value(cash: Dec, h: Seq<Holding>, prices: Seq<(Seq<char>, Dec)>) -> Option<Dec>
    decreases h.len(),
{
    if h.len() == 0 {
        Some(cash)
    } else {
        match holdings_value(cash, h.drop_last(), prices) {
            None => None,
            Some(acc) => match find_price(prices, h.last().0) {
                None => Some(acc),
                Some(k) => match decimal_checked_mul(h.last().1, prices[k].1) {
                    Some(x) => decimal_checked_add(acc, x),
                    None => None,
                },
            },
        }
    }
}

/// The equity curve: the capital, then the value after each trade.
pub open spec fn equity_curve_spec(initial: Dec, trades: Seq<Trade>, prices: Seq<(Seq<char>, Dec)>) -> Option<Seq<Dec>>
    decreases trades.len(),
{
    if trades.len() == 0 {
        Some(seq![initial])
    } else {
        match (equity_curve_spec(initial, trades.drop_last(), prices), replay(initial, trades)) {
            (Some(curve), Some((c, h))) => match holdings_value(c, h, prices) {
                Some(v) => Some(curve.push(v)),
                None => None,
            },
            _ => None,
        }
    }
}

/// A defined curve has one value before the trades and one after each, starting at the
/// initial capital.
pub proof fn lemma_curve_shape(initial: Dec, trades: Seq<Trade>, prices: Seq<(Seq<char>, Dec)>)
    requires
        equity_curve_spec(initial, trades, prices) is Some,
    ensures
        equity_curve_spec(initial, trades, prices)->0.len() == trades.len() + 1,
        equity_curve_spec(initial, trades, prices)->0[0] == initial,
    decreases trades.len(),
{
    if trades.len() > 0 {
        lemma_curve_shape(initial, trades.drop_last(), prices);
    }
}

/// Once a prefix of the curve is undefined, so is the whole curve.
pub proof fn lemma_curve_prefix_none(initial: Dec, trades: Seq<Trade>, prices: Seq<(Seq<char>, Dec)>, k: nat)
    requires
        k <= trades.len(),
        equity_curve_spec(initial, trades.take(k as int), prices) is None,
    ensures
        equity_curve_spec(initial, trades, prices) is None,
    decreases trades.len() - k,
{
    if k < trades.len() {
        assert(trades.take(k + 1int).drop_last() =~= trades.take(k as int));
        lemma_curve_prefix_none(initial, trades, prices, k + 1);
    } else {
        assert(trades.take(k as int) =~= trades);
    }
}

/// The holdings with the symbols as texts.
pub open spec fn holdings_view(v: Seq<(String, Dec, Dec)>) -> Seq<Holding> {
    v.map_values(|e: (String, Dec, Dec)| (e.0@, e.1, e.2))
}

fn find_holding(h: &Vec<(String, Dec, Dec)>, symbol: &str) -> (r: Option<usize>)
    ensures
        match r {
            Some(i) => holding_index(holdings_view(h@), symbol@) == Some(i as int) && i < h@.len(),
            None => holding_index(holdings_view(h@), symbol@) is None,
        },
{
    let ghost hv = holdings_view(h@);
    let mut i: usize = 0;
    while i < h.len()
        invariant
            hv == holdings_view(h@),
            i <= h@.len(),
            forall|j: int| 0 <= j < i ==> hv[j].0 != symbol@,
        decreases h@.len() - i,
    {
        if crate::text::str_eq(h[i].0.as_str(), symbol) {
            proof {
                let w = i as int;
                assert(hv[w].0 == symbol@);
                assert(0 <= w < hv.len() && hv[w].0 == symbol@ && forall|j: int| 0 <= j < w ==> hv[j].0 != symbol@);
                let c = choose|c: int| 0 <= c < hv.len() && hv[c].0 == symbol@ && forall|j: int| 0 <= j < c ==> hv[j].0 != symbol@;
                if c < w {
                    assert(hv[c].0 != symbol@);
                }
                if w < c {
                    assert(hv[w].0 != symbol@);
                }
            }
            return Some(i);
        }
        i = i + 1;
    }
    None
}

impl Portfolio {
    /// The value of the replayed cash and holdings at the latest prices.
    fn try_holdings_value(&self, cash: Dec, h: &Vec<(String, Dec, Dec)>) -> (r: Option<Dec>)
        requires
            self@.wf(),
        ensures
            r == holdings_value(cash, holdings_view(h@), self@.current_prices),
    {
        let ghost hv = holdings_view(h@);
        let mut acc = cash;
        let mut i: usize = 0;
        while i < h.len()
            invariant
                self@.wf(),
                hv == holdings_view(h@),
                i <= h@.len(),
                holdings_value(cash, hv.take(i as int), self@.current_prices) == Some(acc),
            decreases h@.len() - i,
        {
            proof {
                assert(hv.take(i + 1int).drop_last() =~= hv.take(i as int));
                assert(hv.take(i + 1int).last() == hv[i as int]);
            }
            match self.price_index(h[i].0.as_str()) {
                Some(k) => {
                    let x = match h[i].1.checked_mul(self.current_prices[k].1) {
                        Some(x) => x,
                        None => {
                            proof {
                                lemma_holdings_value_prefix_none(cash, hv, self@.current_prices, (i + 1) as nat);
                            }
                            return None;
                        },
                    };
                    match acc.checked_add(x) {
                        Some(v) => {
                            acc = v;
                        },
                        None => {
                            proof {
                                lemma_holdings_value_prefix_none(cash, hv, self@.current_prices, (i + 1) as nat);
                            }
                            return None;
                        },
                    }
                },
                None => {},
            }
            i = i + 1;
        }
        proof {
            assert(hv.take(hv.len() as int) =~= hv);
        }
        Some(acc)
    }

    /// One trade replayed on the running cash and holdings.
    fn try_equity_step(cash: Dec, h: &mut Vec<(String, Dec, Dec)>, t: &Trade) -> (r: Option<Dec>)
        ensures
            match r {
                Some(c) => equity_step(cash, holdings_view(old(h)@), *t) == Some((c, holdings_view(final(h)@))),
                None => equity_step(cash, holdings_view(old(h)@), *t) is None,
            },
    {
        let ghost hv = holdings_view(h@);
        let notional = match t.quantity.checked_mul(t.price) {
            Some(v) => v,
            None => return None,
        };
        match t.side {
            TradeSide::Buy => {
                let outlay = match notional.checked_add(t.commission) {
                    Some(v) => v,
                    None => return None,
                };
                let c = match cash.checked_sub(outlay) {
                    Some(v) => v,
                    None => return None,
                };
                let idx = find_holding(h, t.symbol.as_str());
                let (q0, a0) = match idx {
                    Some(i) => (h[i].1, h[i].2),
                    None => (Dec::zero(), Dec::zero()),
                };
                let nq = match q0.checked_add(t.quantity) {
                    Some(v) => v,
                    None => return None,
                };
                let na = if nq.gt(&Dec::zero()) {
                    let x = q0.checked_mul(a0);
                    let y = t.quantity.checked_mul(t.price);
                    match (x, y) {
                        (Some(x), Some(y)) => match x.checked_add(y) {
                            Some(total) => match total.checked_div(nq) {
                                Some(v) => v,
                                None => return None,
                            },
                            None => return None,
                        },
                        _ => return None,
                    }
                } else {
                    Dec::zero()
                };
                match idx {
                    Some(i) => {
                        h.set(i, (String::from_str(t.symbol.as_str()), nq, na));
                        proof {
                            assert(holdings_view(h@) =~= hv.update(i as int, (t.symbol@, nq, na)));
                        }
                    },
                    None => {
                        h.push((String::from_str(t.symbol.as_str()), nq, na));
                        proof {
                            assert(holdings_view(h@) =~= hv.push((t.symbol@, nq, na)));
                        }
                    },
                }
                Some(c)
            },
            TradeSide::Sell => {
                let income = match notional.checked_sub(t.commission) {
                    Some(v) => v,
                    None => return None,
                };
                let c = match cash.checked_add(income) {
                    Some(v) => v,
                    None => return None,
                };
                match find_holding(h, t.symbol.as_str()) {
                    None => Some(c),
                    Some(i) => {
                        let nq = match h[i].1.checked_sub(t.quantity) {
                            Some(v) => v,
                            None => return None,
                        };
                        if nq.le(&Dec::zero()) {
                            h.remove(i);
                            proof {
                                assert(holdings_view(h@) =~= hv.remove(i as int));
                            }
                        } else {
                            let name = String::from_str(h[i].0.as_str());
                            let avg = h[i].2;
                            h.set(i, (name, nq, avg));
                            proof {
                                assert(holdings_view(h@) =~= hv.update(i as int, (hv[i as int].0, nq, hv[i as int].2)));
                            }
                        }
                        Some(c)
                    },
                }
            },
        }
    }

    /// The equity curve, or `None` where `Decimal` would panic: the initial capital, then, after
    /// each trade, the replayed cash plus the replayed holdings at the latest prices.
    pub fn try_get_equity_curve(&self) -> (r: Option<Vec<Dec>>)
        requires
            self@.wf(),
        ensures
            match r {
                Some(v) => equity_curve_spec(self@.initial_capital, self@.trades, self@.current_prices) == Some(v@),
                None => equity_curve_spec(self@.initial_capital, self@.trades, self@.current_prices) is None,
            },
    {
        let ghost trades = self@.trades;
        let ghost prices = self@.current_prices;
        let ghost init = self@.initial_capital;
        let mut curve: Vec<Dec> = Vec::new();
        curve.push(self.initial_capital);
        let mut cash = self.initial_capital;
        let mut holdings: Vec<(String, Dec, Dec)> = Vec::new();
        proof {
            assert(trades.take(0) =~= Seq::<Trade>::empty());
            assert(curve@ =~= seq![init]);
            assert(holdings_view(holdings@) =~= Seq::<Holding>::empty());
        }
        let mut i: usize = 0;
        while i < self.trades.len()
            invariant
                self@.wf(),
                trades == self@.trades,
                prices == self@.current_prices,
                init == self@.initial_capital,
                i <= trades.len(),
                replay(init, trades.take(i as int)) == Some((cash, holdings_view(holdings@))),
                equity_curve_spec(init, trades.take(i as int), prices) == Some(curve@),
            decreases trades.len() - i,
        {
            proof {
                assert(trades.take(i + 1int).drop_last() =~= trades.take(i as int));
                assert(trades.take(i + 1int).last() == trades[i as int]);
            }
            match Portfolio::try_equity_step(cash, &mut holdings, &self.trades[i]) {
                Some(c) => {
                    cash = c;
                },
                None => {
                    proof {
                        lemma_curve_prefix_none(init, trades, prices, (i + 1) as nat);
                    }
                    return None;
                },
            }
            match self.try_holdings_value(cash, &holdings) {
                Some(v) => {
                    curve.push(v);
                },
                None => {
                    proof {
                        lemma_curve_prefix_none(init, trades, prices, (i + 1) as nat);
                    }
                    return None;
                },
            }
            i = i + 1;
        }
        proof {
            assert(trades.take(trades.len() as int) =~= trades);
        }
        Some(curve)
    }

    /// The equity curve: the initial capital, then, after each trade, the replayed cash plus
    /// the replayed holdings at the latest prices.
    pub fn get_equity_curve(&self) -> (r: Vec<Dec>)
        requires
            self@.wf(),
            equity_curve_spec(self@.initial_capital, self@.trades, self@.current_prices) is Some,
        ensures
            r@ == equity_curve_spec(self@.initial_capital, self@.trades, self@.current_prices)->0,
    {
        match self.try_get_equity_curve() {
            Some(v) => v,
            None => vstd::pervasive::unreached(),
        }
    }
}

proof fn lemma_holdings_value_prefix_none(cash: Dec, h: Seq<Holding>, prices: Seq<(Seq<char>, Dec)>, k: nat)
    requires
        k <= h.len(),
        holdings_value(cash, h.take(k as int), prices) is None,
    ensures
        holdings_value(cash, h, prices) is None,
    decreases h.len() - k,
{
    if k < h.len() {
        assert(h.take(k + 1int).drop_last() =~= h.take(k as int));
        lemma_holdings_value_prefix_none(cash, h, prices, k + 1);
    } else {
        assert(h.take(k as int) =~= h);
    }
}

/// The relative change from `prev` to `curr`: `(curr - prev) / prev`.
pub open spec fn relative_change(prev: Dec, curr: Dec) -> Option<Dec> {
    match decimal_checked_sub(curr, prev) {
        Some(d) => decimal_checked_div(d, prev),
        None => None,
    }
}

/// The returns between consecutive values: the relative change where the earlier value is
/// positive, zero elsewhere; none for fewer than two values.
pub open spec fn step_returns(values: Seq<Dec>) -> Option<Seq<Dec>>
    decreases values.len(),
{
    if values.len() < 2 {
        Some(Seq::empty())
    } else {
        let n = values.len();
        match step_returns(values.drop_last()) {
            None => None,
            Some(r) => if values[n - 2].value() > 0 {
                match relative_change(values[n - 2], values[n - 1]) {
                    Some(x) => Some(r.push(x)),
                    None => None,
                }
            } else {
                Some(r.push(Dec::spec_zero()))
            },
        }
    }
}

/// The returns between consecutive values where the earlier value is positive (the others
/// skipped).
pub open spec fn positive_base_returns(values: Seq<Dec>) -> Option<Seq<Dec>>
    decreases values.len(),
{
    if values.len() < 2 {
        Some(Seq::empty())
    } else {
        let n = values.len();
        match positive_base_returns(values.drop_last()) {
            None => None,
            Some(r) => if values[n - 2].value() > 0 {
                match relative_change(values[n - 2], values[n - 1]) {
                    Some(x) => Some(r.push(x)),
                    None => None,
                }
            } else {
                Some(r)
            },
        }
    }
}

proof fn lemma_returns_prefix_none(values: Seq<Dec>, k: nat, skip: bool)
    requires
        2 <= k <= values.len(),
        if skip { positive_base_returns(values.take(k as int)) is None } else { step_returns(values.take(k as int)) is None },
    ensures
        if skip { positive_base_returns(values) is None } else { step_returns(values) is None },
    decreases values.len() - k,
{
    if k < values.len() {
        assert(values.take(k + 1int).drop_last() =~= values.take(k as int));
        lemma_returns_prefix_none(values, k + 1, skip);
    } else {
        assert(values.take(k as int) =~= values);
    }
}

/// The returns between consecutive values, or `None` where `Decimal` would panic; with `skip`,
/// the pairs whose earlier value is not positive are left out, else they give zero.
fn try_returns(values: &Vec<Dec>, skip: bool) -> (r: Option<Vec<Dec>>)
    ensures
        match r {
            Some(v) => (if skip { positive_base_returns(values@) } else { step_returns(values@) }) == Some(v@),
            None => (if skip { positive_base_returns(values@) } else { step_returns(values@) }) is None,
        },
{
    let mut out: Vec<Dec> = Vec::new();
    if values.len() < 2 {
        return Some(out);
    }
    proof {
        assert(values@.take(1) =~= seq![values@[0]]);
    }
    let mut i: usize = 1;
    while i < values.len()
        invariant
            1 <= i <= values@.len(),
            (if skip { positive_base_returns(values@.take(i as int)) } else { step_returns(values@.take(i as int)) }) == Some(out@),
        decreases values@.len() - i,
    {
        proof {
            let t = values@.take(i + 1int);
            assert(t.drop_last() =~= values@.take(i as int));
            assert(t[t.len() - 2] == values@[i - 1]);
            assert(t[t.len() - 1] == values@[i as int]);
        }
        let prev = values[i - 1];
        let curr = values[i];
        if prev.gt(&Dec::zero()) {
            let change = match curr.checked_sub(prev) {
                Some(d) => d.checked_div(prev),
                None => None,
            };
            match change {
                Some(x) => {
                    out.push(x);
                },
                None => {
                    proof {
                        lemma_returns_prefix_none(values@, (i + 1) as nat, skip);
                    }
                    return None;
                },
            }
        } else if !skip {
            out.push(Dec::zero());
        }
        i = i + 1;
    }
    proof {
        assert(values@.take(values@.len() as int) =~= values@);
    }
    Some(out)
}

/// The returns between consecutive values of an equity curve: the relative change where the
/// earlier value is positive, zero elsewhere; none for fewer than two values.
pub fn calculate_returns(equity_curve: &Vec<Dec>) -> (r: Vec<Dec>)
    requires
        step_returns(equity_curve@) is Some,
    ensures
        r@ == step_returns(equity_curve@)->0,
{
    match try_returns(equity_curve, false) {
        Some(v) => v,
        None => vstd::pervasive::unreached(),
    }
}

/// The returns between consecutive values of an equity curve where the earlier value is
/// positive (the others skipped), or `None` where `Decimal` would panic.
pub fn period_returns(equity: &Vec<Dec>) -> (r: Option<Vec<Dec>>)
    ensures
        match r {
            Some(v) => positive_base_returns(equity@) == Some(v@),
            None => positive_base_returns(equity@) is None,
        },
{
    try_returns(equity, true)
}

impl Portfolio {
    /// The returns of the equity curve, skipping the steps from a value that is not positive.
    pub fn equity_returns(&self) -> (r: Vec<Dec>)
        requires
            self@.wf(),
            equity_curve_spec(self@.initial_capital, self@.trades, self@.current_prices) is Some,
            positive_base_returns(equity_curve_spec(self@.initial_capital, self@.trades, self@.current_prices)->0) is Some,
        ensures
            r@ == positive_base_returns(equity_curve_spec(self@.initial_capital, self@.trades, self@.current_prices)->0)->0,
    {
        let curve = self.get_equity_curve();
        match try_returns(&curve, true) {
            Some(v) => v,
            None => vstd::pervasive::unreached(),
        }
    }
}

} // verus!
