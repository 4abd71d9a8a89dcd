//! Figures of realised trading results: win and loss counts, totals, extremes and streaks,
//! the rates and averages drawn from them, cumulative PnL curves, the longest drawdown and
//! the annualised return.
//!
//! Instants are UTC milliseconds since the epoch. Where a decimal step overflows (where
//! `Decimal`'s operators would panic), the functions answer `None`.
use crate::decimal::{abs_of, keeps_whole_bounds, lemma_units, units, decimal_checked_add, decimal_checked_div, decimal_checked_mul, decimal_checked_sub, max_mantissa, Dec};
use crate::types::{day_ms, valid_timestamp};
use vstd::prelude::*;

verus! {

/// What a pass over realised PnLs counts: wins (a positive PnL) and losses (the rest), their
/// totals (losses as magnitudes), the largest of each, the current streaks and the longest.
#[derive(Clone, Copy, Debug)]
pub struct PnlTally {
    pub winning_trades: i64,
    pub losing_trades: i64,
    pub total_win: Dec,
    pub total_loss: Dec,
    pub largest_win: Dec,
    pub largest_loss: Dec,
    pub consecutive_wins: i32,
    pub consecutive_losses: i32,
    pub max_consecutive_wins: i32,
    pub max_consecutive_losses: i32,
}

/// The tally before any trade.
pub open spec fn tally_start() -> PnlTally {
    PnlTally {
        winning_trades: 0,
        losing_trades: 0,
        total_win: Dec::spec_zero(),
        total_loss: Dec::spec_zero(),
        largest_win: Dec::spec_zero(),
        largest_loss: Dec::spec_zero(),
        consecutive_wins: 0,
        consecutive_losses: 0,
        max_consecutive_wins: 0,
        max_consecutive_losses: 0,
    }
}

/// The tally after one more trade: a positive PnL is a win, anything else a loss, counted by
/// its magnitude. `None` when a total overflows.
pub open spec fn tally_step(t: PnlTally, pnl: Dec) -> Option<PnlTally> {
    if pnl.value() > 0 {
        match decimal_checked_add(t.total_win, pnl) {
            Some(total) => {
                let streak = (t.consecutive_wins + 1) as i32;
                Some(
                    PnlTally {
                        winning_trades: (t.winning_trades + 1) as i64,
                        total_win: total,
                        consecutive_wins: streak,
                        consecutive_losses: 0,
                        largest_win: if pnl.value() > t.largest_win.value() {
                            pnl
                        } else {
                            t.largest_win
                        },
                        max_consecutive_wins: if streak > t.max_consecutive_wins {
                            streak
                        } else {
                            t.max_consecutive_wins
                        },
                        ..t
                    },
                )
            },
            None => None,
        }
    } else {
        let loss = abs_of(pnl);
        match decimal_checked_add(t.total_loss, loss) {
            Some(total) => {
                let streak = (t.consecutive_losses + 1) as i32;
                Some(
                    PnlTally {
                        losing_trades: (t.losing_trades + 1) as i64,
                        total_loss: total,
                        consecutive_losses: streak,
                        consecutive_wins: 0,
                        largest_loss: if loss.value() > t.largest_loss.value() {
                            loss
                        } else {
                            t.largest_loss
                        },
                        max_consecutive_losses: if streak > t.max_consecutive_losses {
                            streak
                        } else {
                            t.max_consecutive_losses
                        },
                        ..t
                    },
                )
            },
            None => None,
        }
    }
}

/// The tally of the PnLs in order, or `None` when a total overflows.
pub open spec fn tally_of(pnls: Seq<Dec>) -> Option<PnlTally>
    decreases pnls.len(),
{
    if pnls.len() == 0 {
        Some(tally_start())
    } else {
        match tally_of(pnls.drop_last()) {
            Some(t) => tally_step(t, pnls.last()),
            None => None,
        }
    }
}

/// Counters of a tally of `n` trades stay within `n`.
pub open spec fn tally_bounded(t: PnlTally, n: int) -> bool {
    &&& 0 <= t.winning_trades
    &&& 0 <= t.losing_trades
    &&& t.winning_trades + t.losing_trades == n
    &&& 0 <= t.consecutive_wins <= t.max_consecutive_wins <= n
    &&& 0 <= t.consecutive_losses <= t.max_consecutive_losses <= n
}

/// Every trade is counted once, as a win or as a loss, and no streak is longer than the
/// number of trades.
pub proof fn lemma_tally_bounded(pnls: Seq<Dec>)
    requires
        pnls.len() <= i32::MAX,
    ensures
        tally_of(pnls) matches Some(t) ==> tally_bounded(t, pnls.len() as int),
    decreases pnls.len(),
{
    if pnls.len() > 0 {
        lemma_tally_bounded(pnls.drop_last());
    }
}

/// Once the tally of a prefix fails, that of the whole does.
proof fn lemma_tally_none_extends(pnls: Seq<Dec>, k: nat)
    requires
        k < pnls.len(),
        tally_of(pnls.take((k + 1) as int)) is None,
    ensures
        tally_of(pnls) is None,
    decreases pnls.len() - k,
{
    if k + 1 < pnls.len() {
        assert(pnls.take((k + 2) as int).drop_last() =~= pnls.take((k + 1) as int));
        lemma_tally_none_extends(pnls, k + 1);
    } else {
        assert(pnls.take((k + 1) as int) =~= pnls);
    }
}

/// The tally of the trades' realised PnLs, in order; `None` when a total overflows.
pub fn tally_pnls(pnls: &Vec<Dec>) -> (r: Option<PnlTally>)
    requires
        pnls@.len() <= i32::MAX,
    ensures
        r == tally_of(pnls@),
{
    let zero = Dec::zero();
    let mut t = PnlTally {
        winning_trades: 0,
        losing_trades: 0,
        total_win: zero,
        total_loss: zero,
        largest_win: zero,
        largest_loss: zero,
        consecutive_wins: 0,
        consecutive_losses: 0,
        max_consecutive_wins: 0,
        max_consecutive_losses: 0,
    };
    let mut i: usize = 0;
    while i < pnls.len()
        invariant
            i <= pnls@.len(),
            pnls@.len() <= i32::MAX,
            tally_of(pnls@.take(i as int)) == Some(t),
            tally_bounded(t, i as int),
            zero.value() == 0,
        decreases pnls@.len() - i,
    {
        proof {
            assert(pnls@.take(i as int + 1).drop_last() =~= pnls@.take(i as int));
        }
        let pnl = pnls[i];
        if pnl.gt(&zero) {
            let total = match t.total_win.checked_add(pnl) {
                Some(v) => v,
                None => {
                    proof {
                        assert(pnls@.take(i as int + 1).last() == pnl);
                        assert(tally_of(pnls@.take(i as int + 1)) == tally_step(t, pnl));
                        lemma_tally_none_extends(pnls@, i as nat);
                    }
                    return None;
                },
            };
            let streak = t.consecutive_wins + 1;
            t = PnlTally {
                winning_trades: t.winning_trades + 1,
                total_win: total,
                consecutive_wins: streak,
                consecutive_losses: 0,
                largest_win: if pnl.gt(&t.largest_win) {
                    pnl
                } else {
                    t.largest_win
                },
                max_consecutive_wins: if streak > t.max_consecutive_wins {
                    streak
                } else {
                    t.max_consecutive_wins
                },
                ..t
            };
        } else {
            let loss = pnl.abs();
            let total = match t.total_loss.checked_add(loss) {
                Some(v) => v,
                None => {
                    proof {
                        assert(pnls@.take(i as int + 1).last() == pnl);
                        assert(tally_of(pnls@.take(i as int + 1)) == tally_step(t, pnl));
                        lemma_tally_none_extends(pnls@, i as nat);
                    }
                    return None;
                },
            };
            let streak = t.consecutive_losses + 1;
            t = PnlTally {
                losing_trades: t.losing_trades + 1,
                total_loss: total,
                consecutive_losses: streak,
                consecutive_wins: 0,
                largest_loss: if loss.gt(&t.largest_loss) {
                    loss
                } else {
                    t.largest_loss
                },
                max_consecutive_losses: if streak > t.max_consecutive_losses {
                    streak
                } else {
                    t.max_consecutive_losses
                },
                ..t
            };
        }
        i = i + 1;
    }
    proof {
        assert(pnls@.take(pnls@.len() as int) =~= pnls@);
    }
    Some(t)
}

/// The rates and averages drawn from a tally.
#[derive(Clone, Copy, Debug)]
pub struct PnlSummary {
    pub total_trades: i64,
    /// Wins over trades, in percent (zero for no trades).
    pub win_rate: Dec,
    /// The mean win (zero for no wins).
    pub avg_win: Dec,
    /// The mean loss magnitude (zero for no losses).
    pub avg_loss: Dec,
    /// Total win over total loss; the largest decimal when there are wins and no loss, zero
    /// when there is neither.
    pub profit_factor: Dec,
}

/// The largest decimal (`Decimal::MAX`).
pub open spec fn dec_max() -> Dec {
    Dec::spec_new(max_mantissa(), 0)
}

/// The count as a decimal.
pub open spec fn count_dec(n: int) -> Dec {
    Dec::spec_new(n, 0)
}

/// The average of a total over a count: zero for no count; `None` on overflow.
pub open spec fn mean_of(total: Dec, n: int) -> Option<Dec> {
    if n > 0 {
        decimal_checked_div(total, count_dec(n))
    } else {
        Some(Dec::spec_zero())
    }
}

/// The share of wins in percent: zero for no trades; `None` on overflow.
pub open spec fn win_rate_of(wins: int, total: int) -> Option<Dec> {
    if total > 0 {
        match decimal_checked_div(count_dec(wins), count_dec(total)) {
            Some(q) => decimal_checked_mul(q, count_dec(100)),
            None => None,
        }
    } else {
        Some(Dec::spec_zero())
    }
}

/// Total win over total loss, the largest decimal for wins without loss, zero otherwise.
pub open spec fn profit_factor_of(total_win: Dec, total_loss: Dec) -> Option<Dec> {
    if total_loss.value() > 0 {
        decimal_checked_div(total_win, total_loss)
    } else if total_win.value() > 0 {
        Some(dec_max())
    } else {
        Some(Dec::spec_zero())
    }
}

/// The summary of a tally, or `None` when a rate or average overflows.
pub open spec fn summary_of(t: PnlTally) -> Option<PnlSummary> {
    let total = t.winning_trades + t.losing_trades;
    match (
        win_rate_of(t.winning_trades as int, total),
        mean_of(t.total_win, t.winning_trades as int),
        mean_of(t.total_loss, t.losing_trades as int),
        profit_factor_of(t.total_win, t.total_loss),
    ) {
        (Some(w), Some(aw), Some(al), Some(pf)) => Some(
            PnlSummary { total_trades: total as i64, win_rate: w, avg_win: aw, avg_loss: al, profit_factor: pf },
        ),
        _ => None,
    }
}

/// Whether `avg` is the mean of `total` over `n` items as far as whole numbers tell: at least
/// every whole number `m` with `m * n <= total`, and at most every one with `total <= m * n`.
pub open spec fn brackets_mean(avg: Dec, total: Dec, n: int) -> bool {
    forall|m: int|
        #![trigger units(m)]
        (units(m) * n <= total.value() ==> units(m) <= avg.value()) && (total.value() <= units(m) * n ==> avg.value()
            <= units(m))
}

/// Where a win rate stands for `wins` out of `total` trades: zero for no wins, 100 when every
/// trade is a win, and between 0 and 100 always.
pub open spec fn win_rate_in_line(rate: Dec, wins: int, total: int) -> bool {
    &&& 0 <= rate.value() <= units(100)
    &&& wins == 0 ==> rate.value() == 0
    &&& 0 < total && wins == total ==> rate.value() == units(100)
}

/// The rate `q * 100`, `q = wins / total`, stands where a win rate should.
proof fn lemma_win_rate_steps(wins: int, total: int, q: Dec, x: Dec)
    requires
        0 <= wins <= total,
        0 < total,
        keeps_whole_bounds(wins * units(1) * units(1), total * units(1), q),
        keeps_whole_bounds(q.value() * units(100), units(1), x),
    ensures
        win_rate_in_line(x, wins, total),
{
    lemma_units(0);
    lemma_units(100);
    let u = units(1);
    let num = wins * u * u;
    let den = total * u;
    assert(num >= units(0) * den) by (nonlinear_arith)
        requires
            wins >= 0,
            u > 0,
            num == wins * u * u,
            units(0) == 0,
    ;
    assert(num <= units(1) * den) by (nonlinear_arith)
        requires
            wins <= total,
            u > 0,
            num == wins * u * u,
            den == total * u,
            units(1) == u,
    ;
    let qv = q.value();
    assert(0 <= qv <= u);
    assert(qv * units(100) >= units(0) * u) by (nonlinear_arith)
        requires
            qv >= 0,
            u > 0,
            units(100) == 100 * u,
            units(0) == 0,
    ;
    assert(qv * units(100) <= units(100) * u) by (nonlinear_arith)
        requires
            qv <= u,
            u > 0,
            units(100) == 100 * u,
    ;
    if wins == 0 {
        assert(num <= units(0) * den) by (nonlinear_arith)
            requires
                wins == 0,
                num == wins * u * u,
                units(0) == 0,
        ;
        assert(qv <= 0);
        assert(qv * units(100) <= units(0) * u) by (nonlinear_arith)
            requires
                qv == 0,
                units(0) == 0,
        ;
    }
    if wins == total {
        assert(num >= units(1) * den) by (nonlinear_arith)
            requires
                wins == total,
                num == wins * u * u,
                den == total * u,
                units(1) == u,
        ;
        assert(qv == u);
        assert(qv * units(100) >= units(100) * u) by (nonlinear_arith)
            requires
                qv == u,
        ;
    }
}

/// The average of a total over a count.
fn mean(total: Dec, n: i64) -> (r: Option<Dec>)
    requires
        0 <= n <= i32::MAX,
    ensures
        r == mean_of(total, n as int),
        n > 0 && r is Some ==> brackets_mean(r->0, total, n as int),
{
    if n > 0 {
        let d = Dec::new(n, 0);
        let r = total.checked_div(d);
        proof {
            lemma_units(1);
            let u = units(1);
            assert(d.value() == n * u);
            assert(n * u > 0) by (nonlinear_arith)
                requires
                    n > 0,
                    u > 0,
            ;
            if r is Some {
                let z = r->0;
                assert(keeps_whole_bounds(total.value() * u, n * u, z));
                assert forall|m: int| #![trigger units(m)]
                    (units(m) * n <= total.value() ==> units(m) <= z.value()) && (total.value() <= units(m) * n
                        ==> z.value() <= units(m)) by {
                    let um = units(m);
                    let t = total.value();
                    assert(um * (n * u) == (um * n) * u) by (nonlinear_arith);
                    if um * n <= t {
                        assert((um * n) * u <= t * u) by (nonlinear_arith)
                            requires
                                um * n <= t,
                                u > 0,
                        ;
                    }
                    if t <= um * n {
                        assert(t * u <= (um * n) * u) by (nonlinear_arith)
                            requires
                                t <= um * n,
                                u > 0,
                        ;
                    }
                }
            }
        }
        r
    } else {
        Some(Dec::zero())
    }
}

/// The rates and averages of a tally: win rate, mean win and loss, profit factor.
pub fn summarize(t: &PnlTally) -> (r: Option<PnlSummary>)
    requires
        tally_bounded(*t, t.winning_trades + t.losing_trades),
        t.winning_trades + t.losing_trades <= i32::MAX,
    ensures
        r == summary_of(*t),
        r matches Some(s) ==> (t.losing_trades > 0 ==> brackets_mean(s.avg_loss, t.total_loss, t.losing_trades as int)),
        r matches Some(s) ==> win_rate_in_line(s.win_rate, t.winning_trades as int, t.winning_trades + t.losing_trades),
        r matches Some(s) ==> (t.winning_trades > 0 ==> brackets_mean(s.avg_win, t.total_win, t.winning_trades as int)),
{
    let total = t.winning_trades + t.losing_trades;
    let win_rate = if total > 0 {
        let w = Dec::new(t.winning_trades, 0);
        let n = Dec::new(total, 0);
        let hundred = Dec::from_int(100);
        proof {
            lemma_units(1);
            lemma_units(100);
            let u = units(1);
            assert(w.value() == t.winning_trades * u);
            assert(n.value() == total * u);
            assert(hundred.value() == units(100));
            assert(total * u > 0) by (nonlinear_arith)
                requires
                    total > 0,
                    u > 0,
            ;
            assert(w.value() * u == t.winning_trades * u * u);
        }
        let q = w.checked_div(n);
        match q {
            Some(q) => {
                let x = q.checked_mul(hundred);
                proof {
                    if x is Some {
                        lemma_win_rate_steps(t.winning_trades as int, total as int, q, x->0);
                    }
                }
                x
            },
            None => None,
        }
    } else {
        proof {
            lemma_units(100);
            lemma_units(1);
        }
        Some(Dec::zero())
    };
    let avg_win = mean(t.total_win, t.winning_trades);
    let avg_loss = mean(t.total_loss, t.losing_trades);
    let zero = Dec::zero();
    let profit_factor = if t.total_loss.gt(&zero) {
        t.total_win.checked_div(t.total_loss)
    } else if t.total_win.gt(&zero) {
        Some(Dec::from_i128_with_scale(79228162514264337593543950335, 0))
    } else {
        Some(zero)
    };
    match (win_rate, avg_win, avg_loss, profit_factor) {
        (Some(w), Some(aw), Some(al), Some(pf)) => Some(
            PnlSummary { total_trades: total, win_rate: w, avg_win: aw, avg_loss: al, profit_factor: pf },
        ),
        _ => None,
    }
}

/// The running sums of the values, or `None` when a sum overflows.
pub open spec fn running_sums(values: Seq<Dec>) -> Option<Seq<Dec>>
    decreases values.len(),
{
    if values.len() == 0 {
        Some(Seq::empty())
    } else {
        match running_sums(values.drop_last()) {
            Some(prev) => {
                let last = if prev.len() == 0 {
                    Dec::spec_zero()
                } else {
                    prev.last()
                };
                match decimal_checked_add(last, values.last()) {
                    Some(v) => Some(prev.push(v)),
                    None => None,
                }
            },
            None => None,
        }
    }
}

/// Running sums have one entry per value.
proof fn lemma_running_sums_len(values: Seq<Dec>)
    ensures
        running_sums(values) matches Some(s) ==> s.len() == values.len(),
    decreases values.len(),
{
    if values.len() > 0 {
        lemma_running_sums_len(values.drop_last());
    }
}

/// The cumulative PnL after each trade, starting from zero.
pub fn cumulative_pnl(pnls: &Vec<Dec>) -> (r: Option<Vec<Dec>>)
    ensures
        r matches Some(v) ==> running_sums(pnls@) == Some(v@),
        r is None <==> running_sums(pnls@) is None,
{
    let mut out: Vec<Dec> = Vec::new();
    let mut acc = Dec::zero();
    let mut i: usize = 0;
    while i < pnls.len()
        invariant
            i <= pnls@.len(),
            running_sums(pnls@.take(i as int)) == Some(out@),
            acc == (if out@.len() == 0 { Dec::spec_zero() } else { out@.last() }),
        decreases pnls@.len() - i,
    {
        proof {
            assert(pnls@.take(i as int + 1).drop_last() =~= pnls@.take(i as int));
        }
        match acc.checked_add(pnls[i]) {
            Some(v) => {
                acc = v;
                out.push(v);
            },
            None => {
                proof {
                    lemma_running_sums_none_extends(pnls@, i as nat);
                }
                return None;
            },
        }
        i = i + 1;
    }
    proof {
        assert(pnls@.take(pnls@.len() as int) =~= pnls@);
    }
    Some(out)
}

/// Once the running sums of a prefix fail, those of the whole do.
proof fn lemma_running_sums_none_extends(values: Seq<Dec>, k: nat)
    requires
        k < values.len(),
        running_sums(values.take((k + 1) as int)) is None,
    ensures
        running_sums(values) is None,
    decreases values.len() - k,
{
    if k + 1 < values.len() {
        assert(values.take((k + 2) as int).drop_last() =~= values.take((k + 1) as int));
        lemma_running_sums_none_extends(values, k + 1);
    } else {
        assert(values.take((k + 1) as int) =~= values);
    }
}

/// The net PnL of each period, its PnL less its commission (none counted as zero).
pub open spec fn net_of(row: (Dec, Option<Dec>)) -> Option<Dec> {
    match row.1 {
        Some(c) => decimal_checked_sub(row.0, c),
        None => decimal_checked_sub(row.0, Dec::spec_zero()),
    }
}

/// The net PnL of each period, or `None` when one overflows.
pub open spec fn nets_of(rows: Seq<(Dec, Option<Dec>)>) -> Option<Seq<Dec>>
    decreases rows.len(),
{
    if rows.len() == 0 {
        Some(Seq::empty())
    } else {
        match (nets_of(rows.drop_last()), net_of(rows.last())) {
            (Some(prev), Some(v)) => Some(prev.push(v)),
            _ => None,
        }
    }
}

/// The net PnL of each period (PnL less commission).
pub fn net_pnls(rows: &Vec<(Dec, Option<Dec>)>) -> (r: Option<Vec<Dec>>)
    ensures
        r matches Some(v) ==> nets_of(rows@) == Some(v@),
        r is None <==> nets_of(rows@) is None,
{
    let mut out: Vec<Dec> = Vec::new();
    let mut i: usize = 0;
    while i < rows.len()
        invariant
            i <= rows@.len(),
            nets_of(rows@.take(i as int)) == Some(out@),
        decreases rows@.len() - i,
    {
        proof {
            assert(rows@.take(i as int + 1).drop_last() =~= rows@.take(i as int));
        }
        let (pnl, commission) = rows[i];
        let c = match commission {
            Some(c) => c,
            None => Dec::zero(),
        };
        match pnl.checked_sub(c) {
            Some(v) => out.push(v),
            None => {
                proof {
                    lemma_nets_none_extends(rows@, i as nat);
                }
                return None;
            },
        }
        i = i + 1;
    }
    proof {
        assert(rows@.take(rows@.len() as int) =~= rows@);
    }
    Some(out)
}

/// Once the nets of a prefix fail, those of the whole do.
proof fn lemma_nets_none_extends(rows: Seq<(Dec, Option<Dec>)>, k: nat)
    requires
        k < rows.len(),
        nets_of(rows.take((k + 1) as int)) is None,
    ensures
        nets_of(rows) is None,
    decreases rows.len() - k,
{
    if k + 1 < rows.len() {
        assert(rows.take((k + 2) as int).drop_last() =~= rows.take((k + 1) as int));
        lemma_nets_none_extends(rows, k + 1);
    } else {
        assert(rows.take((k + 1) as int) =~= rows);
    }
}

/// The cumulative net PnL of an equity curve: after each period, the sum of the periods'
/// PnLs less their commissions.
pub fn cumulative_net_pnl(rows: &Vec<(Dec, Option<Dec>)>) -> (r: Option<Vec<Dec>>)
    ensures
        r matches Some(v) ==> (nets_of(rows@) matches Some(n) && running_sums(n) == Some(v@)),
        r is None <==> (nets_of(rows@) is None || running_sums(nets_of(rows@)->0) is None),
{
    let nets = net_pnls(rows)?;
    cumulative_pnl(&nets)
}

/// The state of the walk for the longest drawdown: the longest found so far, the peak and
/// when it was reached, whether the curve is below its peak, and since when.
pub struct DrawdownWalk {
    pub longest: i64,
    pub peak: Dec,
    pub peak_time: i64,
    pub in_drawdown: bool,
    pub start: i64,
}

/// The walk after one more point: at or above the peak, a drawdown in progress ends (its
/// length counts) and the point is the new peak; below it, a drawdown starts at the peak's
/// time if none is in progress.
pub open spec fn drawdown_step(s: DrawdownWalk, time: i64, equity: Dec) -> DrawdownWalk {
    if equity.value() >= s.peak.value() {
        let longest = if s.in_drawdown && time - s.start > s.longest {
            (time - s.start) as i64
        } else {
            s.longest
        };
        DrawdownWalk { longest, peak: equity, peak_time: time, in_drawdown: false, start: s.start }
    } else if !s.in_drawdown {
        DrawdownWalk { in_drawdown: true, start: s.peak_time, ..s }
    } else {
        s
    }
}

/// The walk over the points in order, from `init`.
pub open spec fn drawdown_walk(init: DrawdownWalk, points: Seq<(i64, Dec)>) -> DrawdownWalk
    decreases points.len(),
{
    if points.len() == 0 {
        init
    } else {
        let s = drawdown_walk(init, points.drop_last());
        drawdown_step(s, points.last().0, points.last().1)
    }
}

/// Whether every point's instant is one the library handles.
pub open spec fn points_valid(points: Seq<(i64, Dec)>) -> bool {
    forall|i: int| 0 <= i < points.len() ==> valid_timestamp((#[trigger] points[i]).0 as int)
}

/// The lowest decimal (`Decimal::MIN`), below which no decimal lies.
pub open spec fn dec_min() -> Dec {
    Dec::spec_new(-max_mantissa(), 0)
}

/// The walk's starting state: no drawdown, the lowest peak, at the first point's time.
pub open spec fn walk_start(first_time: i64) -> DrawdownWalk {
    DrawdownWalk { longest: 0, peak: dec_min(), peak_time: first_time, in_drawdown: false, start: first_time }
}

/// The longest drawdown, in whole days (rounded toward zero), of a PnL curve given as (time,
/// cumulative PnL) points in order: the longest time from a peak until the curve is back at
/// or above it; one still open at the end runs until `now`. Zero for fewer than two points.
pub open spec fn longest_drawdown_days(points: Seq<(i64, Dec)>, now: i64) -> int {
    if points.len() < 2 {
        0
    } else {
        let s = drawdown_walk(walk_start(points[0].0), points);
        let longest = if s.in_drawdown && now - s.start > s.longest {
            now - s.start
        } else {
            s.longest as int
        };
        longest / day_ms()
    }
}

/// Facts the walk keeps: its times are valid instants and its longest span is not negative.
pub open spec fn walk_ok(s: DrawdownWalk) -> bool {
    &&& valid_timestamp(s.peak_time as int)
    &&& valid_timestamp(s.start as int)
    &&& 0 <= s.longest <= 16_000_000_000_000_000
}

/// The walk keeps its facts over valid points.
proof fn lemma_walk_ok(init: DrawdownWalk, points: Seq<(i64, Dec)>)
    requires
        walk_ok(init),
        points_valid(points),
    ensures
        walk_ok(drawdown_walk(init, points)),
    decreases points.len(),
{
    if points.len() > 0 {
        assert(points_valid(points.drop_last())) by {
            assert forall|i: int| 0 <= i < points.drop_last().len() implies valid_timestamp((#[trigger] points.drop_last()[i]).0 as int) by {
                assert(points.drop_last()[i] == points[i]);
            }
        }
        lemma_walk_ok(init, points.drop_last());
        assert(valid_timestamp(points[points.len() - 1].0 as int));
    }
}

/// The longest drawdown of the curve, in whole days; one still open at the end runs until
/// `now`.
pub fn max_drawdown_duration_days(points: &Vec<(i64, Dec)>, now: i64) -> (r: i64)
    requires
        points_valid(points@),
        valid_timestamp(now as int),
    ensures
        r == longest_drawdown_days(points@, now),
        r >= 0,
{
    if points.len() < 2 {
        return 0;
    }
    let first = points[0].0;
    let mut s = DrawdownWalk {
        longest: 0,
        peak: Dec::from_i128_with_scale(-79228162514264337593543950335, 0),
        peak_time: first,
        in_drawdown: false,
        start: first,
    };
    let ghost init = s;
    assert(init == walk_start(points@[0].0));
    let mut i: usize = 0;
    while i < points.len()
        invariant
            i <= points@.len(),
            points@.len() >= 2,
            points_valid(points@),
            init == walk_start(points@[0].0),
            walk_ok(init),
            s == drawdown_walk(init, points@.take(i as int)),
            walk_ok(s),
        decreases points@.len() - i,
    {
        proof {
            assert(points@.take(i as int + 1).drop_last() =~= points@.take(i as int));
            assert(valid_timestamp(points@[i as int].0 as int));
        }
        let (time, equity) = points[i];
        if equity.ge(&s.peak) {
            let mut longest = s.longest;
            if s.in_drawdown && time - s.start > s.longest {
                longest = time - s.start;
            }
            s = DrawdownWalk { longest, peak: equity, peak_time: time, in_drawdown: false, start: s.start };
        } else if !s.in_drawdown {
            s = DrawdownWalk { in_drawdown: true, start: s.peak_time, ..s };
        }
        proof {
            assert(points@.take(i as int + 1).last() == points@[i as int]);
        }
        i = i + 1;
    }
    proof {
        assert(points@.take(points@.len() as int) =~= points@);
    }
    let mut longest = s.longest;
    if s.in_drawdown && now - s.start > s.longest {
        longest = now - s.start;
    }
    longest / 86_400_000
}

/// The cumulative PnL over `days` days scaled to a year (`pnl * 365 / days`); zero for no
/// days; `None` on overflow.
pub open spec fn annual_return_of(cum_pnl: Dec, days: int) -> Option<Dec> {
    if days > 0 {
        match decimal_checked_mul(cum_pnl, count_dec(365)) {
            Some(p) => decimal_checked_div(p, count_dec(days)),
            None => None,
        }
    } else {
        Some(Dec::spec_zero())
    }
}

/// The cumulative PnL scaled to a year.
pub fn annual_return(cum_pnl: Dec, days: i32) -> (r: Option<Dec>)
    ensures
        r == annual_return_of(cum_pnl, days as int),
{
    if days > 0 {
        let p = cum_pnl.checked_mul(Dec::from_int(365))?;
        p.checked_div(Dec::new(days as i64, 0))
    } else {
        Some(Dec::zero())
    }
}

/// The mean commission per trade: the total (none counted as zero) over the count, zero for no
/// trades; `None` on overflow.
pub fn average_commission(total: Option<Dec>, trade_count: i64) -> (r: Option<Dec>)
    ensures
        r == mean_of(
            match total {
                Some(t) => t,
                None => Dec::spec_zero(),
            },
            trade_count as int,
        ),
{
    let t = match total {
        Some(t) => t,
        None => Dec::zero(),
    };
    if trade_count > 0 {
        t.checked_div(Dec::new(trade_count, 0))
    } else {
        Some(Dec::zero())
    }
}

/// The figures of a performance report computed from the trades' realised PnLs and times.
pub struct PerformanceFigures {
    pub tally: PnlTally,
    pub summary: PnlSummary,
    /// The cumulative PnL after each trade.
    pub equity_curve: Vec<Dec>,
    /// The sum of the PnLs.
    pub total_pnl: Dec,
    pub max_drawdown_duration_days: i64,
    /// The total PnL scaled to a year over `days`.
    pub annual_return: Dec,
}

/// The realised PnLs of the rows.
pub open spec fn pnls_of(rows: Seq<(Dec, i64)>) -> Seq<Dec> {
    rows.map_values(|r: (Dec, i64)| r.0)
}

/// The (time, cumulative PnL) points of the rows, given their running sums.
pub open spec fn curve_points(rows: Seq<(Dec, i64)>, sums: Seq<Dec>) -> Seq<(i64, Dec)> {
    Seq::new(rows.len(), |i: int| (rows[i].1, sums[i]))
}

/// The last running sum, zero for none.
pub open spec fn last_or_zero(sums: Seq<Dec>) -> Dec {
    if sums.len() == 0 {
        Dec::spec_zero()
    } else {
        sums.last()
    }
}

/// Whether the report's figures are those of the rows: the tally and summary of the PnLs,
/// their running sums as the curve, its last value as the total, the longest drawdown of the
/// curve at `now` and the total scaled to a year over `days`.
pub open spec fn figures_are(f: PerformanceFigures, rows: Seq<(Dec, i64)>, days: i32, now: i64) -> bool {
    &&& tally_of(pnls_of(rows)) == Some(f.tally)
    &&& summary_of(f.tally) == Some(f.summary)
    &&& running_sums(pnls_of(rows)) == Some(f.equity_curve@)
    &&& f.total_pnl == last_or_zero(f.equity_curve@)
    &&& f.max_drawdown_duration_days == longest_drawdown_days(curve_points(rows, f.equity_curve@), now)
    &&& annual_return_of(f.total_pnl, days as int) == Some(f.annual_return)
}

/// Whether every row's time is one the library handles.
pub open spec fn rows_valid(rows: Seq<(Dec, i64)>) -> bool {
    forall|i: int| 0 <= i < rows.len() ==> valid_timestamp((#[trigger] rows[i]).1 as int)
}

/// The performance figures of the trades, given as (realised PnL, trade time) in time order;
/// `None` when a total, rate or average overflows.
pub fn performance_figures(rows: &Vec<(Dec, i64)>, days: i32, now: i64) -> (r: Option<PerformanceFigures>)
    requires
        rows@.len() <= i32::MAX,
        rows_valid(rows@),
        valid_timestamp(now as int),
    ensures
        r matches Some(f) ==> figures_are(f, rows@, days, now),
        r is None <==> ({
            ||| tally_of(pnls_of(rows@)) is None
            ||| summary_of(tally_of(pnls_of(rows@))->0) is None
            ||| running_sums(pnls_of(rows@)) is None
            ||| annual_return_of(last_or_zero(running_sums(pnls_of(rows@))->0), days as int) is None
        }),
{
    let mut pnls: Vec<Dec> = Vec::new();
    let mut i: usize = 0;
    while i < rows.len()
        invariant
            i <= rows@.len(),
            pnls@ == pnls_of(rows@).take(i as int),
        decreases rows@.len() - i,
    {
        pnls.push(rows[i].0);
        proof {
            assert(pnls@ =~= pnls_of(rows@).take(i as int + 1));
        }
        i = i + 1;
    }
    proof {
        assert(pnls@ =~= pnls_of(rows@));
    }
    let tally = tally_pnls(&pnls)?;
    proof {
        lemma_tally_bounded(pnls@);
    }
    let summary = summarize(&tally)?;
    let curve = cumulative_pnl(&pnls)?;
    proof {
        lemma_running_sums_len(pnls@);
    }
    let total = if curve.len() == 0 {
        Dec::zero()
    } else {
        curve[curve.len() - 1]
    };
    let mut points: Vec<(i64, Dec)> = Vec::new();
    let mut j: usize = 0;
    while j < rows.len()
        invariant
            j <= rows@.len(),
            curve@.len() == rows@.len(),
            rows_valid(rows@),
            points@ == curve_points(rows@, curve@).take(j as int),
        decreases rows@.len() - j,
    {
        points.push((rows[j].1, curve[j]));
        proof {
            assert(points@ =~= curve_points(rows@, curve@).take(j as int + 1));
        }
        j = j + 1;
    }
    proof {
        assert(points@ =~= curve_points(rows@, curve@));
        assert forall|k: int| 0 <= k < points@.len() implies valid_timestamp((#[trigger] points@[k]).0 as int) by {
            assert(points@[k].0 == rows@[k].1);
        }
    }
    let longest = max_drawdown_duration_days(&points, now);
    let annual = annual_return(total, days)?;
    Some(PerformanceFigures {
        tally,
        summary,
        equity_curve: curve,
        total_pnl: total,
        max_drawdown_duration_days: longest,
        annual_return: annual,
    })
}

} // verus!
