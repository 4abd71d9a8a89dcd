//! The rules of the market data store: what a tick must hold to be stored, how stored text is
//! read back, which tables and filters a query uses, how many rows it may return, and how
//! bars are built from stored ticks.
//!
//! Instants are UTC milliseconds since the epoch.
use crate::decimal::{decimal_checked_div, decimal_checked_mul, decimal_checked_sub, seq_sum, Dec};
use crate::text::{str_eq, to_uppercase, unicode_upper};
use crate::types::{
    hour_ms, running_high, running_low, tick_prices, tick_quantities, valid_timestamp, OHLCData, TickData,
    TickQuery, Timeframe, TradeSide,
};
use vstd::prelude::*;
use vstd::string::StringExecFns;

verus! {

/// Why a store operation failed. Errors of the database, of JSON and of decimal conversion
/// are carried as their messages.
#[derive(Debug, Clone)]
pub enum DataError {
    Database(String),
    InvalidFormat(String),
    NotFound(String),
    Validation(String),
    Serialization(String),
    DecimalConversion(String),
    Cache(String),
    Config(String),
}

/// The most rows a query returns when no limit is given.
pub const DEFAULT_QUERY_LIMIT: u32 = 1000;

/// The most rows a query may return.
pub const MAX_QUERY_LIMIT: u32 = 10000;

/// The most rows written by one insert statement.
pub const MAX_BATCH_SIZE: usize = 1000;

/// Whether the error is a validation error with exactly the message.
pub open spec fn is_validation(e: DataError, msg: Seq<char>) -> bool {
    e matches DataError::Validation(m) && m@ == msg
}

/// Checks that a tick can be stored: a symbol, a positive price, a positive quantity and a
/// trade id, tested in that order; the first that fails names the error.
pub fn validate_tick_data(tick: &TickData) -> (r: Result<(), DataError>)
    ensures
        tick.symbol@.len() == 0 ==> (r matches Err(e) && is_validation(e, "Symbol cannot be empty"@)),
        tick.symbol@.len() > 0 && tick.price.value() <= 0 ==> (r matches Err(e) && is_validation(
            e,
            "Price must be positive"@,
        )),
        tick.symbol@.len() > 0 && tick.price.value() > 0 && tick.quantity.value() <= 0 ==> (r matches Err(e)
            && is_validation(e, "Quantity must be positive"@)),
        tick.symbol@.len() > 0 && tick.price.value() > 0 && tick.quantity.value() > 0
            && tick.trade_id@.len() == 0 ==> (r matches Err(e) && is_validation(e, "Trade ID cannot be empty"@)),
        r is Ok <==> (tick.symbol@.len() > 0 && tick.price.value() > 0 && tick.quantity.value() > 0
            && tick.trade_id@.len() > 0),
{
    let zero = Dec::zero();
    proof {
        reveal_strlit("");
    }
    if str_eq(tick.symbol.as_str(), "") {
        return Err(DataError::Validation(String::from_str("Symbol cannot be empty")));
    }
    assert(tick.symbol@.len() > 0) by {
        if tick.symbol@.len() == 0 {
            assert(tick.symbol@ =~= ""@);
        }
    }
    if tick.price.le(&zero) {
        return Err(DataError::Validation(String::from_str("Price must be positive")));
    }
    if tick.quantity.le(&zero) {
        return Err(DataError::Validation(String::from_str("Quantity must be positive")));
    }
    if str_eq(tick.trade_id.as_str(), "") {
        return Err(DataError::Validation(String::from_str("Trade ID cannot be empty")));
    }
    assert(tick.trade_id@.len() > 0) by {
        if tick.trade_id@.len() == 0 {
            assert(tick.trade_id@ =~= ""@);
        }
    }
    Ok(())
}

/// The side stored as `text`, read without regard to case: "BUY" or "SELL" once upper-cased.
pub open spec fn side_from_text(text: Seq<char>) -> Option<TradeSide> {
    if unicode_upper(text) == "BUY"@ {
        Some(TradeSide::Buy)
    } else if unicode_upper(text) == "SELL"@ {
        Some(TradeSide::Sell)
    } else {
        None
    }
}

/// Reads a stored trade side; anything else is an invalid format, "Invalid trade side: ..."
/// with the text.
pub fn parse_trade_side(side_str: &str) -> (r: Result<TradeSide, DataError>)
    ensures
        side_from_text(side_str@) matches Some(s) ==> r == Ok::<TradeSide, DataError>(s),
        side_from_text(side_str@) is None ==> (r matches Err(DataError::InvalidFormat(m)) && m@
            == "Invalid trade side: "@ + side_str@),
{
    let upper = to_uppercase(side_str);
    if str_eq(upper.as_str(), "BUY") {
        Ok(TradeSide::Buy)
    } else if str_eq(upper.as_str(), "SELL") {
        Ok(TradeSide::Sell)
    } else {
        let mut msg = String::from_str("Invalid trade side: ");
        msg.append(side_str);
        Err(DataError::InvalidFormat(msg))
    }
}

/// Whether a query asks for recent ticks at `now` (and may be answered from the cache): it
/// has no start, or its start is at most an hour before `now`.
pub open spec fn recent_at(query: TickQuery, now: int) -> bool {
    match query.start_time {
        Some(start) => now - start <= hour_ms(),
        None => true,
    }
}

/// Whether the query asks for recent ticks at `now`.
pub fn is_recent_at(query: &TickQuery, now: i64) -> (r: bool)
    ensures
        r == recent_at(*query, now as int),
{
    match query.start_time {
        Some(start) => (now as i128 - start as i128) <= 3_600_000,
        None => true,
    }
}

/// Whether the query asks for recent ticks, by the clock: a query without a start always does.
pub fn is_recent_query(query: &TickQuery) -> (r: bool)
    ensures
        query.start_time is None ==> r,
        exists|now: i64| r == recent_at(*query, now as int),
{
    let now = crate::portfolio::now_millis();
    let r = is_recent_at(query, now);
    assert(r == recent_at(*query, now as int));
    r
}

/// The hours of one bar used to size a query: an hour for bars up to an hour long, else the
/// bar's length in hours.
pub open spec fn base_hours(timeframe: Timeframe) -> int {
    match timeframe {
        Timeframe::OneMinute => 1,
        Timeframe::FiveMinutes => 1,
        Timeframe::FifteenMinutes => 1,
        Timeframe::ThirtyMinutes => 1,
        Timeframe::OneHour => 1,
        Timeframe::TwoHour => 2,
        Timeframe::FourHour => 4,
        Timeframe::OneDay => 24,
        Timeframe::ThreeDay => 72,
        Timeframe::OneWeek => 168,
    }
}

/// The hours of history needed for `candle_count` bars: their hours with 20% more for gaps,
/// rounded up.
pub open spec fn required_hours(timeframe: Timeframe, candle_count: int) -> int {
    (6 * base_hours(timeframe) * candle_count + 4) / 5
}

/// The hours of history needed for `candle_count` bars of the timeframe, with 20% more for
/// gaps, rounded up.
pub fn calculate_required_duration_hours(timeframe: Timeframe, candle_count: u32) -> (r: i64)
    ensures
        r == required_hours(timeframe, candle_count as int),
{
    let base: i64 = match timeframe {
        Timeframe::OneMinute => 1,
        Timeframe::FiveMinutes => 1,
        Timeframe::FifteenMinutes => 1,
        Timeframe::ThirtyMinutes => 1,
        Timeframe::OneHour => 1,
        Timeframe::TwoHour => 2,
        Timeframe::FourHour => 4,
        Timeframe::OneDay => 24,
        Timeframe::ThreeDay => 72,
        Timeframe::OneWeek => 168,
    };
    let count: i64 = candle_count as i64;
    assert(0 <= base * count <= 168 * 4_294_967_295) by (nonlinear_arith)
        requires
            1 <= base <= 168,
            0 <= count <= 4_294_967_295,
    ;
    assert(base == base_hours(timeframe));
    assert(6 * base_hours(timeframe) * (count as int) == 6 * (base * count)) by (nonlinear_arith)
        requires
            base == base_hours(timeframe),
    ;
    (6 * (base * count) + 4) / 5
}

/// The table of bars for a timeframe text, for the timeframes stored above one minute.
pub open spec fn high_tf_table(timeframe: Seq<char>) -> Option<Seq<char>> {
    if timeframe == "5m"@ {
        Some("kline_5m"@)
    } else if timeframe == "15m"@ {
        Some("kline_15m"@)
    } else if timeframe == "30m"@ {
        Some("kline_30m"@)
    } else if timeframe == "1h"@ {
        Some("kline_1h"@)
    } else if timeframe == "2h"@ {
        Some("kline_2h"@)
    } else if timeframe == "4h"@ {
        Some("kline_4h"@)
    } else if timeframe == "1d"@ {
        Some("kline_1d"@)
    } else if timeframe == "3d"@ {
        Some("kline_3d"@)
    } else if timeframe == "1w"@ {
        Some("kline_1w"@)
    } else {
        None
    }
}

/// The message for a timeframe that has no table of its own.
pub open spec fn unsupported_tf_text(timeframe: Seq<char>) -> Seq<char> {
    "Unsupported high timeframe: "@ + timeframe + ". Supported: 5m, 15m, 30m, 1h, 2h, 4h, 1d, 3d, 1w"@
}

/// The table of bars for the timeframe text ("5m", "15m", "30m", "1h", "2h", "4h", "1d", "3d"
/// or "1w"); any other text is a validation error.
pub fn get_high_tf_table_name(timeframe: &str) -> (r: Result<String, DataError>)
    ensures
        high_tf_table(timeframe@) matches Some(t) ==> (r matches Ok(s) && s@ == t),
        high_tf_table(timeframe@) is None ==> (r matches Err(e) && is_validation(
            e,
            unsupported_tf_text(timeframe@),
        )),
{
    proof {
        reveal_strlit("5m");
        reveal_strlit("15m");
        reveal_strlit("30m");
        reveal_strlit("1h");
        reveal_strlit("2h");
        reveal_strlit("4h");
        reveal_strlit("1d");
        reveal_strlit("3d");
        reveal_strlit("1w");
    }
    if str_eq(timeframe, "5m") {
        Ok(String::from_str("kline_5m"))
    } else if str_eq(timeframe, "15m") {
        Ok(String::from_str("kline_15m"))
    } else if str_eq(timeframe, "30m") {
        Ok(String::from_str("kline_30m"))
    } else if str_eq(timeframe, "1h") {
        Ok(String::from_str("kline_1h"))
    } else if str_eq(timeframe, "2h") {
        Ok(String::from_str("kline_2h"))
    } else if str_eq(timeframe, "4h") {
        Ok(String::from_str("kline_4h"))
    } else if str_eq(timeframe, "1d") {
        Ok(String::from_str("kline_1d"))
    } else if str_eq(timeframe, "3d") {
        Ok(String::from_str("kline_3d"))
    } else if str_eq(timeframe, "1w") {
        Ok(String::from_str("kline_1w"))
    } else {
        let mut msg = String::from_str("Unsupported high timeframe: ");
        msg.append(timeframe);
        msg.append(". Supported: 5m, 15m, 30m, 1h, 2h, 4h, 1d, 3d, 1w");
        Err(DataError::Validation(msg))
    }
}

/// The decimal digit of a parameter number below 10.
pub open spec fn param_text(n: int) -> Seq<char> {
    seq!['$', ((48 + n) as u32) as char]
}

/// The condition on trades of a report: within the last `$1` days, with a realised PnL, and
/// for each filter given (symbol, exchange, market type) an equality on the next parameter.
pub open spec fn trade_filter_text(has_symbol: bool, has_exchange: bool, has_market_type: bool) -> Seq<char> {
    let base = "trade_time > NOW() - INTERVAL '1 day' * $1 AND realized_pnl IS NOT NULL"@;
    let p1 = 2int;
    let s1 = if has_symbol {
        base + " AND symbol = "@ + param_text(p1)
    } else {
        base
    };
    let p2 = if has_symbol {
        p1 + 1
    } else {
        p1
    };
    let s2 = if has_exchange {
        s1 + " AND exchange = "@ + param_text(p2)
    } else {
        s1
    };
    let p3 = if has_exchange {
        p2 + 1
    } else {
        p2
    };
    if has_market_type {
        s2 + " AND market_type = "@ + param_text(p3)
    } else {
        s2
    }
}

/// The text of a parameter number from 2 to 4.
fn param_str(n: u8) -> (r: &'static str)
    requires
        2 <= n <= 4,
    ensures
        r@ == param_text(n as int),
{
    proof {
        reveal_strlit("$2");
        reveal_strlit("$3");
        reveal_strlit("$4");
    }
    if n == 2 {
        "$2"
    } else if n == 3 {
        "$3"
    } else {
        "$4"
    }
}

/// The WHERE condition of the PnL reports, with one parameter per filter given.
pub fn trade_filter_clause(has_symbol: bool, has_exchange: bool, has_market_type: bool) -> (r: String)
    ensures
        r@ == trade_filter_text(has_symbol, has_exchange, has_market_type),
{
    let mut out = String::from_str("trade_time > NOW() - INTERVAL '1 day' * $1 AND realized_pnl IS NOT NULL");
    let mut param: u8 = 2;
    if has_symbol {
        out.append(" AND symbol = ");
        out.append(param_str(param));
        param = param + 1;
    }
    if has_exchange {
        out.append(" AND exchange = ");
        out.append(param_str(param));
        param = param + 1;
    }
    if has_market_type {
        out.append(" AND market_type = ");
        out.append(param_str(param));
    }
    out
}

/// The unit an equity curve groups trades by: "week" for "weekly", "month" for "monthly",
/// "day" for anything else.
pub open spec fn date_trunc_text(period: Seq<char>) -> Seq<char> {
    if period == "weekly"@ {
        "week"@
    } else if period == "monthly"@ {
        "month"@
    } else {
        "day"@
    }
}

/// The unit an equity curve groups trades by.
pub fn date_trunc_unit(period: &str) -> (r: &'static str)
    ensures
        r@ == date_trunc_text(period@),
{
    if str_eq(period, "weekly") {
        "week"
    } else if str_eq(period, "monthly") {
        "month"
    } else {
        "day"
    }
}

/// How many ticks a tick query returns: its limit (the default limit when it has none), at
/// most the query limit.
pub fn tick_query_limit(limit: Option<u32>) -> (r: u32)
    ensures
        r == match limit {
            Some(l) => if l < MAX_QUERY_LIMIT { l } else { MAX_QUERY_LIMIT },
            None => DEFAULT_QUERY_LIMIT,
        },
{
    match limit {
        Some(l) => if l < MAX_QUERY_LIMIT { l } else { MAX_QUERY_LIMIT },
        None => DEFAULT_QUERY_LIMIT,
    }
}

/// How many of the latest ticks a backtest may ask for: the count, at most the query limit.
pub fn recent_tick_limit(count: i64) -> (r: i64)
    ensures
        r == if count < MAX_QUERY_LIMIT { count } else { MAX_QUERY_LIMIT as i64 },
{
    if count < MAX_QUERY_LIMIT as i64 {
        count
    } else {
        MAX_QUERY_LIMIT as i64
    }
}

/// How many ticks of a range a backtest may ask for: the limit given (the query limit when
/// none is), at most the query limit.
pub fn historical_tick_limit(limit: Option<i64>) -> (r: i64)
    ensures
        r == match limit {
            Some(l) => if l < MAX_QUERY_LIMIT { l } else { MAX_QUERY_LIMIT as i64 },
            None => MAX_QUERY_LIMIT as i64,
        },
{
    match limit {
        Some(l) => recent_tick_limit(l),
        None => MAX_QUERY_LIMIT as i64,
    }
}

/// The price change in percent from `old_close` to `close`: none when the old close is zero.
pub open spec fn change_pct_of(close: Dec, old_close: Dec) -> Option<Option<Dec>> {
    if old_close.value() == 0 {
        Some(None)
    } else {
        match decimal_checked_sub(close, old_close) {
            Some(d) => match decimal_checked_div(d, old_close) {
                Some(q) => match decimal_checked_mul(q, Dec::spec_new(100, 0)) {
                    Some(p) => Some(Some(p)),
                    None => None,
                },
                None => None,
            },
            None => None,
        }
    }
}

/// The 24-hour price change in percent, `(close - old_close) / old_close * 100`, with `None`
/// inside for a zero old close; the outer `None` when a step overflows.
pub fn change_pct(close: Dec, old_close: Dec) -> (r: Option<Option<Dec>>)
    ensures
        r == change_pct_of(close, old_close),
{
    if old_close.is_zero() {
        return Some(None);
    }
    let d = close.checked_sub(old_close)?;
    let q = d.checked_div(old_close)?;
    let p = q.checked_mul(Dec::from_int(100))?;
    Some(Some(p))
}

/// The statistics of a symbol's last 24 hours beside its latest bar.
#[derive(Debug, Clone)]
pub struct Kline24hStats {
    pub change_pct: Option<Dec>,
    pub volume_24h: Option<Dec>,
    pub high_24h: Option<Dec>,
    pub low_24h: Option<Dec>,
}

/// Whether `symbol` has a price among `found`.
pub open spec fn has_price(found: Seq<(String, Dec)>, symbol: Seq<char>) -> bool {
    exists|i: int| 0 <= i < found.len() && (#[trigger] found[i]).0@ == symbol
}

/// The symbols, in order, that have no price among `found` (and must be read from the
/// database).
pub open spec fn missing_of(symbols: Seq<Seq<char>>, found: Seq<(String, Dec)>) -> Seq<Seq<char>>
    decreases symbols.len(),
{
    if symbols.len() == 0 {
        symbols
    } else if has_price(found, symbols.last()) {
        missing_of(symbols.drop_last(), found)
    } else {
        missing_of(symbols.drop_last(), found).push(symbols.last())
    }
}

/// The symbols that have no price among `found`, in order.
pub fn missing_symbols(symbols: &Vec<String>, found: &Vec<(String, Dec)>) -> (r: Vec<String>)
    ensures
        r@.map_values(|s: String| s@) == missing_of(symbols@.map_values(|s: String| s@), found@),
{
    let ghost names = symbols@.map_values(|s: String| s@);
    let mut out: Vec<String> = Vec::new();
    let mut i: usize = 0;
    while i < symbols.len()
        invariant
            i <= symbols@.len(),
            names == symbols@.map_values(|s: String| s@),
            out@.map_values(|s: String| s@) == missing_of(names.take(i as int), found@),
        decreases symbols@.len() - i,
    {
        proof {
            assert(names.take(i as int + 1).drop_last() =~= names.take(i as int));
        }
        let sym = symbols[i].as_str();
        let mut present = false;
        let mut j: usize = 0;
        while j < found.len()
            invariant
                j <= found@.len(),
                present == (exists|k: int| 0 <= k < j && (#[trigger] found@[k]).0@ == sym@),
            decreases found@.len() - j,
        {
            if str_eq(found[j].0.as_str(), sym) {
                present = true;
            }
            j = j + 1;
        }
        if !present {
            let ghost before = out@;
            out.push(symbols[i].clone());
            proof {
                assert(out@.map_values(|s: String| s@) =~= before.map_values(|s: String| s@).push(sym@));
            }
        }
        i = i + 1;
    }
    proof {
        assert(names.take(symbols@.len() as int) =~= names);
    }
    out
}

/// The start of the window of the timeframe that holds the tick.
pub open spec fn window_of(timeframe: Timeframe, t: TickData) -> int {
    timeframe.align_spec(t.timestamp as int)
}

/// The ticks of one window, in their order.
pub open spec fn in_window(ticks: Seq<TickData>, timeframe: Timeframe, w: int) -> Seq<TickData>
    decreases ticks.len(),
{
    if ticks.len() == 0 {
        ticks
    } else if window_of(timeframe, ticks.last()) == w {
        in_window(ticks.drop_last(), timeframe, w).push(ticks.last())
    } else {
        in_window(ticks.drop_last(), timeframe, w)
    }
}

/// The ticks, ordered by time, with `t` put after every tick not later than it.
pub open spec fn insert_by_time(s: Seq<TickData>, t: TickData) -> Seq<TickData>
    decreases s.len(),
{
    if s.len() == 0 {
        seq![t]
    } else if s.last().timestamp <= t.timestamp {
        s.push(t)
    } else {
        insert_by_time(s.drop_last(), t).push(s.last())
    }
}

/// The ticks in time order, ticks of one instant kept in their order (a stable sort).
pub open spec fn sort_by_time(s: Seq<TickData>) -> Seq<TickData>
    decreases s.len(),
{
    if s.len() == 0 {
        s
    } else {
        insert_by_time(sort_by_time(s.drop_last()), s.last())
    }
}

/// Whether the ticks are in time order.
pub open spec fn time_ordered(s: Seq<TickData>) -> bool {
    forall|i: int, j: int| 0 <= i <= j < s.len() ==> (#[trigger] s[i]).timestamp <= (#[trigger] s[j]).timestamp
}

/// Whether every tick's instant is one the library handles.
pub open spec fn ticks_valid(ticks: Seq<TickData>) -> bool {
    forall|i: int| 0 <= i < ticks.len() ==> valid_timestamp((#[trigger] ticks[i]).timestamp as int)
}

/// The windows, from `lo` to `hi`, that hold a tick.
pub open spec fn bar_windows(ticks: Seq<TickData>, timeframe: Timeframe, lo: int, hi: int) -> Set<int> {
    Set::new(|w: int| lo <= w <= hi && exists|i: int| 0 <= i < ticks.len() && window_of(timeframe, #[trigger] ticks[i]) == w)
}

/// The bar of window `w`: its ticks in time order give the open, high, low and close, the
/// summed quantity and the count; `None` when the quantities overflow.
pub open spec fn window_bar(ticks: Seq<TickData>, timeframe: Timeframe, w: int) -> Option<OHLCData> {
    let s = sort_by_time(in_window(ticks, timeframe, w));
    match seq_sum(tick_quantities(s)) {
        Some(volume) => Some(
            OHLCData {
                timestamp: w as i64,
                symbol: s[0].symbol,
                timeframe,
                open: s[0].price,
                high: running_high(tick_prices(s), s.len() as nat),
                low: running_low(tick_prices(s), s.len() as nat),
                close: s[s.len() - 1].price,
                volume,
                trade_count: s.len() as u64,
            },
        ),
        None => None,
    }
}

/// Sorting keeps the number of ticks.
proof fn lemma_sort_len(s: Seq<TickData>)
    ensures
        sort_by_time(s).len() == s.len(),
    decreases s.len(),
{
    if s.len() > 0 {
        lemma_sort_len(s.drop_last());
        lemma_insert_len(sort_by_time(s.drop_last()), s.last());
    }
}

/// Inserting adds one tick.
proof fn lemma_insert_len(s: Seq<TickData>, t: TickData)
    ensures
        insert_by_time(s, t).len() == s.len() + 1,
    decreases s.len(),
{
    if s.len() > 0 && s.last().timestamp > t.timestamp {
        lemma_insert_len(s.drop_last(), t);
    }
}

/// Inserting at the place after the last tick not later than `t` is what `insert_by_time` does.
proof fn lemma_insert_at(s: Seq<TickData>, t: TickData, j: int)
    requires
        0 <= j <= s.len(),
        forall|k: int| j <= k < s.len() ==> (#[trigger] s[k]).timestamp > t.timestamp,
        j > 0 ==> s[j - 1].timestamp <= t.timestamp,
    ensures
        insert_by_time(s, t) == s.insert(j, t),
    decreases s.len(),
{
    if s.len() == 0 {
        assert(s.insert(j, t) =~= seq![t]);
    } else if j == s.len() {
        assert(s.insert(j, t) =~= s.push(t));
    } else {
        lemma_insert_at(s.drop_last(), t, j);
        assert(s.insert(j, t) =~= s.drop_last().insert(j, t).push(s.last()));
    }
}

/// Inserting a tick into ordered ticks keeps them ordered.
proof fn lemma_insert_ordered(s: Seq<TickData>, t: TickData)
    requires
        time_ordered(s),
    ensures
        time_ordered(insert_by_time(s, t)),
        insert_by_time(s, t).to_multiset() == s.to_multiset().insert(t),
    decreases s.len(),
{
    broadcast use vstd::seq_lib::group_to_multiset_ensures;
    if s.len() == 0 {
        assert(seq![t] =~= Seq::<TickData>::empty().push(t));
    } else if s.last().timestamp <= t.timestamp {
        let r = s.push(t);
        assert forall|i: int, j: int| 0 <= i <= j < r.len() implies (#[trigger] r[i]).timestamp <= (#[trigger] r[j]).timestamp by {
            if j == r.len() - 1 && i < j {
                assert(s[i].timestamp <= s[s.len() - 1].timestamp);
            }
        }
    } else {
        let p = s.drop_last();
        assert(time_ordered(p)) by {
            assert forall|i: int, j: int| 0 <= i <= j < p.len() implies (#[trigger] p[i]).timestamp <= (#[trigger] p[j]).timestamp by {
                assert(s[i].timestamp <= s[j].timestamp);
            }
        }
        lemma_insert_ordered(p, t);
        lemma_insert_len(p, t);
        let q = insert_by_time(p, t);
        let r = q.push(s.last());
        assert forall|i: int, j: int| 0 <= i <= j < r.len() implies (#[trigger] r[i]).timestamp <= (#[trigger] r[j]).timestamp by {
            if j == r.len() - 1 && i < j {
                assert(q.to_multiset().count(q[i]) > 0);
                assert(s.drop_last().to_multiset().insert(t).count(q[i]) > 0);
                if q[i] != t {
                    assert(p.to_multiset().count(q[i]) > 0);
                    assert(p.contains(q[i]));
                    let k = choose|k: int| 0 <= k < p.len() && p[k] == q[i];
                    assert(s[k].timestamp <= s[s.len() - 1].timestamp);
                }
            }
        }
        assert(s =~= p.push(s.last()));
    }
}

/// Sorting by time orders the ticks and keeps each of them (a permutation).
pub proof fn lemma_sort_by_time(s: Seq<TickData>)
    ensures
        time_ordered(sort_by_time(s)),
        sort_by_time(s).to_multiset() == s.to_multiset(),
    decreases s.len(),
{
    broadcast use vstd::seq_lib::group_to_multiset_ensures;
    if s.len() > 0 {
        lemma_sort_by_time(s.drop_last());
        lemma_insert_ordered(sort_by_time(s.drop_last()), s.last());
        assert(s =~= s.drop_last().push(s.last()));
    }
}

/// Puts the tick after every tick not later than it, in ticks that are in time order.
fn insert_tick_by_time(out: &mut Vec<TickData>, t: TickData)
    ensures
        final(out)@ == insert_by_time(old(out)@, t),
{
    let mut j: usize = out.len();
    while j > 0 && out[j - 1].timestamp > t.timestamp
        invariant
            j <= out@.len(),
            forall|k: int| j <= k < out@.len() ==> (#[trigger] out@[k]).timestamp > t.timestamp,
        decreases j,
    {
        j = j - 1;
    }
    proof {
        lemma_insert_at(out@, t, j as int);
    }
    out.insert(j, t);
}

/// The ticks in time order, ticks of one instant kept in their order.
pub fn sort_ticks_by_time(ticks: Vec<TickData>) -> (r: Vec<TickData>)
    ensures
        r@ == sort_by_time(ticks@),
{
    let mut out: Vec<TickData> = Vec::new();
    let mut rest = ticks;
    let ghost all = rest@;
    let mut taken: Vec<TickData> = Vec::new();
    let mut i: usize = 0;
    while i < rest.len()
        invariant
            rest@ == all,
            i <= all.len(),
            out@ == sort_by_time(all.take(i as int)),
        decreases all.len() - i,
    {
        proof {
            assert(all.take(i as int + 1).drop_last() =~= all.take(i as int));
        }
        let t = rest[i].duplicate();
        insert_tick_by_time(&mut out, t);
        i = i + 1;
    }
    proof {
        assert(all.take(all.len() as int) =~= all);
    }
    out
}

/// The ticks of window `w`, in their order.
fn select_window(ticks: &Vec<TickData>, timeframe: Timeframe, w: i64) -> (r: Vec<TickData>)
    requires
        ticks_valid(ticks@),
    ensures
        r@ == in_window(ticks@, timeframe, w as int),
{
    let mut out: Vec<TickData> = Vec::new();
    let mut i: usize = 0;
    while i < ticks.len()
        invariant
            i <= ticks@.len(),
            ticks_valid(ticks@),
            out@ == in_window(ticks@.take(i as int), timeframe, w as int),
        decreases ticks@.len() - i,
    {
        proof {
            assert(ticks@.take(i as int + 1).drop_last() =~= ticks@.take(i as int));
        }
        let tw = timeframe.align_timestamp(ticks[i].timestamp);
        if tw == w {
            out.push(ticks[i].duplicate());
        }
        i = i + 1;
    }
    proof {
        assert(ticks@.take(ticks@.len() as int) =~= ticks@);
    }
    out
}

/// Whether the windows are strictly increasing.
pub open spec fn increasing(ws: Seq<i64>) -> bool {
    forall|a: int, b: int| 0 <= a < b < ws.len() ==> (#[trigger] ws[a]) < (#[trigger] ws[b])
}

/// Adds `w` to strictly increasing windows, where it is not already.
fn insert_window(ws: &mut Vec<i64>, w: i64)
    requires
        increasing(old(ws)@),
    ensures
        increasing(final(ws)@),
        forall|x: i64| final(ws)@.contains(x) <==> (old(ws)@.contains(x) || x == w),
{
    let mut p: usize = 0;
    while p < ws.len() && ws[p] < w
        invariant
            p <= ws@.len(),
            ws@ == old(ws)@,
            forall|k: int| 0 <= k < p ==> (#[trigger] ws@[k]) < w,
        decreases ws@.len() - p,
    {
        p = p + 1;
    }
    if p < ws.len() && ws[p] == w {
        assert(ws@.contains(w));
        return;
    }
    let ghost before = ws@;
    ws.insert(p, w);
    proof {
        assert(before == old(ws)@);
        assert(ws@ =~= before.insert(p as int, w));
        assert forall|a: int, b: int| 0 <= a < b < ws@.len() implies (#[trigger] ws@[a]) < (#[trigger] ws@[b]) by {
            if b < p {
            } else if b == p {
            } else if a < p {
                assert(before[b - 1] >= before[p as int] || b - 1 == p);
                assert(before[b - 1] > w) by {
                    if b - 1 > p {
                        assert(before[p as int] < before[b - 1]);
                    }
                }
            } else if a == p {
                assert(before[b - 1] > w) by {
                    if b - 1 > p {
                        assert(before[p as int] < before[b - 1]);
                    }
                }
            } else {
                assert(before[a - 1] < before[b - 1]);
            }
        }
        assert forall|x: i64| #[trigger] ws@.contains(x) <==> (old(ws)@.contains(x) || x == w) by {
            if ws@.contains(x) {
                let k = choose|k: int| 0 <= k < ws@.len() && ws@[k] == x;
                if k < p {
                    assert(before[k] == x);
                } else if k > p {
                    assert(before[k - 1] == x);
                }
            }
            if before.contains(x) {
                let k = choose|k: int| 0 <= k < before.len() && before[k] == x;
                if k < p {
                    assert(ws@[k] == x);
                } else {
                    assert(ws@[k + 1] == x);
                }
            }
            if x == w {
                assert(ws@[p as int] == w);
            }
        }
    }
}

/// The windows from `lo` to `hi` that hold a tick, in increasing order.
fn window_starts(ticks: &Vec<TickData>, timeframe: Timeframe, lo: i64, hi: i64) -> (r: Vec<i64>)
    requires
        ticks_valid(ticks@),
    ensures
        increasing(r@),
        forall|w: i64| r@.contains(w) <==> bar_windows(ticks@, timeframe, lo as int, hi as int).contains(w as int),
{
    let mut ws: Vec<i64> = Vec::new();
    let mut i: usize = 0;
    while i < ticks.len()
        invariant
            i <= ticks@.len(),
            ticks_valid(ticks@),
            increasing(ws@),
            forall|w: i64|
                ws@.contains(w) <==> (lo <= w <= hi && exists|j: int|
                    0 <= j < i && window_of(timeframe, #[trigger] ticks@[j]) == w),
        decreases ticks@.len() - i,
    {
        let tw = timeframe.align_timestamp(ticks[i].timestamp);
        let ghost before = ws@;
        if lo <= tw && tw <= hi {
            insert_window(&mut ws, tw);
        }
        proof {
            assert forall|w: i64|
                ws@.contains(w) <==> (lo <= w <= hi && exists|j: int|
                    0 <= j < i + 1 && window_of(timeframe, #[trigger] ticks@[j]) == w) by {
                if ws@.contains(w) && !before.contains(w) {
                    assert(window_of(timeframe, ticks@[i as int]) == w);
                }
                if lo <= w <= hi && (exists|j: int| 0 <= j < i + 1 && window_of(timeframe, #[trigger] ticks@[j]) == w) {
                    let j = choose|j: int| 0 <= j < i + 1 && window_of(timeframe, #[trigger] ticks@[j]) == w;
                    if j < i {
                        assert(before.contains(w));
                    }
                }
            }
        }
        i = i + 1;
    }
    ws
}

/// A window that holds a tick has a tick in it.
proof fn lemma_in_window_nonempty(ticks: Seq<TickData>, timeframe: Timeframe, w: int, i: int)
    requires
        0 <= i < ticks.len(),
        window_of(timeframe, ticks[i]) == w,
    ensures
        in_window(ticks, timeframe, w).len() > 0,
    decreases ticks.len(),
{
    if i < ticks.len() - 1 {
        lemma_in_window_nonempty(ticks.drop_last(), timeframe, w, i);
    }
}

/// The bars of the windows from the window of `start_time` to that of `end_time` that hold
/// ticks, in time order; each bar is built from its window's ticks in time order. `None` when
/// a window's quantities overflow.
pub fn bars_from_ticks(ticks: &Vec<TickData>, timeframe: Timeframe, start_time: i64, end_time: i64) -> (r: Option<Vec<OHLCData>>)
    requires
        ticks_valid(ticks@),
        valid_timestamp(start_time as int),
        valid_timestamp(end_time as int),
    ensures
        ({
            let ws = bar_windows(ticks@, timeframe, timeframe.align_spec(start_time as int), timeframe.align_spec(end_time as int));
            &&& r is None <==> exists|w: int| ws.contains(w) && #[trigger] window_bar(ticks@, timeframe, w) is None
            &&& r matches Some(bars) ==> {
                &&& forall|k: int| 0 <= k < bars@.len() ==> ws.contains((#[trigger] bars@[k]).timestamp as int)
                    && Some(bars@[k]) == window_bar(ticks@, timeframe, bars@[k].timestamp as int)
                &&& forall|a: int, b: int| 0 <= a < b < bars@.len() ==> (#[trigger] bars@[a]).timestamp < (#[trigger] bars@[b]).timestamp
                &&& forall|w: int| ws.contains(w) ==> exists|k: int| 0 <= k < bars@.len() && (#[trigger] bars@[k]).timestamp == w
            }
        }),
{
    let lo = timeframe.align_timestamp(start_time);
    let hi = timeframe.align_timestamp(end_time);
    let ghost wset = bar_windows(ticks@, timeframe, lo as int, hi as int);
    let ws = window_starts(ticks, timeframe, lo, hi);
    let mut bars: Vec<OHLCData> = Vec::new();
    let mut k: usize = 0;
    while k < ws.len()
        invariant
            k <= ws@.len(),
            ticks_valid(ticks@),
            increasing(ws@),
            wset == bar_windows(ticks@, timeframe, lo as int, hi as int),
            lo == timeframe.align_spec(start_time as int),
            hi == timeframe.align_spec(end_time as int),
            forall|w: i64| ws@.contains(w) <==> wset.contains(w as int),
            bars@.len() == k,
            forall|j: int| 0 <= j < k ==> (#[trigger] bars@[j]).timestamp == ws@[j]
                && Some(bars@[j]) == window_bar(ticks@, timeframe, ws@[j] as int),
        decreases ws@.len() - k,
    {
        let w = ws[k];
        assert(ws@.contains(w));
        assert(wset.contains(w as int));
        let sel = select_window(ticks, timeframe, w);
        proof {
            let i = choose|i: int| 0 <= i < ticks@.len() && window_of(timeframe, #[trigger] ticks@[i]) == w;
            lemma_in_window_nonempty(ticks@, timeframe, w as int, i);
            lemma_sort_len(sel@);
        }
        let sorted = sort_ticks_by_time(sel);
        let mut qs: Vec<Dec> = Vec::new();
        let mut j: usize = 0;
        while j < sorted.len()
            invariant
                j <= sorted@.len(),
                qs@ == tick_quantities(sorted@).take(j as int),
            decreases sorted@.len() - j,
        {
            qs.push(sorted[j].quantity);
            proof {
                assert(qs@ =~= tick_quantities(sorted@).take(j as int + 1));
            }
            j = j + 1;
        }
        proof {
            assert(qs@ =~= tick_quantities(sorted@));
        }
        match Dec::try_sum_slice(qs.as_slice()) {
            None => {
                assert(window_bar(ticks@, timeframe, w as int) is None);
                return None;
            },
            Some(_) => {},
        }
        assert(sorted@.len() > 0);
        let bar = OHLCData::from_ticks(sorted.as_slice(), timeframe, w);
        match bar {
            Some(b) => {
                bars.push(b);
            },
            None => {
                return None;
            },
        }
        k = k + 1;
    }
    proof {
        assert forall|w: int| wset.contains(w) implies #[trigger] window_bar(ticks@, timeframe, w) is Some by {
            let i = choose|i: int| 0 <= i < ticks@.len() && window_of(timeframe, #[trigger] ticks@[i]) == w;
            assert(valid_timestamp(ticks@[i].timestamp as int));
            let wi = w as i64;
            assert(ws@.contains(wi));
            let j = choose|j: int| 0 <= j < ws@.len() && ws@[j] == wi;
            assert(bars@[j].timestamp == wi);
        }
        assert forall|w: int| wset.contains(w) implies exists|k: int| 0 <= k < bars@.len() && (#[trigger] bars@[k]).timestamp == w by {
            let i = choose|i: int| 0 <= i < ticks@.len() && window_of(timeframe, #[trigger] ticks@[i]) == w;
            let wi = w as i64;
            assert(ws@.contains(wi));
            let j = choose|j: int| 0 <= j < ws@.len() && ws@[j] == wi;
            assert(bars@[j].timestamp == w);
        }
        assert forall|k: int| 0 <= k < bars@.len() implies wset.contains((#[trigger] bars@[k]).timestamp as int) by {
            assert(ws@.contains(ws@[k]));
        }
    }
    Some(bars)
}

/// The trade count stored with a bar: the count, at most `i32::MAX`.
pub fn stored_trade_count(count: u64) -> (r: i32)
    ensures
        r == if count < i32::MAX { count as int } else { i32::MAX as int },
{
    if count < i32::MAX as u64 {
        count as i32
    } else {
        i32::MAX
    }
}

/// The most ticks read to build recent bars of the timeframe.
pub open spec fn recent_bar_tick_cap(timeframe: Timeframe) -> i64 {
    match timeframe {
        Timeframe::OneMinute | Timeframe::FiveMinutes => 50000,
        Timeframe::FifteenMinutes | Timeframe::ThirtyMinutes => 100000,
        Timeframe::OneHour | Timeframe::TwoHour => 200000,
        Timeframe::FourHour => 500000,
        Timeframe::OneDay | Timeframe::ThreeDay => 1000000,
        Timeframe::OneWeek => 2000000,
    }
}

/// The most ticks read to build recent bars of the timeframe: more for longer bars.
pub fn recent_bar_tick_limit(timeframe: Timeframe) -> (r: i64)
    ensures
        r == recent_bar_tick_cap(timeframe),
{
    match timeframe {
        Timeframe::OneMinute | Timeframe::FiveMinutes => 50000,
        Timeframe::FifteenMinutes | Timeframe::ThirtyMinutes => 100000,
        Timeframe::OneHour | Timeframe::TwoHour => 200000,
        Timeframe::FourHour => 500000,
        Timeframe::OneDay | Timeframe::ThreeDay => 1000000,
        Timeframe::OneWeek => 2000000,
    }
}

/// The timestamps of the bars.
pub open spec fn bar_times(bars: Seq<OHLCData>) -> Seq<i64> {
    bars.map_values(|b: OHLCData| b.timestamp)
}

/// The latest `count` of the bars (all of them when there are fewer), oldest first; the bars
/// are given oldest first.
pub fn latest_bars(bars: &Vec<OHLCData>, count: u32) -> (r: Vec<OHLCData>)
    requires
        increasing(bar_times(bars@)),
    ensures
        r@ == bars@.skip(bars@.len() - if (count as int) < bars@.len() { count as int } else { bars@.len() as int }),
{
    let n = bars.len();
    let keep: usize = if (count as usize) < n { count as usize } else { n };
    let start = n - keep;
    let mut out: Vec<OHLCData> = Vec::new();
    let mut i = start;
    while i < n
        invariant
            start <= i <= n,
            n == bars@.len(),
            out@ == bars@.subrange(start as int, i as int),
        decreases n - i,
    {
        out.push(bars[i].duplicate());
        i = i + 1;
    }
    out
}

/// `a / b` rounded toward zero, for `b > 0`.
pub open spec fn div_toward_zero(a: int, b: int) -> int {
    if a >= 0 {
        a / b
    } else {
        -((-a) / b)
    }
}

/// The bar count, first window and last window of stored data from `earliest` to `latest`:
/// the whole seconds between the two windows' starts over the bar's seconds (rounded toward
/// zero, and taken modulo 2^64); nothing without both instants.
pub open spec fn ohlc_info_of(timeframe: Timeframe, earliest: Option<i64>, latest: Option<i64>) -> (u64, Option<i64>, Option<i64>) {
    match (earliest, latest) {
        (Some(e), Some(l)) => {
            let a = timeframe.align_spec(e as int);
            let b = timeframe.align_spec(l as int);
            let q = div_toward_zero(div_toward_zero(b - a, 1000), timeframe.duration_spec() / 1000);
            let count = if q >= 0 { q } else { q + 0x1_0000_0000_0000_0000 };
            (count as u64, Some(a as i64), Some(b as i64))
        },
        _ => (0, None, None),
    }
}

/// The estimated bar count and the first and last window of the stored data.
pub fn ohlc_data_info(timeframe: Timeframe, earliest: Option<i64>, latest: Option<i64>) -> (r: (u64, Option<i64>, Option<i64>))
    requires
        earliest matches Some(e) ==> valid_timestamp(e as int),
        latest matches Some(l) ==> valid_timestamp(l as int),
    ensures
        r == ohlc_info_of(timeframe, earliest, latest),
{
    match (earliest, latest) {
        (Some(e), Some(l)) => {
            let a = timeframe.align_timestamp(e);
            let b = timeframe.align_timestamp(l);
            let bar_secs = (timeframe.as_duration_ms() / 1000) as i128;
            assert(timeframe.duration_spec() / 1000 >= 60);
            let count: u64 = if b >= a {
                let diff_secs = (b as i128 - a as i128) / 1000;
                assert(diff_secs / bar_secs <= diff_secs) by (nonlinear_arith)
                    requires
                        diff_secs >= 0,
                        bar_secs >= 60,
                ;
                (diff_secs / bar_secs) as u64
            } else {
                let diff_secs = (a as i128 - b as i128) / 1000;
                assert(diff_secs / bar_secs <= diff_secs) by (nonlinear_arith)
                    requires
                        diff_secs >= 0,
                        bar_secs >= 60,
                ;
                let q = (diff_secs / bar_secs) as u64;
                if q == 0 {
                    0
                } else {
                    (u64::MAX - q) + 1
                }
            };
            (count, Some(a), Some(b))
        },
        _ => (0, None, None),
    }
}

/// One signal as stored in either signal table.
#[derive(Debug)]
pub struct SignalRecord {
    pub id: u128,
    pub symbol: String,
    pub strategy_id: String,
    pub direction: String,
    pub entry_price: Dec,
    pub overall_confidence: Dec,
    pub entry_allowed: bool,
    pub entry_direction: Option<String>,
    pub timeframe_details: serde_json::Value,
    pub status: String,
    pub closed_reason: Option<String>,
    pub evaluated_at: Option<i64>,
    pub best_price: Option<Dec>,
    pub worst_price: Option<Dec>,
    pub eval_count: i32,
    pub closed_at: Option<i64>,
    pub close_price: Option<Dec>,
    pub actual_return_pct: Option<Dec>,
    pub created_at: i64,
}

/// The configuration key under which the scheduler's pause flag is stored.
pub fn scheduler_paused_key() -> (r: &'static str)
    ensures
        r@ == "scheduler_paused"@,
{
    "scheduler_paused"
}

/// Whether the stored value of the pause flag says the scheduler is paused: only the exact
/// text "true" does; a missing value does not.
pub fn scheduler_paused_from(value: Option<&str>) -> (r: bool)
    ensures
        r == (value matches Some(v) && v@ == "true"@),
{
    match value {
        Some(v) => str_eq(v, "true"),
        None => false,
    }
}

/// The value stored for the pause flag: "true" or "false".
pub fn scheduler_paused_text(paused: bool) -> (r: &'static str)
    ensures
        r@ == (if paused { "true"@ } else { "false"@ }),
{
    if paused {
        "true"
    } else {
        "false"
    }
}

/// Whether the table is one of the two signal tables a statistics query may read.
pub open spec fn signal_table_allowed(table: Seq<char>) -> bool {
    table == "strategy_signals"@ || table == "strategy_analysis_log"@
}

/// Checks the table of a signal statistics query against the two signal tables; any other
/// is an invalid format, "Invalid table: ..." with the name.
pub fn check_signal_table(table: &str) -> (r: Result<(), DataError>)
    ensures
        signal_table_allowed(table@) ==> r is Ok,
        !signal_table_allowed(table@) ==> (r matches Err(DataError::InvalidFormat(m)) && m@ == "Invalid table: "@
            + table@),
{
    if str_eq(table, "strategy_signals") || str_eq(table, "strategy_analysis_log") {
        Ok(())
    } else {
        let mut msg = String::from_str("Invalid table: ");
        msg.append(table);
        Err(DataError::InvalidFormat(msg))
    }
}

/// The filter of a signal statistics query: by symbol and strategy when both are given, by
/// symbol when only it is given, none otherwise (a strategy alone does not filter).
pub open spec fn signal_filter_text(has_symbol: bool, has_strategy: bool) -> Seq<char> {
    if has_symbol && has_strategy {
        "WHERE symbol=$1 AND strategy_id=$2"@
    } else if has_symbol {
        "WHERE symbol=$1"@
    } else {
        ""@
    }
}

/// The filter of a signal statistics query.
pub fn signal_where_clause(has_symbol: bool, has_strategy: bool) -> (r: &'static str)
    ensures
        r@ == signal_filter_text(has_symbol, has_strategy),
{
    if has_symbol && has_strategy {
        "WHERE symbol=$1 AND strategy_id=$2"
    } else if has_symbol {
        "WHERE symbol=$1"
    } else {
        ""
    }
}

} // verus!
