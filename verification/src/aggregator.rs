//! Aggregation of 1-minute bars into higher timeframes.
//!
//! The aggregated timeframes are 5m, 15m, 30m, 1h, 4h and 1d; each has a list of completed bars
//! and the bar being formed. They are kept in vectors indexed by the timeframe's slot.
use crate::decimal::{can_add, max_of, min_of, sum, Dec};
use crate::types::{valid_timestamp, OHLCData, Timeframe};
use vstd::pervasive::VecAdditionalExecFns;
use vstd::prelude::*;

verus! {

/// The slot of an aggregated timeframe, or `None` for the others.
pub open spec fn slot_of(tf: Timeframe) -> Option<int> {
    match tf {
        Timeframe::FiveMinutes => Some(0),
        Timeframe::FifteenMinutes => Some(1),
        Timeframe::ThirtyMinutes => Some(2),
        Timeframe::OneHour => Some(3),
        Timeframe::FourHour => Some(4),
        Timeframe::OneDay => Some(5),
        _ => None,
    }
}

/// The timeframe held in a slot.
pub open spec fn slot_timeframe(slot: int) -> Timeframe {
    if slot == 0 {
        Timeframe::FiveMinutes
    } else if slot == 1 {
        Timeframe::FifteenMinutes
    } else if slot == 2 {
        Timeframe::ThirtyMinutes
    } else if slot == 3 {
        Timeframe::OneHour
    } else if slot == 4 {
        Timeframe::FourHour
    } else {
        Timeframe::OneDay
    }
}

/// The number of aggregated timeframes.
pub open spec fn slot_count() -> int {
    6
}

fn slot_index(tf: Timeframe) -> (r: Option<usize>)
    ensures
        match slot_of(tf) {
            Some(s) => r == Some(s as usize),
            None => r is None,
        },
{
    match tf {
        Timeframe::FiveMinutes => Some(0),
        Timeframe::FifteenMinutes => Some(1),
        Timeframe::ThirtyMinutes => Some(2),
        Timeframe::OneHour => Some(3),
        Timeframe::FourHour => Some(4),
        Timeframe::OneDay => Some(5),
        _ => None,
    }
}

fn slot_tf(slot: usize) -> (r: Timeframe)
    ensures
        r == slot_timeframe(slot as int),
{
    if slot == 0 {
        Timeframe::FiveMinutes
    } else if slot == 1 {
        Timeframe::FifteenMinutes
    } else if slot == 2 {
        Timeframe::ThirtyMinutes
    } else if slot == 3 {
        Timeframe::OneHour
    } else if slot == 4 {
        Timeframe::FourHour
    } else {
        Timeframe::OneDay
    }
}

/// The bar of timeframe `tf` opened by the 1-minute bar `k` in the window starting at `start`.
pub open spec fn opened_bar(k: OHLCData, tf: Timeframe, start: int) -> OHLCData {
    OHLCData { timestamp: start as i64, timeframe: tf, ..k }
}

/// The bar `c` with the 1-minute bar `k` merged in.
pub open spec fn merged_bar(c: OHLCData, k: OHLCData) -> OHLCData {
    OHLCData {
        high: max_of(c.high, k.high),
        low: min_of(c.low, k.low),
        close: k.close,
        volume: sum(c.volume, k.volume),
        trade_count: (c.trade_count + k.trade_count) as u64,
        ..c
    }
}

/// Merging `k` into `c` does not overflow.
pub open spec fn merge_ok(c: OHLCData, k: OHLCData) -> bool {
    can_add(c.volume, k.volume) && c.trade_count + k.trade_count <= u64::MAX
}

/// The mathematical state of the aggregator.
pub struct AggregatorModel {
    pub klines_1m: Seq<OHLCData>,
    pub aggregated: Seq<Seq<OHLCData>>,
    pub current: Seq<Option<OHLCData>>,
}

impl AggregatorModel {
    pub open spec fn wf(self) -> bool {
        self.aggregated.len() == slot_count() && self.current.len() == slot_count()
    }

    /// Feeding `k` to slot `s` does not overflow.
    pub open spec fn slot_update_ok(self, s: int, k: OHLCData) -> bool {
        match self.current[s] {
            Some(c) => c.timestamp == slot_timeframe(s).align_spec(k.timestamp as int) ==> merge_ok(c, k),
            None => true,
        }
    }

    /// Feeding `k` to every slot does not overflow.
    pub open spec fn update_ok(self, k: OHLCData) -> bool {
        &&& valid_timestamp(k.timestamp as int)
        &&& forall|s: int| 0 <= s < slot_count() ==> #[trigger] self.slot_update_ok(s, k)
    }

    /// The completed bars of slot `s` after feeding `k`.
    pub open spec fn slot_completed_after(self, s: int, k: OHLCData) -> Seq<OHLCData> {
        let start = slot_timeframe(s).align_spec(k.timestamp as int);
        match self.current[s] {
            Some(c) => if c.timestamp != start {
                self.aggregated[s].push(c)
            } else {
                self.aggregated[s]
            },
            None => self.aggregated[s],
        }
    }

    /// The bar being formed in slot `s` after feeding `k`.
    pub open spec fn slot_current_after(self, s: int, k: OHLCData) -> OHLCData {
        let tf = slot_timeframe(s);
        let start = tf.align_spec(k.timestamp as int);
        match self.current[s] {
            Some(c) => if c.timestamp != start {
                opened_bar(k, tf, start)
            } else {
                merged_bar(c, k)
            },
            None => opened_bar(k, tf, start),
        }
    }

    /// The aggregator after `update(k)`.
    pub open spec fn after_update(self, k: OHLCData) -> Self {
        AggregatorModel {
            klines_1m: self.klines_1m.push(k),
            aggregated: Seq::new(6, |s: int| self.slot_completed_after(s, k)),
            current: Seq::new(6, |s: int| Some(self.slot_current_after(s, k))),
        }
    }

    /// The completed bars of `tf` followed by the bar being formed (none for a timeframe that is
    /// not aggregated; the 1-minute bars for 1m).
    pub open spec fn bars_of(self, tf: Timeframe) -> Seq<OHLCData> {
        if tf == Timeframe::OneMinute {
            self.klines_1m
        } else {
            match slot_of(tf) {
                Some(s) => match self.current[s] {
                    Some(c) => self.aggregated[s].push(c),
                    None => self.aggregated[s],
                },
                None => Seq::empty(),
            }
        }
    }

    /// The number of completed bars of `tf`.
    pub open spec fn count_of(self, tf: Timeframe) -> nat {
        match slot_of(tf) {
            Some(s) => self.aggregated[s].len(),
            None => 0,
        }
    }
}

/// After a 1-minute bar is fed, the bar being formed in each aggregated timeframe starts at
/// the window of that bar, closes at its close, reaches at least its high and at most its
/// low; the bars completed before are kept, in order, and at most one is added.
pub proof fn lemma_update_bar_bounds(m: AggregatorModel, k: OHLCData, s: int)
    requires
        m.wf(),
        0 <= s < slot_count(),
        valid_timestamp(k.timestamp as int),
    ensures
        m.after_update(k).current[s] matches Some(c) && {
            &&& c.timestamp as int == slot_timeframe(s).align_spec(k.timestamp as int)
            &&& c.close == k.close
            &&& c.high.value() >= k.high.value()
            &&& c.low.value() <= k.low.value()
        },
        m.aggregated[s].is_prefix_of(m.after_update(k).aggregated[s]),
        m.after_update(k).aggregated[s].len() <= m.aggregated[s].len() + 1,
{
    let a = m.after_update(k);
    slot_timeframe(s).lemma_align_idempotent(k.timestamp as int);
    assert(a.current[s] == Some(m.slot_current_after(s, k)));
    assert(a.aggregated[s] == m.slot_completed_after(s, k));
    let start = slot_timeframe(s).align_spec(k.timestamp as int);
    match m.current[s] {
        Some(c) => {
            if c.timestamp != start {
                assert(m.aggregated[s].is_prefix_of(m.aggregated[s].push(c))) by {
                    assert(m.aggregated[s] =~= m.aggregated[s].push(c).subrange(0, m.aggregated[s].len() as int));
                }
            } else {
                assert(m.aggregated[s].is_prefix_of(m.aggregated[s])) by {
                    assert(m.aggregated[s] =~= m.aggregated[s].subrange(0, m.aggregated[s].len() as int));
                }
            }
        },
        None => {
            assert(m.aggregated[s].is_prefix_of(m.aggregated[s])) by {
                assert(m.aggregated[s] =~= m.aggregated[s].subrange(0, m.aggregated[s].len() as int));
            }
        },
    }
}

/// The last `count` elements (all of them when there are fewer).
pub open spec fn last_n<T>(s: Seq<T>, count: int) -> Seq<T> {
    if s.len() > count {
        s.subrange(s.len() - count, s.len() as int)
    } else {
        s
    }
}

/// Aggregates 1-minute bars into the higher timeframes.
pub struct KlineAggregator {
    klines_1m: Vec<OHLCData>,
    aggregated: Vec<Vec<OHLCData>>,
    current_candles: Vec<Option<OHLCData>>,
}

impl View for KlineAggregator {
    type V = AggregatorModel;

    closed spec fn view(&self) -> AggregatorModel {
        AggregatorModel {
            klines_1m: self.klines_1m@,
            aggregated: self.aggregated@.map_values(|v: Vec<OHLCData>| v@),
            current: self.current_candles@,
        }
    }
}

/// A copy of a run of bars.
fn copy_bars(bars: &[OHLCData], start: usize, end: usize, out: &mut Vec<OHLCData>)
    requires
        start <= end <= bars@.len(),
    ensures
        final(out)@ == old(out)@ + bars@.subrange(start as int, end as int),
{
    let ghost init = out@;
    let mut i = start;
    while i < end
        invariant
            start <= i <= end <= bars@.len(),
            out@ == init + bars@.subrange(start as int, i as int),
        decreases end - i,
    {
        out.push(bars[i].duplicate());
        proof {
            assert(bars@.subrange(start as int, (i + 1) as int) =~= bars@.subrange(
                start as int,
                i as int,
            ).push(bars@[i as int]));
        }
        i = i + 1;
    }
}

impl KlineAggregator {
    /// An empty aggregator.
    pub fn new() -> (r: KlineAggregator)
        ensures
            r@.wf(),
            r@.klines_1m.len() == 0,
            forall|s: int| 0 <= s < slot_count() ==> r@.aggregated[s].len() == 0 && r@.current[s] is None,
    {
        let mut aggregated: Vec<Vec<OHLCData>> = Vec::new();
        let mut current_candles: Vec<Option<OHLCData>> = Vec::new();
        let mut i: usize = 0;
        while i < 6
            invariant
                i <= 6,
                aggregated@.len() == i,
                current_candles@.len() == i,
                forall|s: int| 0 <= s < i ==> aggregated@[s]@.len() == 0 && current_candles@[s] is None,
            decreases 6 - i,
        {
            aggregated.push(Vec::new());
            current_candles.push(None);
            i = i + 1;
        }
        KlineAggregator { klines_1m: Vec::new(), aggregated, current_candles }
    }

    /// The aggregator's contents.
    pub fn default() -> (r: KlineAggregator)
        ensures
            r@.wf(),
            r@.klines_1m.len() == 0,
            forall|s: int| 0 <= s < slot_count() ==> r@.aggregated[s].len() == 0 && r@.current[s] is None,
    {
        KlineAggregator::new()
    }

    /// Feeds the 1-minute bar into slot `slot`.
    fn update_timeframe(&mut self, slot: usize, kline_1m: &OHLCData)
        requires
            old(self)@.wf(),
            slot < 6,
            valid_timestamp(kline_1m.timestamp as int),
            old(self)@.slot_update_ok(slot as int, *kline_1m),
        ensures
            final(self)@.wf(),
            final(self)@.klines_1m == old(self)@.klines_1m,
            final(self)@.aggregated == old(self)@.aggregated.update(
                slot as int,
                old(self)@.slot_completed_after(slot as int, *kline_1m),
            ),
            final(self)@.current == old(self)@.current.update(
                slot as int,
                Some(old(self)@.slot_current_after(slot as int, *kline_1m)),
            ),
    {
        let timeframe = slot_tf(slot);
        let window_start = timeframe.align_timestamp(kline_1m.timestamp);
        let fresh = OHLCData::new(
            window_start,
            kline_1m.symbol.clone(),
            timeframe,
            kline_1m.open,
            kline_1m.high,
            kline_1m.low,
            kline_1m.close,
            kline_1m.volume,
            kline_1m.trade_count,
        );
        let current: Option<OHLCData> = match &self.current_candles[slot] {
            Some(c) => Some(c.duplicate()),
            None => None,
        };
        match current {
            Some(candle) => {
                if candle.timestamp != window_start {
                    let mut bars: Vec<OHLCData> = Vec::new();
                    self.aggregated.set_and_swap(slot, &mut bars);
                    bars.push(candle);
                    self.aggregated.set(slot, bars);
                    self.current_candles.set(slot, Some(fresh));
                } else {
                    let merged = OHLCData {
                        timestamp: candle.timestamp,
                        symbol: candle.symbol,
                        timeframe: candle.timeframe,
                        open: candle.open,
                        high: candle.high.max(kline_1m.high),
                        low: candle.low.min(kline_1m.low),
                        close: kline_1m.close,
                        volume: candle.volume.add(kline_1m.volume),
                        trade_count: candle.trade_count + kline_1m.trade_count,
                    };
                    self.current_candles.set(slot, Some(merged));
                }
            },
            None => {
                self.current_candles.set(slot, Some(fresh));
            },
        }
        proof {
            assert(self@.aggregated =~= old(self)@.aggregated.update(
                slot as int,
                old(self)@.slot_completed_after(slot as int, *kline_1m),
            ));
        }
    }
}

impl KlineAggregator {
    /// Stores the 1-minute bar and feeds it to every aggregated timeframe: a bar whose window
    /// differs from the bar being formed completes that bar and opens a new one; otherwise it is
    /// merged in (higher high, lower low, its close, volumes and trade counts added).
    pub fn update(&mut self, kline_1m: OHLCData)
        requires
            old(self)@.wf(),
            old(self)@.update_ok(kline_1m),
        ensures
            final(self)@.wf(),
            final(self)@ == old(self)@.after_update(kline_1m),
    {
        let ghost start = self@;
        self.klines_1m.push(kline_1m.duplicate());
        let mut slot: usize = 0;
        while slot < 6
            invariant
                self@.wf(),
                start.wf(),
                start.update_ok(kline_1m),
                slot <= 6,
                self@.klines_1m == start.klines_1m.push(kline_1m),
                forall|s: int| slot <= s < 6 ==> self@.aggregated[s] == start.aggregated[s]
                    && self@.current[s] == start.current[s],
                forall|s: int| 0 <= s < slot ==> #[trigger] self@.aggregated[s] == start.slot_completed_after(s, kline_1m),
                forall|s: int| 0 <= s < slot ==> #[trigger] self@.current[s] == Some(start.slot_current_after(s, kline_1m)),
            decreases 6 - slot,
        {
            proof {
                assert(start.slot_update_ok(slot as int, kline_1m));
            }
            self.update_timeframe(slot, &kline_1m);
            slot = slot + 1;
        }
        proof {
            assert(self@.aggregated =~= start.after_update(kline_1m).aggregated);
            assert forall|s: int| 0 <= s < 6 implies self@.current[s] == start.after_update(
                kline_1m,
            ).current[s] by {
                assert(self@.current[s] == Some(start.slot_current_after(s, kline_1m)));
            }
            assert(self@.current =~= start.after_update(kline_1m).current);
        }
    }

    /// The latest `count` bars of the timeframe: the completed ones followed by the one being
    /// formed (the stored 1-minute bars for 1m; none for a timeframe that is not aggregated).
    pub fn get_klines(&self, timeframe: Timeframe, count: usize) -> (r: Vec<OHLCData>)
        requires
            self@.wf(),
        ensures
            r@ == last_n(self@.bars_of(timeframe), count as int),
    {
        if timeframe == Timeframe::OneMinute {
            return self.get_klines_1m(count);
        }
        let mut result: Vec<OHLCData> = Vec::new();
        match slot_index(timeframe) {
            Some(slot) => {
                let done = &self.aggregated[slot];
                let n = done.len();
                let mut all: Vec<OHLCData> = Vec::new();
                copy_bars(done.as_slice(), 0, n, &mut all);
                match &self.current_candles[slot] {
                    Some(c) => {
                        all.push(c.duplicate());
                    },
                    None => {},
                }
                proof {
                    assert(done@.subrange(0, n as int) =~= done@);
                    assert(self@.aggregated[slot as int] == done@);
                }
                let total = all.len();
                let begin = if total > count {
                    total - count
                } else {
                    0
                };
                copy_bars(all.as_slice(), begin, total, &mut result);
                proof {
                    assert(all@.subrange(0, total as int) =~= all@);
                }
            },
            None => {},
        }
        result
    }

    /// The latest bars of each of 1m (100), 5m, 15m, 30m, 1h, 4h (50 each) and 1d (30), in that
    /// order.
    pub fn get_all_timeframes(&self) -> (r: Vec<(Timeframe, Vec<OHLCData>)>)
        requires
            self@.wf(),
        ensures
            r@.len() == 7,
            forall|i: int|
                0 <= i < 7 ==> (#[trigger] r@[i]).0 == all_timeframes_order(i) && r@[i].1@ == last_n(
                    self@.bars_of(all_timeframes_order(i)),
                    all_timeframes_count(i),
                ),
    {
        let mut result: Vec<(Timeframe, Vec<OHLCData>)> = Vec::new();
        let mut i: usize = 0;
        while i < 7
            invariant
                self@.wf(),
                i <= 7,
                result@.len() == i,
                forall|j: int|
                    0 <= j < i ==> (#[trigger] result@[j]).0 == all_timeframes_order(j)
                        && result@[j].1@ == last_n(
                        self@.bars_of(all_timeframes_order(j)),
                        all_timeframes_count(j),
                    ),
            decreases 7 - i,
        {
            let (tf, count) = all_timeframes_entry(i);
            result.push((tf, self.get_klines(tf, count)));
            i = i + 1;
        }
        result
    }

    /// The latest `count` stored 1-minute bars.
    pub fn get_klines_1m(&self, count: usize) -> (r: Vec<OHLCData>)
        ensures
            r@ == last_n(self@.klines_1m, count as int),
    {
        let n = self.klines_1m.len();
        let start = if n > count {
            n - count
        } else {
            0
        };
        let mut out: Vec<OHLCData> = Vec::new();
        copy_bars(self.klines_1m.as_slice(), start, n, &mut out);
        proof {
            assert(self@.klines_1m.subrange(0, n as int) =~= self@.klines_1m);
        }
        out
    }

    /// Drops every bar.
    pub fn clear(&mut self)
        requires
            old(self)@.wf(),
        ensures
            final(self)@.wf(),
            final(self)@.klines_1m.len() == 0,
            forall|s: int| 0 <= s < slot_count() ==> final(self)@.aggregated[s].len() == 0
                && final(self)@.current[s] is None,
    {
        *self = KlineAggregator::new();
    }

    /// The number of completed bars of the timeframe.
    pub fn count(&self, timeframe: Timeframe) -> (r: usize)
        requires
            self@.wf(),
        ensures
            r == self@.count_of(timeframe),
    {
        match slot_index(timeframe) {
            Some(slot) => self.aggregated[slot].len(),
            None => 0,
        }
    }
}

/// The timeframes that `get_all_timeframes` reports, in order.
pub open spec fn all_timeframes_order(i: int) -> Timeframe {
    if i == 0 {
        Timeframe::OneMinute
    } else if i == 1 {
        Timeframe::FiveMinutes
    } else if i == 2 {
        Timeframe::FifteenMinutes
    } else if i == 3 {
        Timeframe::ThirtyMinutes
    } else if i == 4 {
        Timeframe::OneHour
    } else if i == 5 {
        Timeframe::FourHour
    } else {
        Timeframe::OneDay
    }
}

/// How many bars `get_all_timeframes` reports for each of its timeframes.
pub open spec fn all_timeframes_count(i: int) -> int {
    if i == 0 {
        100
    } else if i == 6 {
        30
    } else {
        50
    }
}

fn all_timeframes_entry(i: usize) -> (r: (Timeframe, usize))
    requires
        i < 7,
    ensures
        r.0 == all_timeframes_order(i as int),
        r.1 == all_timeframes_count(i as int),
{
    if i == 0 {
        (Timeframe::OneMinute, 100)
    } else if i == 1 {
        (Timeframe::FiveMinutes, 50)
    } else if i == 2 {
        (Timeframe::FifteenMinutes, 50)
    } else if i == 3 {
        (Timeframe::ThirtyMinutes, 50)
    } else if i == 4 {
        (Timeframe::OneHour, 50)
    } else if i == 5 {
        (Timeframe::FourHour, 50)
    } else {
        (Timeframe::OneDay, 30)
    }
}


impl KlineAggregator {
    /// Whether feeding the 1-minute bar overflows nothing: its timestamp is in range and no
    /// merge overflows the volume or the trade count.
    pub fn can_update(&self, kline_1m: &OHLCData) -> (r: bool)
        requires
            self@.wf(),
        ensures
            r == self@.update_ok(*kline_1m),
    {
        let ts = kline_1m.timestamp;
        if ts < -8_000_000_000_000_000 || ts > 8_000_000_000_000_000 {
            return false;
        }
        let mut slot: usize = 0;
        while slot < 6
            invariant
                self@.wf(),
                valid_timestamp(kline_1m.timestamp as int),
                ts == kline_1m.timestamp,
                slot <= 6,
                forall|s: int| 0 <= s < slot ==> #[trigger] self@.slot_update_ok(s, *kline_1m),
            decreases 6 - slot,
        {
            let start = slot_tf(slot).align_timestamp(ts);
            match &self.current_candles[slot] {
                Some(c) => {
                    if c.timestamp == start {
                        let volume_ok = c.volume.checked_add(kline_1m.volume).is_some();
                        let count_ok = c.trade_count <= u64::MAX - kline_1m.trade_count;
                        if !(volume_ok && count_ok) {
                            proof {
                                assert(self@.current[slot as int] == self.current_candles@[slot as int]);
                                assert(!self@.slot_update_ok(slot as int, *kline_1m));
                            }
                            return false;
                        }
                    }
                },
                None => {},
            }
            proof {
                assert(self@.current[slot as int] == self.current_candles@[slot as int]);
            }
            slot = slot + 1;
        }
        true
    }
}

} // verus!
