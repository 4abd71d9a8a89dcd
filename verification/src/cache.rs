//! Recent ticks per symbol: the in-memory cache, and the key and symbol logic of the
//! Redis-backed and tiered caches.
//!
//! The in-memory cache keeps, for each symbol, at most `max_ticks_per_symbol` of the latest
//! ticks, oldest first, and hands them out latest first. Symbols are kept in the order they
//! were first cached.
use crate::text::str_eq;
use crate::types::TickData;
use vstd::prelude::*;
use vstd::string::{StrSliceExecFns, StringExecFns};

verus! {

/// A reading of the monotonic clock.
#[verifier::external_type_specification]
#[verifier::external_body]
pub struct ExInstant(std::time::Instant);

/// Calls `Instant::now`. Nothing is claimed of the reading.
#[verifier::external_body]
fn instant_now() -> (r: std::time::Instant) {
    std::time::Instant::now()
}

/// Calls `Instant::elapsed`. Nothing is claimed: it depends on the clock.
#[verifier::external_body]
fn elapsed_since(t: &std::time::Instant) -> (r: std::time::Duration) {
    t.elapsed()
}

/// What `Duration::from_secs` returns for the number of seconds.
pub uninterp spec fn duration_of_secs(secs: u64) -> std::time::Duration;

/// Calls `Duration::from_secs`. Claimed: the result is the named value, the same for the same
/// number of seconds.
#[verifier::external_body]
fn duration_from_secs(secs: u64) -> (r: std::time::Duration)
    ensures
        r == duration_of_secs(secs),
{
    std::time::Duration::from_secs(secs)
}

/// Calls `>` on two durations. Nothing is claimed of the opaque values.
#[verifier::external_body]
fn duration_longer(a: &std::time::Duration, b: &std::time::Duration) -> (r: bool) {
    *a > *b
}

/// The ticks of one symbol, oldest first, with when they were last read and written.
pub struct MemoryCacheEntry {
    pub ticks: Vec<TickData>,
    pub last_access: std::time::Instant,
    pub last_update: std::time::Instant,
}

/// The last `max` of the ticks (all of them when there are no more than `max`).
pub open spec fn keep_newest(s: Seq<TickData>, max: nat) -> Seq<TickData> {
    if s.len() > max {
        s.subrange(s.len() - max, s.len() as int)
    } else {
        s
    }
}

/// The first `limit` ticks of the list read from its end: the latest first.
pub open spec fn newest_first(s: Seq<TickData>, limit: nat) -> Seq<TickData> {
    let n = if limit < s.len() {
        limit
    } else {
        s.len()
    };
    Seq::new(n, |i: int| s[s.len() - 1 - i])
}

impl MemoryCacheEntry {
    /// An entry with no ticks.
    pub fn new() -> (r: MemoryCacheEntry)
        ensures
            r.ticks@.len() == 0,
    {
        let now = instant_now();
        MemoryCacheEntry { ticks: Vec::new(), last_access: now, last_update: instant_now() }
    }

    /// Appends the tick and drops the oldest ticks beyond `max_size`.
    pub fn push_tick(&mut self, tick: TickData, max_size: usize)
        ensures
            final(self).ticks@ == keep_newest(old(self).ticks@.push(tick), max_size as nat),
    {
        self.ticks.push(tick);
        self.last_update = instant_now();
        let ghost pushed = self.ticks@;
        while self.ticks.len() > max_size
            invariant
                pushed.len() >= self.ticks@.len(),
                self.ticks@ == pushed.subrange(pushed.len() - self.ticks@.len(), pushed.len() as int),
                self.ticks@.len() >= max_size || self.ticks@ == pushed,
            decreases self.ticks@.len(),
        {
            self.ticks.remove(0);
        }
        proof {
            if pushed.len() <= max_size {
                assert(self.ticks@ == pushed);
            } else {
                assert(self.ticks@.len() == max_size);
            }
        }
    }

    /// Up to `limit` ticks, latest first.
    pub fn get_recent(&mut self, limit: usize) -> (r: Vec<TickData>)
        ensures
            r@ == newest_first(old(self).ticks@, limit as nat),
            final(self).ticks@ == old(self).ticks@,
    {
        self.last_access = instant_now();
        let n = self.ticks.len();
        let mut out: Vec<TickData> = Vec::new();
        let mut i: usize = 0;
        while i < n && i < limit
            invariant
                n == self.ticks@.len(),
                i <= n,
                i <= limit,
                out@.len() == i,
                forall|j: int| 0 <= j < i ==> out@[j] == self.ticks@[n - 1 - j],
            decreases n - i,
        {
            out.push(self.ticks[n - 1 - i].duplicate());
            i = i + 1;
        }
        assert(out@ =~= newest_first(self.ticks@, limit as nat));
        out
    }

    /// Whether the entry was last read longer than `ttl` ago (read from the clock).
    pub fn is_expired(&self, ttl: &std::time::Duration) -> bool {
        let e = elapsed_since(&self.last_access);
        duration_longer(&e, ttl)
    }
}

/// The symbols and their ticks, oldest first, in the order the symbols were first cached.
pub open spec fn entries_view(entries: Seq<(String, MemoryCacheEntry)>) -> Seq<(Seq<char>, Seq<TickData>)> {
    entries.map_values(|e: (String, MemoryCacheEntry)| (e.0@, e.1.ticks@))
}

/// Where the symbol is in the cache's list, if it is there.
pub open spec fn find_symbol(v: Seq<(Seq<char>, Seq<TickData>)>, symbol: Seq<char>) -> Option<int> {
    if exists|i: int| 0 <= i < v.len() && (#[trigger] v[i]).0 == symbol {
        Some(choose|i: int| 0 <= i < v.len() && (#[trigger] v[i]).0 == symbol)
    } else {
        None
    }
}

/// The ticks the cache holds for the symbol, oldest first (none for a symbol it lacks).
pub open spec fn ticks_of(v: Seq<(Seq<char>, Seq<TickData>)>, symbol: Seq<char>) -> Seq<TickData> {
    match find_symbol(v, symbol) {
        Some(i) => v[i].1,
        None => Seq::empty(),
    }
}

/// The cache's contents after a tick is pushed: the tick is appended to its symbol's list
/// (a new list at the end for a new symbol), and the oldest beyond `max` are dropped.
pub open spec fn pushed(v: Seq<(Seq<char>, Seq<TickData>)>, tick: TickData, max: nat) -> Seq<(Seq<char>, Seq<TickData>)> {
    match find_symbol(v, tick.symbol@) {
        Some(i) => v.update(i, (tick.symbol@, keep_newest(v[i].1.push(tick), max))),
        None => v.push((tick.symbol@, keep_newest(seq![tick], max))),
    }
}

/// The cache's contents with the symbol removed.
pub open spec fn without(v: Seq<(Seq<char>, Seq<TickData>)>, symbol: Seq<char>) -> Seq<(Seq<char>, Seq<TickData>)> {
    match find_symbol(v, symbol) {
        Some(i) => v.remove(i),
        None => v,
    }
}

/// Whether no symbol occurs twice and no symbol holds more than `max` ticks.
pub open spec fn cache_wf(v: Seq<(Seq<char>, Seq<TickData>)>, max: nat) -> bool {
    &&& forall|i: int, j: int| 0 <= i < j < v.len() ==> (#[trigger] v[i]).0 != (#[trigger] v[j]).0
    &&& forall|i: int| 0 <= i < v.len() ==> (#[trigger] v[i]).1.len() <= max
}

/// An in-memory cache of the latest ticks of each symbol.
pub struct InMemoryTickCache {
    pub entries: Vec<(String, MemoryCacheEntry)>,
    pub max_ticks_per_symbol: usize,
    /// How long an entry may go unread before `cleanup_expired` drops it.
    pub ttl: std::time::Duration,
}

impl View for InMemoryTickCache {
    type V = Seq<(Seq<char>, Seq<TickData>)>;

    open spec fn view(&self) -> Seq<(Seq<char>, Seq<TickData>)> {
        entries_view(self.entries@)
    }
}

impl InMemoryTickCache {
    /// Whether the cache is consistent: each symbol once, each within the limit.
    pub open spec fn wf(&self) -> bool {
        cache_wf(self@, self.max_ticks_per_symbol as nat)
    }

    /// An empty cache keeping at most `max_ticks_per_symbol` ticks per symbol, and dropping
    /// entries unread for `ttl_seconds` when cleaned up.
    pub fn new(max_ticks_per_symbol: usize, ttl_seconds: u64) -> (r: InMemoryTickCache)
        ensures
            r.wf(),
            r@.len() == 0,
            r.max_ticks_per_symbol == max_ticks_per_symbol,
            r.ttl == duration_of_secs(ttl_seconds),
    {
        let r = InMemoryTickCache {
            entries: Vec::new(),
            max_ticks_per_symbol,
            ttl: duration_from_secs(ttl_seconds),
        };
        assert(r@ =~= Seq::<(Seq<char>, Seq<TickData>)>::empty());
        r
    }

    /// Where the symbol's entry is, if the cache has one.
    fn position_of(&self, symbol: &str) -> (r: Option<usize>)
        requires
            self.wf(),
        ensures
            r matches Some(i) ==> find_symbol(self@, symbol@) == Some(i as int),
            r is None ==> find_symbol(self@, symbol@) is None,
    {
        let mut i: usize = 0;
        while i < self.entries.len()
            invariant
                self.wf(),
                i <= self.entries@.len(),
                forall|j: int| 0 <= j < i ==> (#[trigger] self@[j]).0 != symbol@,
            decreases self.entries@.len() - i,
        {
            if str_eq(self.entries[i].0.as_str(), symbol) {
                proof {
                    assert(self@[i as int].0 == symbol@);
                    let k = choose|k: int| 0 <= k < self@.len() && (#[trigger] self@[k]).0 == symbol@;
                    assert(self@[k].0 == self@[i as int].0);
                    if k < i {
                        assert(self@[k].0 != self@[i as int].0);
                    } else if k > i {
                        assert(self@[i as int].0 != self@[k].0);
                    }
                }
                return Some(i);
            }
            i = i + 1;
        }
        proof {
            assert(!(exists|k: int| 0 <= k < self@.len() && (#[trigger] self@[k]).0 == symbol@));
        }
        None
    }

    /// Adds the tick to its symbol's list, dropping the oldest beyond the limit.
    pub fn push_tick(&mut self, tick: &TickData)
        requires
            old(self).wf(),
        ensures
            final(self).ttl == old(self).ttl,
            final(self).wf(),
            final(self).max_ticks_per_symbol == old(self).max_ticks_per_symbol,
            final(self)@ == pushed(old(self)@, *tick, old(self).max_ticks_per_symbol as nat),
    {
        let max = self.max_ticks_per_symbol;
        let ghost v0 = self@;
        match self.position_of(tick.symbol.as_str()) {
            Some(i) => {
                let (key, mut entry) = self.entries.remove(i);
                entry.push_tick(tick.duplicate(), max);
                self.entries.insert(i, (key, entry));
                proof {
                    assert(self@ =~= v0.update(i as int, (tick.symbol@, keep_newest(v0[i as int].1.push(*tick), max as nat))));
                    assert forall|a: int, b: int| 0 <= a < b < self@.len() implies (#[trigger] self@[a]).0 != (#[trigger] self@[b]).0 by {
                        assert(v0[a].0 != v0[b].0);
                    }
                    assert forall|a: int| 0 <= a < self@.len() implies (#[trigger] self@[a]).1.len() <= max by {
                        if a != i {
                            assert(v0[a].1.len() <= max);
                        }
                    }
                }
            },
            None => {
                let mut entry = MemoryCacheEntry::new();
                entry.push_tick(tick.duplicate(), max);
                let ghost e0 = self.entries@;
                let ghost t0 = entry.ticks@;
                self.entries.push((tick.symbol.clone(), entry));
                proof {
                    assert(self.entries@ == e0.push((tick.symbol, entry)));
                    assert(Seq::<TickData>::empty().push(*tick) =~= seq![*tick]);
                    assert(t0 == keep_newest(seq![*tick], max as nat));
                    assert(self@[v0.len() as int] == (tick.symbol@, t0));
                    assert(self@ =~= v0.push((tick.symbol@, keep_newest(seq![*tick], max as nat))));
                    assert forall|a: int, b: int| 0 <= a < b < self@.len() implies (#[trigger] self@[a]).0 != (#[trigger] self@[b]).0 by {
                        if b < v0.len() {
                            assert(v0[a].0 != v0[b].0);
                        } else {
                            assert(v0[a].0 != tick.symbol@);
                        }
                    }
                    assert forall|a: int| 0 <= a < self@.len() implies (#[trigger] self@[a]).1.len() <= max by {
                        if a < v0.len() {
                            assert(v0[a].1.len() <= max);
                        }
                    }
                }
            },
        }
    }

    /// Up to `limit` of the symbol's ticks, latest first (none for a symbol not cached).
    pub fn get_recent_ticks(&mut self, symbol: &str, limit: usize) -> (r: Vec<TickData>)
        requires
            old(self).wf(),
        ensures
            final(self).ttl == old(self).ttl,
            final(self).wf(),
            final(self)@ == old(self)@,
            final(self).max_ticks_per_symbol == old(self).max_ticks_per_symbol,
            r@ == newest_first(ticks_of(old(self)@, symbol@), limit as nat),
    {
        let ghost v0 = self@;
        match self.position_of(symbol) {
            Some(i) => {
                let (key, mut entry) = self.entries.remove(i);
                let ticks = entry.get_recent(limit);
                self.entries.insert(i, (key, entry));
                proof {
                    assert(self@ =~= v0);
                }
                ticks
            },
            None => {
                assert(newest_first(Seq::<TickData>::empty(), limit as nat) =~= Seq::<TickData>::empty());
                Vec::new()
            },
        }
    }

    /// The cached symbols, in the order they were first cached.
    pub fn get_symbols(&self) -> (r: Vec<String>)
        ensures
            r@.len() == self@.len(),
            forall|i: int| 0 <= i < r@.len() ==> (#[trigger] r@[i])@ == self@[i].0,
    {
        let mut out: Vec<String> = Vec::new();
        let mut i: usize = 0;
        while i < self.entries.len()
            invariant
                i <= self.entries@.len(),
                out@.len() == i,
                forall|j: int| 0 <= j < i ==> (#[trigger] out@[j])@ == self@[j].0,
            decreases self.entries@.len() - i,
        {
            out.push(self.entries[i].0.clone());
            i = i + 1;
        }
        out
    }

    /// Drops the symbol's ticks.
    pub fn clear_symbol(&mut self, symbol: &str)
        requires
            old(self).wf(),
        ensures
            final(self).ttl == old(self).ttl,
            final(self).wf(),
            final(self).max_ticks_per_symbol == old(self).max_ticks_per_symbol,
            final(self)@ == without(old(self)@, symbol@),
    {
        let ghost v0 = self@;
        match self.position_of(symbol) {
            Some(i) => {
                self.entries.remove(i);
                proof {
                    assert(self@ =~= v0.remove(i as int));
                    assert forall|a: int, b: int| 0 <= a < b < self@.len() implies (#[trigger] self@[a]).0 != (#[trigger] self@[b]).0 by {
                        let a0 = if a < i { a } else { a + 1 };
                        let b0 = if b < i { b } else { b + 1 };
                        assert(v0[a0].0 != v0[b0].0);
                    }
                    assert forall|a: int| 0 <= a < self@.len() implies (#[trigger] self@[a]).1.len() <= self.max_ticks_per_symbol by {
                        let a0 = if a < i { a } else { a + 1 };
                        assert(v0[a0].1.len() <= self.max_ticks_per_symbol);
                    }
                }
            },
            None => {},
        }
    }

    /// Drops every symbol.
    pub fn clear_all(&mut self)
        ensures
            final(self).ttl == old(self).ttl,
            final(self).wf(),
            final(self)@.len() == 0,
            final(self).max_ticks_per_symbol == old(self).max_ticks_per_symbol,
    {
        self.entries.clear();
        assert(self@ =~= Seq::<(Seq<char>, Seq<TickData>)>::empty());
    }

    /// Drops the entries the flags mark, keeping the others in order.
    pub fn remove_flagged(&mut self, expired: &Vec<bool>)
        requires
            old(self).wf(),
            expired@.len() == old(self)@.len(),
        ensures
            final(self).ttl == old(self).ttl,
            final(self).wf(),
            final(self).max_ticks_per_symbol == old(self).max_ticks_per_symbol,
            final(self)@ == kept_entries(old(self)@, expired@),
    {
        let ghost v0 = self@;
        let mut i: usize = self.entries.len();
        proof {
            assert(v0.take(i as int) =~= v0);
            assert(v0.skip(i as int) =~= Seq::<(Seq<char>, Seq<TickData>)>::empty());
            assert(v0.take(i as int) + kept_entries(v0.skip(i as int), expired@.skip(i as int)) =~= v0);
        }
        while i > 0
            invariant
                i <= v0.len(),
                v0.len() == expired@.len(),
                self.entries@.len() >= i,
                self.max_ticks_per_symbol == old(self).max_ticks_per_symbol,
                self.ttl == old(self).ttl,
                self@ == v0.take(i as int) + kept_entries(v0.skip(i as int), expired@.skip(i as int)),
            decreases i,
        {
            let ghost before = self@;
            proof {
                assert(v0.skip(i - 1).drop_first() =~= v0.skip(i as int));
                assert(expired@.skip(i - 1).drop_first() =~= expired@.skip(i as int));
                assert(v0.skip(i - 1)[0] == v0[i - 1]);
                assert(expired@.skip(i - 1)[0] == expired@[i - 1]);
            }
            if expired[i - 1] {
                self.entries.remove(i - 1);
                proof {
                    assert(self@ =~= before.remove(i - 1));
                    assert(self@ =~= v0.take(i - 1) + kept_entries(v0.skip(i - 1), expired@.skip(i - 1)));
                }
            } else {
                proof {
                    assert(v0.take(i as int) =~= v0.take(i - 1).push(v0[i - 1]));
                    assert(self@ =~= v0.take(i - 1) + kept_entries(v0.skip(i - 1), expired@.skip(i - 1)));
                }
            }
            i = i - 1;
        }
        proof {
            assert(v0.take(0) + kept_entries(v0.skip(0), expired@.skip(0)) =~= kept_entries(v0, expired@)) by {
                assert(v0.skip(0) =~= v0);
                assert(expired@.skip(0) =~= expired@);
            }
            lemma_kept_entries(v0, expired@, self.max_ticks_per_symbol as nat);
        }
    }

    /// Drops the entries unread for longer than the time to live (read from the clock).
    pub fn cleanup_expired(&mut self)
        requires
            old(self).wf(),
        ensures
            final(self).ttl == old(self).ttl,
            final(self).wf(),
            final(self).max_ticks_per_symbol == old(self).max_ticks_per_symbol,
            exists|expired: Seq<bool>|
                expired.len() == old(self)@.len() && final(self)@ == kept_entries(old(self)@, expired),
    {
        let mut flags: Vec<bool> = Vec::new();
        let mut i: usize = 0;
        while i < self.entries.len()
            invariant
                i <= self.entries@.len(),
                flags@.len() == i,
            decreases self.entries@.len() - i,
        {
            let expired = self.entries[i].1.is_expired(&self.ttl);
            flags.push(expired);
            i = i + 1;
        }
        self.remove_flagged(&flags);
    }

    /// Pushes each of the ticks, in order (as the tiered cache fills its memory layer).
    pub fn backfill(&mut self, ticks: &Vec<TickData>)
        requires
            old(self).wf(),
        ensures
            final(self).ttl == old(self).ttl,
            final(self).wf(),
            final(self).max_ticks_per_symbol == old(self).max_ticks_per_symbol,
            final(self)@ == pushed_all(old(self)@, ticks@, old(self).max_ticks_per_symbol as nat),
    {
        let ghost v0 = self@;
        let mut i: usize = 0;
        while i < ticks.len()
            invariant
                i <= ticks@.len(),
                self.wf(),
                self.max_ticks_per_symbol == old(self).max_ticks_per_symbol,
                self.ttl == old(self).ttl,
                self@ == pushed_all(v0, ticks@.take(i as int), self.max_ticks_per_symbol as nat),
            decreases ticks@.len() - i,
        {
            self.push_tick(&ticks[i]);
            proof {
                assert(ticks@.take(i as int + 1).drop_last() =~= ticks@.take(i as int));
            }
            i = i + 1;
        }
        assert(ticks@.take(ticks@.len() as int) =~= ticks@);
    }
}

/// The entries whose flag is false, in order.
pub open spec fn kept_entries(v: Seq<(Seq<char>, Seq<TickData>)>, expired: Seq<bool>) -> Seq<(Seq<char>, Seq<TickData>)>
    decreases v.len(),
{
    if v.len() == 0 {
        v
    } else if expired[0] {
        kept_entries(v.drop_first(), expired.drop_first())
    } else {
        seq![v[0]] + kept_entries(v.drop_first(), expired.drop_first())
    }
}

/// The cache's contents after pushing each of the ticks in order.
pub open spec fn pushed_all(v: Seq<(Seq<char>, Seq<TickData>)>, ticks: Seq<TickData>, max: nat) -> Seq<(Seq<char>, Seq<TickData>)>
    decreases ticks.len(),
{
    if ticks.len() == 0 {
        v
    } else {
        pushed(pushed_all(v, ticks.drop_last(), max), ticks.last(), max)
    }
}

/// Every kept entry was an entry before, and keeping some of a consistent cache's entries
/// leaves it consistent.
proof fn lemma_kept_entries(v: Seq<(Seq<char>, Seq<TickData>)>, expired: Seq<bool>, max: nat)
    ensures
        forall|k: int|
            0 <= k < kept_entries(v, expired).len() ==> exists|j: int|
                0 <= j < v.len() && v[j] == #[trigger] kept_entries(v, expired)[k],
        cache_wf(v, max) ==> cache_wf(kept_entries(v, expired), max),
    decreases v.len(),
{
    if v.len() > 0 {
        let rest = v.drop_first();
        lemma_kept_entries(rest, expired.drop_first(), max);
        let kr = kept_entries(rest, expired.drop_first());
        let k = kept_entries(v, expired);
        assert forall|a: int| 0 <= a < kr.len() implies exists|j: int| 0 <= j < v.len() && v[j] == #[trigger] kr[a] by {
            let j = choose|j: int| 0 <= j < rest.len() && rest[j] == kr[a];
            assert(v[j + 1] == kr[a]);
        }
        if !expired[0] {
            assert forall|a: int| 0 <= a < k.len() implies exists|j: int| 0 <= j < v.len() && v[j] == #[trigger] k[a] by {
                if a == 0 {
                    assert(v[0] == k[0]);
                } else {
                    assert(k[a] == kr[a - 1]);
                }
            }
            if cache_wf(v, max) {
                assert(cache_wf(rest, max)) by {
                    assert forall|a: int, b: int| 0 <= a < b < rest.len() implies (#[trigger] rest[a]).0 != (#[trigger] rest[b]).0 by {
                        assert(v[a + 1].0 != v[b + 1].0);
                    }
                    assert forall|a: int| 0 <= a < rest.len() implies (#[trigger] rest[a]).1.len() <= max by {
                        assert(v[a + 1].1.len() <= max);
                    }
                }
                assert forall|a: int, b: int| 0 <= a < b < k.len() implies (#[trigger] k[a]).0 != (#[trigger] k[b]).0 by {
                    if a == 0 {
                        let j = choose|j: int| 0 <= j < v.len() && v[j] == #[trigger] kr[b - 1];
                        assert(k[b] == kr[b - 1]);
                        assert(j != 0) by {
                            let jr = choose|jr: int| 0 <= jr < rest.len() && rest[jr] == #[trigger] kr[b - 1];
                            assert(v[jr + 1] == kr[b - 1]);
                            assert(v[0].0 != v[jr + 1].0);
                        }
                        assert(v[0].0 != v[j].0);
                    } else {
                        assert(k[a] == kr[a - 1]);
                        assert(k[b] == kr[b - 1]);
                    }
                }
                assert forall|a: int| 0 <= a < k.len() implies (#[trigger] k[a]).1.len() <= max by {
                    if a == 0 {
                        assert(v[0].1.len() <= max);
                    } else {
                        assert(k[a] == kr[a - 1]);
                    }
                }
            }
        } else {
            if cache_wf(v, max) {
                assert forall|a: int, b: int| 0 <= a < b < rest.len() implies (#[trigger] rest[a]).0 != (#[trigger] rest[b]).0 by {
                    assert(v[a + 1].0 != v[b + 1].0);
                }
                assert forall|a: int| 0 <= a < rest.len() implies (#[trigger] rest[a]).1.len() <= max by {
                    assert(v[a + 1].1.len() <= max);
                }
            }
        }
    }
}

/// In a consistent cache, the symbol is found exactly where its key is.
proof fn lemma_find_at(v: Seq<(Seq<char>, Seq<TickData>)>, max: nat, i: int)
    requires
        cache_wf(v, max),
        0 <= i < v.len(),
    ensures
        find_symbol(v, v[i].0) == Some(i),
{
    let k = choose|k: int| 0 <= k < v.len() && (#[trigger] v[k]).0 == v[i].0;
    if k < i {
        assert(v[k].0 != v[i].0);
    } else if k > i {
        assert(v[i].0 != v[k].0);
    }
}

/// A tick just pushed is the latest tick of its symbol: reading one recent tick of that
/// symbol gives it back (when the cache keeps at least one tick per symbol).
pub proof fn lemma_push_then_recent(v: Seq<(Seq<char>, Seq<TickData>)>, tick: TickData, max: nat)
    requires
        cache_wf(v, max),
        max >= 1,
    ensures
        newest_first(ticks_of(pushed(v, tick, max), tick.symbol@), 1) == seq![tick],
{
    let p = pushed(v, tick, max);
    match find_symbol(v, tick.symbol@) {
        Some(i) => {
            let kept = keep_newest(v[i].1.push(tick), max);
            assert(p[i] == (tick.symbol@, kept));
            assert(cache_wf(p, max)) by {
                assert forall|a: int, b: int| 0 <= a < b < p.len() implies (#[trigger] p[a]).0 != (#[trigger] p[b]).0 by {
                    assert(v[a].0 != v[b].0);
                }
                assert forall|a: int| 0 <= a < p.len() implies (#[trigger] p[a]).1.len() <= max by {
                    if a != i {
                        assert(v[a].1.len() <= max);
                    }
                }
            }
            lemma_find_at(p, max, i);
            assert(kept.last() == tick);
        },
        None => {
            let last = p.len() - 1;
            assert(p[last] == (tick.symbol@, keep_newest(seq![tick], max)));
            assert(cache_wf(p, max)) by {
                assert forall|a: int, b: int| 0 <= a < b < p.len() implies (#[trigger] p[a]).0 != (#[trigger] p[b]).0 by {
                    if b < v.len() {
                        assert(v[a].0 != v[b].0);
                    } else {
                        assert(v[a].0 != tick.symbol@);
                    }
                }
                assert forall|a: int| 0 <= a < p.len() implies (#[trigger] p[a]).1.len() <= max by {
                    if a < v.len() {
                        assert(v[a].1.len() <= max);
                    }
                }
            }
            lemma_find_at(p, max, last);
        },
    }
    assert(newest_first(ticks_of(p, tick.symbol@), 1) =~= seq![tick]);
}

/// Once a symbol is cleared, the cache holds no tick for it.
pub proof fn lemma_clear_then_empty(v: Seq<(Seq<char>, Seq<TickData>)>, symbol: Seq<char>, max: nat)
    requires
        cache_wf(v, max),
    ensures
        ticks_of(without(v, symbol), symbol).len() == 0,
{
    match find_symbol(v, symbol) {
        Some(i) => {
            let w = v.remove(i);
            assert forall|k: int| 0 <= k < w.len() implies (#[trigger] w[k]).0 != symbol by {
                let k0 = if k < i { k } else { k + 1 };
                assert(w[k] == v[k0]);
                if k0 < i {
                    assert(v[k0].0 != v[i].0);
                } else {
                    assert(v[i].0 != v[k0].0);
                }
            }
        },
        None => {},
    }
}

/// The prefix of the keys under which the Redis cache stores a symbol's ticks.
pub open spec fn key_prefix() -> Seq<char> {
    "tick:"@
}

/// The Redis key of a symbol's tick list: "tick:" and the symbol.
pub fn cache_key(symbol: &str) -> (r: String)
    ensures
        r@ == key_prefix() + symbol@,
{
    let mut key = String::from_str("tick:");
    key.append(symbol);
    key
}

/// Whether `s` starts with `prefix`.
pub open spec fn starts_with(s: Seq<char>, prefix: Seq<char>) -> bool {
    s.len() >= prefix.len() && s.subrange(0, prefix.len() as int) == prefix
}

/// The symbols named by the keys that carry the tick prefix, in order, each without the prefix.
pub open spec fn symbols_of_keys(keys: Seq<Seq<char>>) -> Seq<Seq<char>>
    decreases keys.len(),
{
    if keys.len() == 0 {
        Seq::empty()
    } else {
        let rest = symbols_of_keys(keys.drop_last());
        let k = keys.last();
        if starts_with(k, key_prefix()) {
            rest.push(k.subrange(key_prefix().len() as int, k.len() as int))
        } else {
            rest
        }
    }
}

/// Whether `s` starts with `prefix`, character by character.
pub fn has_prefix(s: &str, prefix: &str) -> (r: bool)
    ensures
        r == starts_with(s@, prefix@),
{
    let n = prefix.unicode_len();
    if s.unicode_len() < n {
        return false;
    }
    let mut i: usize = 0;
    while i < n
        invariant
            n == prefix@.len(),
            n <= s@.len(),
            i <= n,
            forall|j: int| 0 <= j < i ==> s@[j] == prefix@[j],
        decreases n - i,
    {
        if s.get_char(i) != prefix.get_char(i) {
            assert(s@.subrange(0, n as int)[i as int] != prefix@[i as int]);
            return false;
        }
        i = i + 1;
    }
    assert(s@.subrange(0, n as int) =~= prefix@);
    true
}

/// The symbols named by the Redis keys: those of the keys that start with "tick:", without it.
pub fn symbols_from_keys(keys: &Vec<String>) -> (r: Vec<String>)
    ensures
        r@.map_values(|k: String| k@) == symbols_of_keys(keys@.map_values(|k: String| k@)),
{
    let mut out: Vec<String> = Vec::new();
    let mut i: usize = 0;
    proof {
        reveal_strlit("tick:");
    }
    while i < keys.len()
        invariant
            i <= keys@.len(),
            key_prefix().len() == 5,
            out@.map_values(|k: String| k@) == symbols_of_keys(keys@.map_values(|k: String| k@).take(i as int)),
        decreases keys@.len() - i,
    {
        let key = keys[i].as_str();
        proof {
            assert(keys@.map_values(|k: String| k@).take(i as int + 1).drop_last()
                =~= keys@.map_values(|k: String| k@).take(i as int));
        }
        if has_prefix(key, "tick:") {
            let n = key.unicode_len();
            let sym = key.substring_char(5, n);
            let ghost before = out@;
            out.push(String::from_str(sym));
            proof {
                assert(out@.map_values(|k: String| k@) =~= before.map_values(|k: String| k@).push(sym@));
            }
        }
        i = i + 1;
    }
    proof {
        assert(keys@.map_values(|k: String| k@).take(keys@.len() as int) =~= keys@.map_values(|k: String| k@));
    }
    out
}

/// Whether `pat` occurs in `s`.
pub open spec fn occurs_in(s: Seq<char>, pat: Seq<char>) -> bool {
    exists|i: int| 0 <= i <= s.len() - pat.len() && #[trigger] s.subrange(i, i + pat.len()) == pat
}

/// Whether `pat` occurs in `s`.
pub fn contains_text(s: &str, pat: &str) -> (r: bool)
    ensures
        r == occurs_in(s@, pat@),
{
    let n = s.unicode_len();
    let m = pat.unicode_len();
    if m > n {
        return false;
    }
    let mut i: usize = 0;
    while i <= n - m
        invariant
            n == s@.len(),
            m == pat@.len(),
            m <= n,
            i <= n - m + 1,
            forall|k: int| 0 <= k < i ==> #[trigger] s@.subrange(k, k + m) != pat@,
        decreases n - m + 1 - i,
    {
        let mut j: usize = 0;
        let mut same = true;
        while j < m
            invariant
                n == s@.len(),
                m == pat@.len(),
                i + m <= n,
                j <= m,
                same == (forall|t: int| 0 <= t < j ==> s@[i + t] == pat@[t]),
            decreases m - j,
        {
            if s.get_char(i + j) != pat.get_char(j) {
                same = false;
            }
            j = j + 1;
        }
        if same {
            assert(s@.subrange(i as int, i + m) =~= pat@);
            return true;
        } else {
            assert(s@.subrange(i as int, i + m) != pat@) by {
                let t = choose|t: int| 0 <= t < m && s@[i + t] != pat@[t];
                assert(s@.subrange(i as int, i + m)[t] != pat@[t]);
            }
        }
        i = i + 1;
    }
    false
}

/// Whether a Redis error message tells of a lost connection (worth reconnecting for):
/// it mentions "closed", "10058", "connection refused" or "broken pipe".
pub open spec fn connection_error_text(msg: Seq<char>) -> bool {
    occurs_in(msg, "closed"@) || occurs_in(msg, "10058"@) || occurs_in(msg, "connection refused"@)
        || occurs_in(msg, "broken pipe"@)
}

/// Whether a Redis error message tells of a lost connection.
pub fn is_connection_error(msg: &str) -> (r: bool)
    ensures
        r == connection_error_text(msg@),
{
    contains_text(msg, "closed") || contains_text(msg, "10058") || contains_text(msg, "connection refused")
        || contains_text(msg, "broken pipe")
}

/// Whether, after a failed attempt, the Redis cache waits before the next one: every attempt
/// but the last is followed by a pause.
pub fn pauses_after(attempt: u32, max_retries: u32) -> (r: bool)
    requires
        attempt < max_retries,
    ensures
        r == (attempt + 1 < max_retries),
{
    attempt < max_retries - 1
}

/// The symbols of both layers: those of memory in their order, then those only Redis has.
pub open spec fn merged_symbols(memory: Seq<Seq<char>>, redis: Seq<Seq<char>>) -> Seq<Seq<char>>
    decreases redis.len(),
{
    if redis.len() == 0 {
        memory
    } else {
        let m = merged_symbols(memory, redis.drop_last());
        if m.contains(redis.last()) {
            m
        } else {
            m.push(redis.last())
        }
    }
}

/// The symbols of the memory layer, then each symbol of the Redis layer not yet listed.
pub fn merge_symbols(memory: Vec<String>, redis: &Vec<String>) -> (r: Vec<String>)
    ensures
        r@.map_values(|k: String| k@) == merged_symbols(
            memory@.map_values(|k: String| k@),
            redis@.map_values(|k: String| k@),
        ),
{
    let ghost mem = memory@.map_values(|k: String| k@);
    let ghost red = redis@.map_values(|k: String| k@);
    let mut all = memory;
    let mut i: usize = 0;
    while i < redis.len()
        invariant
            i <= redis@.len(),
            red == redis@.map_values(|k: String| k@),
            all@.map_values(|k: String| k@) == merged_symbols(mem, red.take(i as int)),
        decreases redis@.len() - i,
    {
        proof {
            assert(red.take(i as int + 1).drop_last() =~= red.take(i as int));
        }
        let sym = redis[i].as_str();
        let mut found = false;
        let mut j: usize = 0;
        while j < all.len()
            invariant
                j <= all@.len(),
                found == (exists|t: int| 0 <= t < j && (#[trigger] all@[t])@ == sym@),
            decreases all@.len() - j,
        {
            if str_eq(all[j].as_str(), sym) {
                found = true;
            }
            j = j + 1;
        }
        let ghost before = all@;
        proof {
            let ms = before.map_values(|k: String| k@);
            if found {
                let t = choose|t: int| 0 <= t < before.len() && (#[trigger] before[t])@ == sym@;
                assert(ms[t] == sym@);
            } else {
                assert forall|t: int| 0 <= t < ms.len() implies ms[t] != sym@ by {
                    assert(ms[t] == before[t]@);
                }
            }
        }
        if !found {
            all.push(String::from_str(sym));
            proof {
                assert(all@.map_values(|k: String| k@) =~= before.map_values(|k: String| k@).push(sym@));
            }
        }
        i = i + 1;
    }
    proof {
        assert(red.take(redis@.len() as int) =~= red);
    }
    all
}

/// Whether the memory layer answered a read in full: it gave as many ticks as asked for.
pub fn memory_layer_hit(found: usize, limit: usize) -> (r: bool)
    ensures
        r == (found == limit),
{
    found == limit
}

/// The first `limit` ticks (all of them when there are fewer).
pub fn first_ticks(ticks: Vec<TickData>, limit: usize) -> (r: Vec<TickData>)
    ensures
        r@ == ticks@.take(if limit < ticks@.len() { limit as int } else { ticks@.len() as int }),
{
    let mut out = ticks;
    if limit < out.len() {
        out.truncate(limit);
    }
    out
}

} // verus!
