//! The gateway's caches: the bounded tap-event and snapshot FIFOs,
//! the TTL-stamped config and blacklist caches, the tap debounce
//! window and the active-trip store for tap-in-out mode.

use vstd::prelude::*;

verus! {

use crate::model::{RouteConfig, TapEvent, CardStateSnapshot};
use crate::strutil::str_eq;

/// `a - b`, stopping at zero: the saturating subtraction every
/// wall-clock comparison here uses.
pub open spec fn sat_sub(a: u64, b: u64) -> u64 {
    if a >= b {
        (a - b) as u64
    } else {
        0
    }
}

pub fn sat_sub_exec(a: u64, b: u64) -> (r: u64)
    ensures
        r == sat_sub(a, b),
{
    if a >= b {
        a - b
    } else {
        0
    }
}

// ---------------------------------------------------------------
// Tap-event FIFO
// ---------------------------------------------------------------

/// Bounded FIFO of tap events awaiting upload; rejects on overflow.
pub struct TapEventCache {
    max_len: usize,
    events: Vec<TapEvent>,
}

impl TapEventCache {
    pub closed spec fn view_events(&self) -> Seq<TapEvent> {
        self.events@
    }

    pub closed spec fn cap(&self) -> usize {
        self.max_len
    }

    pub fn new(max_len: usize) -> (r: Self)
        ensures
            r.view_events() == Seq::<TapEvent>::empty(),
            r.cap() == max_len,
    {
        Self { max_len, events: Vec::new() }
    }

    pub fn len(&self) -> (r: usize)
        ensures
            r == self.view_events().len(),
    {
        self.events.len()
    }

    pub fn is_full(&self) -> (r: bool)
        ensures
            r == (self.view_events().len() >= self.cap()),
    {
        self.events.len() >= self.max_len
    }

    /// Queues an event; a full cache hands it back instead.
    pub fn push(&mut self, event: TapEvent) -> (r: Result<(), TapEvent>)
        ensures
            final(self).cap() == old(self).cap(),
            old(self).view_events().len() >= old(self).cap() ==> r == Err::<(), TapEvent>(event)
                && final(self).view_events() == old(self).view_events(),
            old(self).view_events().len() < old(self).cap() ==> r == Ok::<(), TapEvent>(())
                && final(self).view_events() == old(self).view_events().push(event),
    {
        if self.is_full() {
            return Err(event);
        }
        self.events.push(event);
        Ok(())
    }

    /// Takes up to `limit` oldest events out, in arrival order.
    pub fn drain_batch(&mut self, limit: usize) -> (r: Vec<TapEvent>)
        ensures
            final(self).cap() == old(self).cap(),
            r@ == old(self).view_events().take(
                vstd::math::min(limit as int, old(self).view_events().len() as int),
            ),
            final(self).view_events() == old(self).view_events().skip(
                vstd::math::min(limit as int, old(self).view_events().len() as int),
            ),
    {
        let take: usize = if limit < self.events.len() {
            limit
        } else {
            self.events.len()
        };
        let mut out: Vec<TapEvent> = Vec::new();
        let mut k: usize = 0;
        while k < take
            invariant
                k <= take,
                take <= old(self).view_events().len(),
                self.max_len == old(self).cap(),
                out@ == old(self).view_events().take(k as int),
                self.events@ == old(self).view_events().skip(k as int),
            decreases take - k,
        {
            let e = self.events.remove(0);
            proof {
                assert(out@.push(e) =~= old(self).view_events().take(k as int + 1));
                assert(old(self).view_events().skip(k as int).subrange(
                    1,
                    old(self).view_events().skip(k as int).len() as int,
                ) =~= old(self).view_events().skip(k as int + 1));
            }
            out.push(e);
            k = k + 1;
        }
        out
    }

    /// Empties the cache.
    pub fn clear(&mut self)
        ensures
            final(self).cap() == old(self).cap(),
            final(self).view_events() == Seq::<TapEvent>::empty(),
    {
        self.events.clear();
    }
}

// ---------------------------------------------------------------
// Card-state snapshot FIFO
// ---------------------------------------------------------------

/// Bounded FIFO of post-write card snapshots for the backend.
pub struct CardStateSnapshotCache {
    max_len: usize,
    snapshots: Vec<CardStateSnapshot>,
}

impl CardStateSnapshotCache {
    pub closed spec fn view_snapshots(&self) -> Seq<CardStateSnapshot> {
        self.snapshots@
    }

    pub closed spec fn cap(&self) -> usize {
        self.max_len
    }

    pub fn new(max_len: usize) -> (r: Self)
        ensures
            r.view_snapshots() == Seq::<CardStateSnapshot>::empty(),
            r.cap() == max_len,
    {
        Self { max_len, snapshots: Vec::new() }
    }

    pub fn len(&self) -> (r: usize)
        ensures
            r == self.view_snapshots().len(),
    {
        self.snapshots.len()
    }

    /// Queues a snapshot; a full cache hands it back instead.
    pub fn push(&mut self, snapshot: CardStateSnapshot) -> (r: Result<(), CardStateSnapshot>)
        ensures
            final(self).cap() == old(self).cap(),
            old(self).view_snapshots().len() >= old(self).cap() ==> r == Err::<
                (),
                CardStateSnapshot,
            >(snapshot) && final(self).view_snapshots() == old(self).view_snapshots(),
            old(self).view_snapshots().len() < old(self).cap() ==> r == Ok::<
                (),
                CardStateSnapshot,
            >(()) && final(self).view_snapshots() == old(self).view_snapshots().push(snapshot),
    {
        if self.snapshots.len() >= self.max_len {
            return Err(snapshot);
        }
        self.snapshots.push(snapshot);
        Ok(())
    }

    /// Takes up to `limit` oldest snapshots out, in arrival order.
    pub fn drain_batch(&mut self, limit: usize) -> (r: Vec<CardStateSnapshot>)
        ensures
            final(self).cap() == old(self).cap(),
            r@ == old(self).view_snapshots().take(
                vstd::math::min(limit as int, old(self).view_snapshots().len() as int),
            ),
            final(self).view_snapshots() == old(self).view_snapshots().skip(
                vstd::math::min(limit as int, old(self).view_snapshots().len() as int),
            ),
    {
        let take: usize = if limit < self.snapshots.len() {
            limit
        } else {
            self.snapshots.len()
        };
        let mut out: Vec<CardStateSnapshot> = Vec::new();
        let mut k: usize = 0;
        while k < take
            invariant
                k <= take,
                take <= old(self).view_snapshots().len(),
                self.max_len == old(self).cap(),
                out@ == old(self).view_snapshots().take(k as int),
                self.snapshots@ == old(self).view_snapshots().skip(k as int),
            decreases take - k,
        {
            let e = self.snapshots.remove(0);
            proof {
                assert(out@.push(e) =~= old(self).view_snapshots().take(k as int + 1));
                assert(old(self).view_snapshots().skip(k as int).subrange(
                    1,
                    old(self).view_snapshots().skip(k as int).len() as int,
                ) =~= old(self).view_snapshots().skip(k as int + 1));
            }
            out.push(e);
            k = k + 1;
        }
        out
    }
}

// ---------------------------------------------------------------
// Route-config cache
// ---------------------------------------------------------------

/// The backend route configuration with the time it was fetched.
pub struct ConfigCache {
    pub route: Option<RouteConfig>,
    pub fetched_at: u64,
    pub ttl_secs: u32,
}

impl ConfigCache {
    pub fn new(ttl_secs: u32) -> (r: Self)
        ensures
            r.route is None,
            r.fetched_at == 0u64,
            r.ttl_secs == ttl_secs,
    {
        Self { route: None, fetched_at: 0, ttl_secs }
    }

    /// Empty or older than its TTL.
    pub fn is_expired(&self, now: u64) -> (r: bool)
        ensures
            r == (self.route is None || sat_sub(now, self.fetched_at) > self.ttl_secs as u64),
    {
        self.route.is_none() || sat_sub_exec(now, self.fetched_at) > self.ttl_secs as u64
    }

    /// Replaces the cached config and stamps the fetch time.
    pub fn update(&mut self, route: RouteConfig, now: u64)
        ensures
            final(self).route == Some(route),
            final(self).fetched_at == now,
            final(self).ttl_secs == old(self).ttl_secs,
    {
        self.route = Some(route);
        self.fetched_at = now;
    }
}

// ---------------------------------------------------------------
// Blacklist cache
// ---------------------------------------------------------------

/// The card ids the backend has marked blocked, with fetch time.
pub struct BlacklistCache {
    pub cards: Vec<String>,
    pub fetched_at: u64,
    pub ttl_secs: u32,
}

/// Some listed id spells exactly this card id.
pub open spec fn blacklist_contains(cards: Seq<String>, id: Seq<char>) -> bool {
    exists|i: int| 0 <= i < cards.len() && cards[i]@ == id
}

impl BlacklistCache {
    pub fn new(ttl_secs: u32) -> (r: Self)
        ensures
            r.cards@ == Seq::<String>::empty(),
            r.fetched_at == 0u64,
            r.ttl_secs == ttl_secs,
    {
        Self { cards: Vec::new(), fetched_at: 0, ttl_secs }
    }

    /// Older than its TTL.
    pub fn is_expired(&self, now: u64) -> (r: bool)
        ensures
            r == (sat_sub(now, self.fetched_at) > self.ttl_secs as u64),
    {
        sat_sub_exec(now, self.fetched_at) > self.ttl_secs as u64
    }

    /// Replaces the whole list and stamps the fetch time.
    pub fn replace(&mut self, cards: Vec<String>, now: u64)
        ensures
            final(self).cards == cards,
            final(self).fetched_at == now,
            final(self).ttl_secs == old(self).ttl_secs,
    {
        self.cards = cards;
        self.fetched_at = now;
    }

    /// Adds one id, used when the backend rejects a snapshot with a
    /// blocked-card reason.
    pub fn add_card(&mut self, card_id: String, now: u64)
        ensures
            final(self).cards@ == old(self).cards@.push(card_id),
            final(self).fetched_at == now,
            final(self).ttl_secs == old(self).ttl_secs,
    {
        self.cards.push(card_id);
        self.fetched_at = now;
    }

    /// Whether this card id is on the blacklist.
    pub fn is_blocked(&self, card_id: &str) -> (r: bool)
        ensures
            r == blacklist_contains(self.cards@, card_id@),
    {
        let mut i: usize = 0;
        while i < self.cards.len()
            invariant
                i <= self.cards@.len(),
                forall|k: int| 0 <= k < i ==> self.cards@[k]@ != card_id@,
            decreases self.cards@.len() - i,
        {
            if str_eq(self.cards[i].as_str(), card_id) {
                return true;
            }
            i = i + 1;
        }
        false
    }
}

// ---------------------------------------------------------------
// Tap debounce
// ---------------------------------------------------------------

/// Suppression window: the same card is not processed twice within
/// `window_secs`. Bounded; evicts the oldest entry when full.
pub struct TapDebounce {
    window_secs: u32,
    max_len: usize,
    entries: Vec<TapSeen>,
}

struct TapSeen {
    card_id: String,
    last_seen: u64,
}

/// A same-card entry recent enough to suppress this tap.
pub open spec fn debounce_hit(entries: Seq<(Seq<char>, u64)>, id: Seq<char>, now: u64, window: u64) -> bool {
    exists|i: int| 0 <= i < entries.len() && entries[i].0 == id && sat_sub(now, entries[i].1)
        <= window
}

impl TapDebounce {
    pub closed spec fn view_entries(&self) -> Seq<(Seq<char>, u64)> {
        Seq::new(self.entries@.len(), |i: int| (self.entries@[i].card_id@, self.entries@[i].last_seen))
    }

    pub closed spec fn cap(&self) -> usize {
        self.max_len
    }

    pub closed spec fn window(&self) -> u64 {
        self.window_secs as u64
    }

    /// The cache never outgrows its capacity, and no two entries
    /// name the same card.
    pub closed spec fn wf(&self) -> bool {
        &&& self.entries@.len() <= self.max_len
        &&& forall|i: int, j: int| 0 <= i < j < self.entries@.len() ==> self.entries@[i].card_id@
            != self.entries@[j].card_id@
    }

    pub fn new(window_secs: u32, max_len: usize) -> (r: Self)
        ensures
            r.wf(),
            r.view_entries() == Seq::<(Seq<char>, u64)>::empty(),
            r.cap() == max_len,
            r.window() == window_secs as u64,
    {
        let r = Self { window_secs, max_len, entries: Vec::new() };
        proof {
            assert(r.view_entries() =~= Seq::<(Seq<char>, u64)>::empty());
        }
        r
    }

    /// Admits or suppresses a tap. The tap passes exactly when no
    /// same-card entry lies within the window; afterwards every
    /// entry is within the window of `now`, the capacity still
    /// holds, and an admitted card is remembered at `now` while the
    /// cache has room for it.
    #[verifier::loop_isolation(false)]
    #[verifier::rlimit(100)]
    pub fn allow(&mut self, card_id: &str, now: u64) -> (r: bool)
        requires
            old(self).wf(),
        ensures
            final(self).wf(),
            final(self).cap() == old(self).cap(),
            final(self).window() == old(self).window(),
            r == !debounce_hit(old(self).view_entries(), card_id@, now, old(self).window()),
            final(self).view_entries().len() <= final(self).cap(),
            forall|j: int| 0 <= j < final(self).view_entries().len() ==> sat_sub(
                now,
                final(self).view_entries()[j].1,
            ) <= final(self).window(),
            r && old(self).cap() >= 1 ==> exists|j: int|
                0 <= j < final(self).view_entries().len() && final(self).view_entries()[j] == (
                card_id@,
                now,
            ),
    {
        self.purge_expired(now);
        let ghost purged = self.view_entries();

        let mut i: usize = 0;
        while i < self.entries.len()
            invariant
                i <= self.entries@.len(),
                self.wf(),
                self.cap() == old(self).cap(),
                self.window() == old(self).window(),
                self.view_entries() == purged,
                forall|k: int| 0 <= k < i ==> purged[k].0 != card_id@,
            decreases self.entries@.len() - i,
        {
            if str_eq(self.entries[i].card_id.as_str(), card_id) {
                proof {
                    assert(purged[i as int].0 == card_id@);
                    assert(purged.contains(purged[i as int]));
                    let w = choose|w: int|
                        0 <= w < old(self).view_entries().len() && old(self).view_entries()[w]
                            == purged[i as int];
                    assert(debounce_hit(
                        old(self).view_entries(),
                        card_id@,
                        now,
                        old(self).window(),
                    ));
                }
                return false;
            }
            i = i + 1;
        }
        proof {
            assert forall|w: int|
                0 <= w < old(self).view_entries().len() && old(self).view_entries()[w].0
                    == card_id@ implies sat_sub(now, old(self).view_entries()[w].1) > old(self).window() by {
                if sat_sub(now, old(self).view_entries()[w].1) <= old(self).window() {
                    assert(purged.contains(old(self).view_entries()[w]));
                }
            }
        }

        if self.entries.len() >= self.max_len {
            self.drop_oldest();
        }
        let ghost room = self.view_entries();
        proof {
            assert forall|j: int| 0 <= j < room.len() implies (purged.contains(room[j]) && sat_sub(
                now,
                room[j].1,
            ) <= self.window() && room[j].0 != card_id@) by {
                assert(purged.contains(room[j]));
                let w = choose|w: int| 0 <= w < purged.len() && purged[w] == room[j];
            }
        }
        if self.entries.len() < self.max_len {
            let owned = card_id_to_string(card_id);
            self.entries.push(TapSeen { card_id: owned, last_seen: now });
            proof {
                let n = self.view_entries().len() - 1;
                assert(self.view_entries()[n] == (card_id@, now));
                assert(exists|j: int|
                    0 <= j < self.view_entries().len() && self.view_entries()[j] == (
                    card_id@,
                    now,
                    ));
                assert(sat_sub(now, now) == 0);
                assert forall|j: int| 0 <= j < self.view_entries().len() implies sat_sub(
                    now,
                    self.view_entries()[j].1,
                ) <= self.window() by {
                    if j < n {
                        assert(self.view_entries()[j] == room[j]);
                    }
                }
                assert forall|a: int, b: int| 0 <= a < b < self.entries@.len() implies self
                    .entries@[a].card_id@ != self.entries@[b].card_id@ by {
                    if b == n {
                        assert(self.view_entries()[a] == room[a]);
                    } else {
                        assert(self.view_entries()[a] == room[a]);
                        assert(self.view_entries()[b] == room[b]);
                    }
                }
            }
        }
        true
    }

    /// Removes every entry older than the window.
    #[verifier::loop_isolation(false)]
    #[verifier::rlimit(100)]
    fn purge_expired(&mut self, now: u64)
        requires
            old(self).wf(),
        ensures
            final(self).wf(),
            final(self).cap() == old(self).cap(),
            final(self).window() == old(self).window(),
            forall|j: int| 0 <= j < final(self).view_entries().len() ==> sat_sub(
                now,
                final(self).view_entries()[j].1,
            ) <= final(self).window(),
            forall|i: int| 0 <= i < old(self).view_entries().len() && sat_sub(
                now,
                old(self).view_entries()[i].1,
            ) <= old(self).window() ==> final(self).view_entries().contains(
                old(self).view_entries()[i],
            ),
            forall|j: int| 0 <= j < final(self).view_entries().len() ==> old(self).view_entries().contains(final(self).view_entries()[j]),
            final(self).view_entries().len() <= old(self).view_entries().len(),
    {
        let window = self.window_secs as u64;
        let ghost orig = self.view_entries();
        let mut kept: Vec<TapSeen> = Vec::new();
        let mut k: usize = 0;
        while k < self.entries.len()
            invariant
                k <= self.entries@.len(),
                self == old(self),
                kept@.len() <= k,
                forall|j: int| 0 <= j < kept@.len() ==> sat_sub(now, kept@[j].last_seen)
                    <= window,
                forall|i: int| #![trigger orig[i]]
                    0 <= i < k && sat_sub(now, orig[i].1) <= window ==> exists|j: int|
                        #![trigger kept@[j]]
                        0 <= j < kept@.len() && (kept@[j].card_id@, kept@[j].last_seen) == orig[i],
                forall|j: int| #![trigger kept@[j]]
                    0 <= j < kept@.len() ==> exists|i: int| #![trigger orig[i]]
                        0 <= i < k && (kept@[j].card_id@, kept@[j].last_seen) == orig[i],
                forall|a: int, b: int| 0 <= a < b < kept@.len() ==> kept@[a].card_id@
                    != kept@[b].card_id@,
            decreases self.entries@.len() - k,
        {
            let within = sat_sub_exec(now, self.entries[k].last_seen) <= window;
            proof {
                assert(orig[k as int] == (self.entries@[k as int].card_id@, self.entries@[
                k as int].last_seen));
            }
            if within {
                let id = self.entries[k].card_id.clone();
                let seen = self.entries[k].last_seen;
                let ghost prev = kept@;
                kept.push(TapSeen { card_id: id, last_seen: seen });
                proof {
                    let n = kept@.len() - 1;
                    assert(forall|j: int| 0 <= j < prev.len() ==> kept@[j] == prev[j]);
                    assert((kept@[n].card_id@, kept@[n].last_seen) == orig[k as int]);
                    assert forall|i: int| #![trigger orig[i]]
                        0 <= i < k + 1 && sat_sub(now, orig[i].1) <= window implies exists|j: int|
                        #![trigger kept@[j]]
                        0 <= j < kept@.len() && (kept@[j].card_id@, kept@[j].last_seen) == orig[
                    i] by {
                        if i < k {
                            let j0 = choose|j0: int| #![trigger prev[j0]]
                                0 <= j0 < prev.len() && (prev[j0].card_id@, prev[j0].last_seen)
                                    == orig[i];
                            assert(kept@[j0] == prev[j0]);
                        } else {
                            assert((kept@[n].card_id@, kept@[n].last_seen) == orig[i]);
                        }
                    }
                    assert forall|a: int, b: int| 0 <= a < b < kept@.len() implies kept@[
                    a].card_id@ != kept@[b].card_id@ by {
                        if b == n {
                            let w = choose|w: int| #![trigger orig[w]]
                                0 <= w < k && (kept@[a].card_id@, kept@[a].last_seen) == orig[w];
                            assert(orig[w].0 != orig[k as int].0);
                        }
                    }
                }
            }
            k = k + 1;
        }
        self.entries = kept;
        proof {
            assert forall|j: int| 0 <= j < self.view_entries().len() implies old(self).view_entries().contains(self.view_entries()[j]) by {
                assert((kept@[j].card_id@, kept@[j].last_seen) == self.view_entries()[j]);
                let w = choose|i: int| #![trigger orig[i]]
                    0 <= i < orig.len() && (kept@[j].card_id@, kept@[j].last_seen) == orig[i];
                assert(old(self).view_entries()[w] == self.view_entries()[j]);
            }
            assert forall|i: int|
                0 <= i < old(self).view_entries().len() && sat_sub(
                    now,
                    old(self).view_entries()[i].1,
                ) <= old(self).window() implies self.view_entries().contains(
                old(self).view_entries()[i],
            ) by {
                let j = choose|j: int| #![trigger kept@[j]]
                    0 <= j < kept@.len() && (kept@[j].card_id@, kept@[j].last_seen) == orig[i];
                assert(self.view_entries()[j] == orig[i]);
            }
            assert forall|j: int| 0 <= j < self.view_entries().len() implies sat_sub(
                now,
                self.view_entries()[j].1,
            ) <= self.window() by {
                assert(self.view_entries()[j].1 == kept@[j].last_seen);
            }
        }
    }

    /// Drops the entry with the smallest timestamp.
    #[verifier::loop_isolation(false)]
    #[verifier::rlimit(100)]
    fn drop_oldest(&mut self)
        requires
            old(self).wf(),
        ensures
            final(self).wf(),
            final(self).cap() == old(self).cap(),
            final(self).window() == old(self).window(),
            old(self).view_entries().len() > 0 ==> final(self).view_entries().len() == old(self).view_entries().len() - 1,
            old(self).view_entries().len() == 0 ==> final(self).view_entries() == old(self).view_entries(),
            forall|j: int| 0 <= j < final(self).view_entries().len() ==> old(self).view_entries().contains(final(self).view_entries()[j]),
    {
        if self.entries.len() == 0 {
            return ;
        }
        let mut oldest: usize = 0;
        let mut k: usize = 1;
        while k < self.entries.len()
            invariant
                oldest < k <= self.entries@.len(),
                self == old(self),
            decreases self.entries@.len() - k,
        {
            if self.entries[k].last_seen < self.entries[oldest].last_seen {
                oldest = k;
            }
            k = k + 1;
        }
        let ghost before = self.view_entries();
        self.entries.remove(oldest);
        proof {
            assert forall|j: int| 0 <= j < self.view_entries().len() implies before.contains(
                self.view_entries()[j],
            ) by {
                if j < oldest {
                    assert(before[j] == self.view_entries()[j]);
                } else {
                    assert(before[j + 1] == self.view_entries()[j]);
                }
            }
            assert forall|a: int, b: int| 0 <= a < b < self.entries@.len() implies self
                .entries@[a].card_id@ != self.entries@[b].card_id@ by {
                if b < oldest {
                } else if a < oldest {
                    assert(self.view_entries()[b] == before[b + 1]);
                } else {
                    assert(self.view_entries()[a] == before[a + 1]);
                    assert(self.view_entries()[b] == before[b + 1]);
                }
            }
        }
    }
}

/// Copies a borrowed card id into an owned string.
fn card_id_to_string(card_id: &str) -> (r: String)
    ensures
        r@ == card_id@,
{
    card_id.to_owned()
}

// ---------------------------------------------------------------
// Active trips
// ---------------------------------------------------------------

/// Pending tap-ins in tap-in-out mode, one per card, TTL-bounded.
pub struct ActiveTripCache {
    ttl_secs: u32,
    entries: Vec<ActiveTrip>,
}

struct ActiveTrip {
    card_id: String,
    event: TapEvent,
    last_seen: u64,
}

/// A pending trip for this card recent enough to still count.
pub open spec fn trip_hit(
    entries: Seq<(Seq<char>, TapEvent, u64)>,
    id: Seq<char>,
    now: u64,
    ttl: u64,
) -> bool {
    exists|i: int| 0 <= i < entries.len() && entries[i].0 == id && sat_sub(now, entries[i].2)
        <= ttl
}

impl ActiveTripCache {
    pub closed spec fn view_entries(&self) -> Seq<(Seq<char>, TapEvent, u64)> {
        Seq::new(
            self.entries@.len(),
            |i: int| (self.entries@[i].card_id@, self.entries@[i].event, self.entries@[i].last_seen),
        )
    }

    pub closed spec fn ttl(&self) -> u64 {
        self.ttl_secs as u64
    }

    /// No two entries name the same card, and each entry is keyed
    /// by its own event's card id.
    pub closed spec fn wf(&self) -> bool {
        &&& forall|i: int, j: int| 0 <= i < j < self.entries@.len() ==> self.entries@[i].card_id@
            != self.entries@[j].card_id@
        &&& forall|i: int| 0 <= i < self.entries@.len() ==> self.entries@[i].card_id@ == self
            .entries@[i].event.card_id@
    }

    pub fn new(ttl_secs: u32) -> (r: Self)
        ensures
            r.wf(),
            r.view_entries() == Seq::<(Seq<char>, TapEvent, u64)>::empty(),
            r.ttl() == ttl_secs as u64,
    {
        let r = Self { ttl_secs, entries: Vec::new() };
        proof {
            assert(r.view_entries() =~= Seq::<(Seq<char>, TapEvent, u64)>::empty());
        }
        r
    }

    /// Records a pending tap-in for the event's card, replacing any
    /// earlier one and dropping expired trips.
    #[verifier::loop_isolation(false)]
    #[verifier::rlimit(100)]
    pub fn insert(&mut self, event: TapEvent, now: u64)
        requires
            old(self).wf(),
        ensures
            final(self).wf(),
            final(self).ttl() == old(self).ttl(),
            trip_hit(final(self).view_entries(), event.card_id@, now, final(self).ttl()),
            forall|a: int, b: int| 0 <= a < b < final(self).view_entries().len() ==> final(self).view_entries()[a].0 != final(self).view_entries()[b].0,
            forall|j: int| 0 <= j < final(self).view_entries().len() ==> sat_sub(
                now,
                final(self).view_entries()[j].2,
            ) <= final(self).ttl(),
            exists|j: int|
                #![trigger final(self).view_entries()[j]]
                0 <= j < final(self).view_entries().len() && final(self).view_entries()[j] == (
                event.card_id@,
                event,
                now,
            ),
            forall|i: int|
                0 <= i < old(self).view_entries().len() && old(self).view_entries()[i].0
                    != event.card_id@ && sat_sub(now, old(self).view_entries()[i].2) <= old(self).ttl() ==> final(self).view_entries().contains(old(self).view_entries()[i]),
            forall|j: int| 0 <= j < final(self).view_entries().len() ==> (final(self).view_entries()[j] == (event.card_id@, event, now) || old(self).view_entries().contains(final(self).view_entries()[j])),
    {
        self.purge_keep(now, Some(&event.card_id));
        let ghost cleaned = self.view_entries();
        let id = event.card_id.clone();
        self.entries.push(ActiveTrip { card_id: id, event, last_seen: now });
        proof {
            let n = self.view_entries().len() - 1;
            assert(self.view_entries()[n] == (event.card_id@, event, now));
            assert(sat_sub(now, now) == 0);
            assert forall|j: int| 0 <= j < self.view_entries().len() implies sat_sub(
                now,
                self.view_entries()[j].2,
            ) <= self.ttl() by {
                if j < n {
                    assert(self.view_entries()[j] == cleaned[j]);
                }
            }
            assert forall|j: int| 0 <= j < self.view_entries().len() implies (self
                .view_entries()[j] == (event.card_id@, event, now) || old(self).view_entries().contains(self.view_entries()[j])) by {
                if j < n {
                    assert(self.view_entries()[j] == cleaned[j]);
                }
            }
            assert forall|i: int|
                0 <= i < old(self).view_entries().len() && old(self).view_entries()[i].0
                    != event.card_id@ && sat_sub(now, old(self).view_entries()[i].2) <= old(self).ttl() implies self.view_entries().contains(old(self).view_entries()[i]) by {
                assert(cleaned.contains(old(self).view_entries()[i]));
                let j = choose|j: int|
                    0 <= j < cleaned.len() && cleaned[j] == old(self).view_entries()[i];
                assert(self.view_entries()[j] == cleaned[j]);
            }
            assert forall|a: int, b: int| 0 <= a < b < self.entries@.len() implies self
                .entries@[a].card_id@ != self.entries@[b].card_id@ by {
                if b == n {
                    assert(self.view_entries()[a] == cleaned[a]);
                } else {
                    assert(self.view_entries()[a] == cleaned[a]);
                    assert(self.view_entries()[b] == cleaned[b]);
                }
            }
        }
    }

    /// Takes the pending trip for a card out, if a live one exists.
    #[verifier::loop_isolation(false)]
    #[verifier::rlimit(100)]
    pub fn take(&mut self, card_id: &str, now: u64) -> (r: Option<TapEvent>)
        requires
            old(self).wf(),
        ensures
            final(self).wf(),
            final(self).ttl() == old(self).ttl(),
            r is Some <==> trip_hit(old(self).view_entries(), card_id@, now, old(self).ttl()),
            r matches Some(ev) ==> exists|i: int|
                #![trigger old(self).view_entries()[i]]
                0 <= i < old(self).view_entries().len() && old(self).view_entries()[i].0
                    == card_id@ && old(self).view_entries()[i].1 == ev && sat_sub(
                    now,
                    old(self).view_entries()[i].2,
                ) <= old(self).ttl(),
            r matches Some(ev) ==> ev.card_id@ == card_id@,
            r matches Some(ev) ==> forall|i: int|
                0 <= i < old(self).view_entries().len() && old(self).view_entries()[i].0
                    == card_id@ ==> old(self).view_entries()[i].1 == ev,
            !trip_hit(final(self).view_entries(), card_id@, now, final(self).ttl()),
            forall|i: int|
                0 <= i < old(self).view_entries().len() && old(self).view_entries()[i].0
                    != card_id@ && sat_sub(now, old(self).view_entries()[i].2) <= old(self).ttl() ==> final(self).view_entries().contains(old(self).view_entries()[i]),
            forall|j: int| 0 <= j < final(self).view_entries().len() ==> old(self).view_entries().contains(final(self).view_entries()[j]),
    {
        self.purge_keep(now, None);
        let ghost cleaned = self.view_entries();

        let mut i: usize = 0;
        while i < self.entries.len()
            invariant
                i <= self.entries@.len(),
                self.wf(),
                self.ttl() == old(self).ttl(),
                self.view_entries() == cleaned,
                forall|k: int| 0 <= k < i ==> cleaned[k].0 != card_id@,
            decreases self.entries@.len() - i,
        {
            if str_eq(self.entries[i].card_id.as_str(), card_id) {
                let found = self.entries.remove(i);
                proof {
                    assert(cleaned[i as int] == (found.card_id@, found.event, found.last_seen));
                    assert(cleaned.contains(cleaned[i as int]));
                    let w = choose|w: int|
                        0 <= w < old(self).view_entries().len() && old(self).view_entries()[w]
                            == cleaned[i as int];
                    assert(old(self).view_entries()[w].0 == card_id@);
                    assert(trip_hit(old(self).view_entries(), card_id@, now, old(self).ttl()));
                    assert forall|w2: int|
                        0 <= w2 < old(self).view_entries().len() && old(self).view_entries()[
                        w2].0 == card_id@ implies old(self).view_entries()[w2].1
                        == found.event by {
                        if w2 != w {
                            assert(old(self).view_entries()[w2].0 != old(self).view_entries()[w].0);
                        }
                    }
                    assert forall|j: int| 0 <= j < self.view_entries().len() implies cleaned
                        .contains(self.view_entries()[j]) by {
                        if j < i {
                            assert(cleaned[j] == self.view_entries()[j]);
                        } else {
                            assert(cleaned[j + 1] == self.view_entries()[j]);
                        }
                    }
                    assert forall|j: int| 0 <= j < self.view_entries().len() implies self
                        .view_entries()[j].0 != card_id@ by {
                        if j < i {
                        } else {
                            assert(self.view_entries()[j] == cleaned[j + 1]);
                        }
                    }
                    assert forall|j: int| 0 <= j < self.view_entries().len() implies old(self).view_entries().contains(self.view_entries()[j]) by {
                        assert(cleaned.contains(self.view_entries()[j]));
                        let w2 = choose|w2: int|
                            0 <= w2 < cleaned.len() && cleaned[w2] == self.view_entries()[j];
                    }
                    assert forall|w2: int|
                        0 <= w2 < old(self).view_entries().len() && old(self).view_entries()[
                        w2].0 != card_id@ && sat_sub(now, old(self).view_entries()[w2].2) <= old(self).ttl() implies self.view_entries().contains(old(self).view_entries()[w2]) by {
                        assert(cleaned.contains(old(self).view_entries()[w2]));
                        let j = choose|j: int|
                            0 <= j < cleaned.len() && cleaned[j] == old(self).view_entries()[w2];
                        assert(j != i);
                        if j < i {
                            assert(self.view_entries()[j] == cleaned[j]);
                        } else {
                            assert(self.view_entries()[j - 1] == cleaned[j]);
                        }
                    }
                    assert forall|a: int, b: int| 0 <= a < b < self.entries@.len() implies self
                        .entries@[a].card_id@ != self.entries@[b].card_id@ by {
                        let va = self.view_entries()[a];
                        let vb = self.view_entries()[b];
                        if b < i {
                        } else if a < i {
                            assert(vb == cleaned[b + 1]);
                        } else {
                            assert(va == cleaned[a + 1]);
                            assert(vb == cleaned[b + 1]);
                        }
                    }
                }
                return Some(found.event);
            }
            i = i + 1;
        }
        proof {
            assert forall|w: int|
                0 <= w < old(self).view_entries().len() && old(self).view_entries()[w].0
                    == card_id@ implies sat_sub(now, old(self).view_entries()[w].2) > old(self).ttl() by {
                if sat_sub(now, old(self).view_entries()[w].2) <= old(self).ttl() {
                    assert(cleaned.contains(old(self).view_entries()[w]));
                }
            }
        }
        None
    }

    /// Drops expired trips; with `skip_id` given, also drops that
    /// card's trip.
    #[verifier::loop_isolation(false)]
    #[verifier::rlimit(100)]
    fn purge_keep(&mut self, now: u64, skip_id: Option<&String>)
        requires
            old(self).wf(),
        ensures
            final(self).wf(),
            final(self).ttl() == old(self).ttl(),
            forall|j: int| 0 <= j < final(self).view_entries().len() ==> sat_sub(
                now,
                final(self).view_entries()[j].2,
            ) <= final(self).ttl(),
            skip_id matches Some(sid) ==> forall|j: int|
                0 <= j < final(self).view_entries().len() ==> final(self).view_entries()[j].0
                    != sid@,
            forall|i: int|
                0 <= i < old(self).view_entries().len() && sat_sub(
                    now,
                    old(self).view_entries()[i].2,
                ) <= old(self).ttl() && (skip_id matches Some(sid) ==> old(self).view_entries()[i].0 != sid@) ==> final(self).view_entries().contains(
                    old(self).view_entries()[i],
                ),
            forall|j: int| 0 <= j < final(self).view_entries().len() ==> old(self).view_entries().contains(final(self).view_entries()[j]),
    {
        let ttl = self.ttl_secs as u64;
        let ghost orig = self.view_entries();
        let mut kept: Vec<ActiveTrip> = Vec::new();
        let mut k: usize = 0;
        while k < self.entries.len()
            invariant
                k <= self.entries@.len(),
                self == old(self),
                kept@.len() <= k,
                forall|j: int| 0 <= j < kept@.len() ==> sat_sub(now, kept@[j].last_seen) <= ttl,
                skip_id matches Some(sid) ==> forall|j: int| 0 <= j < kept@.len() ==>
                    kept@[j].card_id@ != sid@,
                forall|i: int| #![trigger orig[i]]
                    0 <= i < k && sat_sub(now, orig[i].2) <= ttl && (skip_id matches Some(sid)
                        ==> orig[i].0 != sid@) ==> exists|j: int|
                        #![trigger kept@[j]]
                        0 <= j < kept@.len() && (kept@[j].card_id@, kept@[j].event, kept@[
                        j].last_seen) == orig[i],
                forall|j: int| #![trigger kept@[j]]
                    0 <= j < kept@.len() ==> exists|i: int| #![trigger orig[i]]
                        0 <= i < k && (kept@[j].card_id@, kept@[j].event, kept@[j].last_seen)
                            == orig[i],
                forall|a: int, b: int| 0 <= a < b < kept@.len() ==> kept@[a].card_id@
                    != kept@[b].card_id@,
            decreases self.entries@.len() - k,
        {
            let within = sat_sub_exec(now, self.entries[k].last_seen) <= ttl;
            let same = match skip_id {
                Some(sid) => str_eq(self.entries[k].card_id.as_str(), sid.as_str()),
                None => false,
            };
            proof {
                assert(orig[k as int] == (self.entries@[k as int].card_id@, self.entries@[
                k as int].event, self.entries@[k as int].last_seen));
            }
            if within && !same {
                let id = self.entries[k].card_id.clone();
                let ev = self.entries[k].event.duplicate();
                let seen = self.entries[k].last_seen;
                let ghost prev = kept@;
                kept.push(ActiveTrip { card_id: id, event: ev, last_seen: seen });
                proof {
                    let n = kept@.len() - 1;
                    assert(forall|j: int| 0 <= j < prev.len() ==> kept@[j] == prev[j]);
                    assert((kept@[n].card_id@, kept@[n].event, kept@[n].last_seen) == orig[
                    k as int]);
                    assert forall|i: int| #![trigger orig[i]]
                        0 <= i < k + 1 && sat_sub(now, orig[i].2) <= ttl && (skip_id matches Some(
                        sid,
                    ) ==> orig[i].0 != sid@) implies exists|j: int|
                        #![trigger kept@[j]]
                        0 <= j < kept@.len() && (kept@[j].card_id@, kept@[j].event, kept@[
                        j].last_seen) == orig[i] by {
                        if i < k {
                            let j0 = choose|j0: int| #![trigger prev[j0]]
                                0 <= j0 < prev.len() && (prev[j0].card_id@, prev[j0].event, prev[
                                j0].last_seen) == orig[i];
                            assert(kept@[j0] == prev[j0]);
                        } else {
                            assert((kept@[n].card_id@, kept@[n].event, kept@[n].last_seen)
                                == orig[i]);
                        }
                    }
                    assert forall|a: int, b: int| 0 <= a < b < kept@.len() implies kept@[
                    a].card_id@ != kept@[b].card_id@ by {
                        if b == n {
                            let w = choose|w: int| #![trigger orig[w]]
                                0 <= w < k && (kept@[a].card_id@, kept@[a].event, kept@[
                                a].last_seen) == orig[w];
                            assert(orig[w].0 != orig[k as int].0);
                        }
                    }
                }
            }
            k = k + 1;
        }
        self.entries = kept;
        proof {
            assert forall|j: int| 0 <= j < self.view_entries().len() implies old(self).view_entries().contains(self.view_entries()[j]) by {
                assert((kept@[j].card_id@, kept@[j].event, kept@[j].last_seen) == self
                    .view_entries()[j]);
                let w = choose|i: int| #![trigger orig[i]]
                    0 <= i < orig.len() && (kept@[j].card_id@, kept@[j].event, kept@[j].last_seen)
                        == orig[i];
                assert(old(self).view_entries()[w] == self.view_entries()[j]);
            }
            assert forall|i: int|
                0 <= i < old(self).view_entries().len() && sat_sub(
                    now,
                    old(self).view_entries()[i].2,
                ) <= old(self).ttl() && (skip_id matches Some(sid) ==> old(self).view_entries()[i].0 != sid@) implies self.view_entries().contains(
                old(self).view_entries()[i],
            ) by {
                let j = choose|j: int| #![trigger kept@[j]]
                    0 <= j < kept@.len() && (kept@[j].card_id@, kept@[j].event, kept@[
                    j].last_seen) == orig[i];
                assert(self.view_entries()[j] == orig[i]);
            }
            assert forall|j: int| 0 <= j < self.view_entries().len() implies sat_sub(
                now,
                self.view_entries()[j].2,
            ) <= self.ttl() by {
                assert(self.view_entries()[j].2 == kept@[j].last_seen);
            }
            match skip_id {
                Some(sid) => {
                    assert forall|j: int| 0 <= j < self.view_entries().len() implies self
                        .view_entries()[j].0 != sid@ by {
                        assert(self.view_entries()[j].0 == kept@[j].card_id@);
                    }
                },
                None => {},
            }
        }
    }
}

} // verus!
