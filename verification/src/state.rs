//! The decision engine: all mutable gateway state behind one lock,
//! and the per-tap decision that turns a card-detected report into
//! an ACK, an optional tap event, an optional upload record, an
//! optional card rewrite and an optional registration payload.

use vstd::prelude::*;

verus! {

use vstd::string::{StringExecFns, StringSliceAdditionalSpecFns};
use vstd::utf8::encode_utf8;
use crate::cache::{
    ActiveTripCache, BlacklistCache, CardStateSnapshotCache, ConfigCache, TapDebounce,
    TapEventCache, sat_sub, blacklist_contains, debounce_hit, trip_hit,
};
use crate::card_data::{
    CardData, CardStatus, card_bytes, parse_err, spec_uid_from_hex, decode_uid_hex,
    CARD_DATA_BLOCK_COUNT, CARD_DATA_BLOCK_START, CARD_DATA_LEN,
};
use crate::fare::{spec_standard_fare, spec_estimate_fare};
use crate::model::{
    CardRegistration, CardStateSnapshot, Direction, GatewaySettings, PassengerTone, RouteConfig,
    TapEvent, TapMode, TapType, UploadRecord,
};
use crate::serial::{CardAck, CardDetected, CardWriteRequest, CardWriteResult};
use crate::strutil::{dec_str, hex_prefix, hex_str, u64_to_string};
use crate::wire::{u16_from_le, u32_from_le};

/// How long a looked-up card profile stays usable, in milliseconds.
pub const CARD_CACHE_TTL_MS: u64 = 600000;

pub const RECHARGE_MODE_TTL_MS: u64 = 60000;

pub const REGISTER_MODE_TTL_MS: u64 = 60000;

pub const PASSENGER_MSG_TTL_OK_MS: u64 = 2000;

pub const PASSENGER_MSG_TTL_ACTION_MS: u64 = 3000;

pub const PASSENGER_MSG_TTL_ERROR_MS: u64 = 3000;

pub const MAX_RECHARGE_CENTS: u32 = 20000;

pub const CARD_PROFILE_CACHE_CAP: usize = 256;

/// Which write the gateway last asked for, so a failure report can
/// name it.
#[derive(Clone, Copy, Debug, PartialEq, Eq, Structural)]
pub enum WriteContext {
    TapIn,
    TapOut,
    Recharge,
    Register,
    Blacklist,
}

/// Operator state: the next tap credits the card.
#[derive(Clone, Copy, Debug, PartialEq, Eq, Structural)]
pub struct RechargeMode {
    pub amount_cents: u32,
    pub expires_at_ms: u64,
}

/// Operator state: the next tap provisions a blank card.
#[derive(Clone, Copy, Debug, PartialEq, Eq, Structural)]
pub struct RegisterMode {
    pub expires_at_ms: u64,
}

/// What the backend knows about a card, cached after a lookup.
/// The discount rate is stored in basis points (a clamped fraction
/// of ten thousand), amounts and balances in cents.
#[derive(Clone, Debug)]
pub struct CachedCardProfile {
    pub card_type: Option<String>,
    pub status: Option<String>,
    pub discount_rate_bp: Option<u32>,
    pub discount_amount_cents: Option<u32>,
    pub balance_cents: Option<u32>,
    pub updated_at_ms: u64,
}

fn dup_opt_string(o: &Option<String>) -> (r: Option<String>)
    ensures
        r == *o,
{
    match o {
        Some(s) => Some(s.clone()),
        None => None,
    }
}

impl CachedCardProfile {
    /// An equal copy of the profile.
    pub fn duplicate(&self) -> (r: Self)
        ensures
            r == *self,
    {
        Self {
            card_type: dup_opt_string(&self.card_type),
            status: dup_opt_string(&self.status),
            discount_rate_bp: self.discount_rate_bp,
            discount_amount_cents: self.discount_amount_cents,
            balance_cents: self.balance_cents,
            updated_at_ms: self.updated_at_ms,
        }
    }
}

/// Current route, station and direction.
#[derive(Clone, Debug)]
pub struct RouteState {
    pub route_id: u16,
    pub station_id: u16,
    pub station_name: String,
    pub direction: Direction,
}

impl RouteState {
    pub fn new(route_id: u16, station_id: u16, station_name: String, direction: Direction) -> (r:
        Self)
        ensures
            r.route_id == route_id,
            r.station_id == station_id,
            r.station_name == station_name,
            r.direction == direction,
    {
        Self { route_id, station_id, station_name, direction }
    }
}

// ---------------------------------------------------------------
// Card profile cache
// ---------------------------------------------------------------

struct ProfileEntry {
    card_id: String,
    profile: CachedCardProfile,
}

/// Card profiles keyed by card id, capped, evicting the entry with
/// the oldest timestamp when full.
pub struct CardProfileCache {
    entries: Vec<ProfileEntry>,
}

/// The profile stored under this id, if any.
pub open spec fn profile_lookup(
    entries: Seq<(Seq<char>, CachedCardProfile)>,
    id: Seq<char>,
) -> Option<CachedCardProfile>
    decreases entries.len(),
{
    if entries.len() == 0 {
        None
    } else if entries[0].0 == id {
        Some(entries[0].1)
    } else {
        profile_lookup(entries.drop_first(), id)
    }
}

/// The stored profile, provided it is still fresh.
pub open spec fn fresh_profile(
    entries: Seq<(Seq<char>, CachedCardProfile)>,
    id: Seq<char>,
    now_ms: u64,
) -> Option<CachedCardProfile> {
    match profile_lookup(entries, id) {
        Some(p) => if sat_sub(now_ms, p.updated_at_ms) <= CARD_CACHE_TTL_MS {
            Some(p)
        } else {
            None
        },
        None => None,
    }
}

impl CardProfileCache {
    pub closed spec fn view_entries(&self) -> Seq<(Seq<char>, CachedCardProfile)> {
        Seq::new(
            self.entries@.len(),
            |i: int| (self.entries@[i].card_id@, self.entries@[i].profile),
        )
    }

    pub closed spec fn wf(&self) -> bool {
        self.entries@.len() <= CARD_PROFILE_CACHE_CAP
    }

    pub fn new() -> (r: Self)
        ensures
            r.wf(),
            r.view_entries() == Seq::<(Seq<char>, CachedCardProfile)>::empty(),
    {
        let r = Self { entries: Vec::new() };
        proof {
            assert(r.view_entries() =~= Seq::<(Seq<char>, CachedCardProfile)>::empty());
        }
        r
    }

    pub fn len(&self) -> (r: usize)
        ensures
            r == self.view_entries().len(),
    {
        self.entries.len()
    }

    /// The fresh profile under this id, if the cache holds one.
    #[verifier::loop_isolation(false)]
    pub fn get(&self, card_id: &str, now_ms: u64) -> (r: Option<CachedCardProfile>)
        ensures
            r == fresh_profile(self.view_entries(), card_id@, now_ms),
    {
        let mut i: usize = 0;
        proof {
            assert(self.view_entries().skip(0) =~= self.view_entries());
        }
        while i < self.entries.len()
            invariant
                i <= self.entries@.len(),
                profile_lookup(self.view_entries(), card_id@) == profile_lookup(
                    self.view_entries().skip(i as int),
                    card_id@,
                ),
            decreases self.entries@.len() - i,
        {
            proof {
                assert(self.view_entries().skip(i as int)[0] == self.view_entries()[i as int]);
                assert(self.view_entries().skip(i as int).drop_first() =~= self
                    .view_entries().skip(i as int + 1));
            }
            if crate::strutil::str_eq(self.entries[i].card_id.as_str(), card_id) {
                let p = self.entries[i].profile.duplicate();
                if crate::cache::sat_sub_exec(now_ms, p.updated_at_ms) <= CARD_CACHE_TTL_MS {
                    return Some(p);
                }
                return None;
            }
            i = i + 1;
        }
        proof {
            assert(self.view_entries().skip(self.view_entries().len() as int) =~= Seq::<(
                Seq<char>,
                CachedCardProfile,
            )>::empty());
        }
        None
    }

    /// Stores a profile, replacing the entry for the same card or,
    /// at capacity, evicting one entry to make room. Afterwards the
    /// id maps to exactly this profile and the cap still holds.
    #[verifier::loop_isolation(false)]
    #[verifier::rlimit(100)]
    pub fn insert(&mut self, card_id: String, profile: CachedCardProfile)
        requires
            old(self).wf(),
        ensures
            final(self).wf(),
            final(self).view_entries().len() <= CARD_PROFILE_CACHE_CAP,
            profile_lookup(final(self).view_entries(), card_id@) == Some(profile),
            profile_lookup(old(self).view_entries(), card_id@) is Some ==> final(self).view_entries().len() == old(self).view_entries().len(),
            profile_lookup(old(self).view_entries(), card_id@) is None && old(self).view_entries().len() < CARD_PROFILE_CACHE_CAP ==> final(self).view_entries().len()
                == old(self).view_entries().len() + 1,
            profile_lookup(old(self).view_entries(), card_id@) is None && old(self).view_entries().len() >= CARD_PROFILE_CACHE_CAP ==> final(self).view_entries().len()
                == CARD_PROFILE_CACHE_CAP,
    {
        let mut i: usize = 0;
        while i < self.entries.len()
            invariant
                i <= self.entries@.len(),
                self == old(self),
                forall|k: int| 0 <= k < i ==> self.view_entries()[k].0 != card_id@,
            decreases self.entries@.len() - i,
        {
            if crate::strutil::str_eq(self.entries[i].card_id.as_str(), card_id.as_str()) {
                proof {
                    lemma_profile_lookup_first(self.view_entries(), card_id@, i as int);
                }
                self.entries.remove(i);
                self.entries.insert(i, ProfileEntry { card_id, profile });
                proof {
                    assert(self.view_entries()[i as int] == (self.entries@[i as int].card_id@,
                    profile));
                    assert forall|k: int| 0 <= k < i implies self.view_entries()[k].0 != self
                        .view_entries()[i as int].0 by {
                        assert(self.view_entries()[k] == old(self).view_entries()[k]);
                    }
                    lemma_profile_lookup_first(self.view_entries(), card_id@, i as int);
                }
                return ;
            }
            i = i + 1;
        }
        proof {
            lemma_profile_lookup_absent(self.view_entries(), card_id@);
        }
        if self.entries.len() >= CARD_PROFILE_CACHE_CAP {
            let mut oldest: usize = 0;
            let mut k: usize = 1;
            while k < self.entries.len()
                invariant
                    oldest < k <= self.entries@.len(),
                    self == old(self),
                decreases self.entries@.len() - k,
            {
                if self.entries[k].profile.updated_at_ms
                    < self.entries[oldest].profile.updated_at_ms {
                    oldest = k;
                }
                k = k + 1;
            }
            if self.entries.len() > 0 {
                let ghost before = self.view_entries();
                self.entries.remove(oldest);
                proof {
                    assert forall|j: int| 0 <= j < self.view_entries().len() implies self
                        .view_entries()[j].0 != card_id@ by {
                        if j < oldest {
                            assert(self.view_entries()[j] == before[j]);
                        } else {
                            assert(self.view_entries()[j] == before[j + 1]);
                        }
                    }
                }
            }
        }
        if self.entries.len() < CARD_PROFILE_CACHE_CAP {
            let ghost room = self.view_entries();
            self.entries.push(ProfileEntry { card_id, profile });
            proof {
                let n = self.view_entries().len() - 1;
                assert(self.view_entries()[n] == (self.entries@[n].card_id@, profile));
                assert forall|k: int| 0 <= k < n implies self.view_entries()[k].0 != self
                    .view_entries()[n].0 by {
                    assert(self.view_entries()[k] == room[k]);
                }
                lemma_profile_lookup_first(self.view_entries(), card_id@, n);
            }
        }
    }
}

/// The lookup answers with the entry at the first index holding the
/// id.
proof fn lemma_profile_lookup_first(
    entries: Seq<(Seq<char>, CachedCardProfile)>,
    id: Seq<char>,
    i: int,
)
    requires
        0 <= i < entries.len(),
        entries[i].0 == id,
        forall|k: int| 0 <= k < i ==> entries[k].0 != id,
    ensures
        profile_lookup(entries, id) == Some(entries[i].1),
    decreases i,
{
    if i > 0 {
        lemma_profile_lookup_first(entries.drop_first(), id, i - 1);
    }
}

/// An id held by no entry is not found.
proof fn lemma_profile_lookup_absent(entries: Seq<(Seq<char>, CachedCardProfile)>, id: Seq<char>)
    requires
        forall|k: int| 0 <= k < entries.len() ==> entries[k].0 != id,
    ensures
        profile_lookup(entries, id) is None,
    decreases entries.len(),
{
    if entries.len() > 0 {
        lemma_profile_lookup_absent(entries.drop_first(), id);
    }
}


// ---------------------------------------------------------------
// Gateway state
// ---------------------------------------------------------------

/// All mutable domain state of the gateway, kept behind one lock by
/// the caller.
pub struct GatewayState {
    pub settings: GatewaySettings,
    pub route_state: RouteState,
    pub config_cache: ConfigCache,
    pub blacklist_cache: BlacklistCache,
    pub tap_cache: TapEventCache,
    pub debounce: TapDebounce,
    pub active_trips: ActiveTripCache,
    pub wifi_connected: bool,
    pub backend_reachable: bool,
    pub backend_base_url: String,
    pub last_card_id: String,
    pub last_card_data_len: usize,
    pub last_card_data_prefix_hex: Option<String>,
    pub last_card_data_error: Option<String>,
    pub last_tap_nonce: u32,
    pub last_message_deadline_ms: u64,
    pub last_passenger_tone: PassengerTone,
    pub last_passenger_message: String,
    pub last_fare_base_cents: Option<u32>,
    pub last_fare_cents: Option<u32>,
    pub last_fare_label: String,
    pub last_balance_cents: Option<u32>,
    pub last_tap_type: Option<TapType>,
    pub card_cache: CardProfileCache,
    pub card_state_cache: CardStateSnapshotCache,
    pub recharge_mode: Option<RechargeMode>,
    pub register_mode: Option<RegisterMode>,
    pub last_write_context: Option<WriteContext>,
    pub last_written_balance_cents: Option<u32>,
    pub record_seq: u32,
}

/// The decision for one tap: the ACK for the reader, and the
/// optional event, upload record, card rewrite and registration it
/// produces.
pub struct Decision {
    pub ack: CardAck,
    pub event: Option<TapEvent>,
    pub upload_record: Option<UploadRecord>,
    pub write_request: Option<CardWriteRequest>,
    pub registration: Option<CardRegistration>,
}

/// `a + b`, stopping at the top of the range.
pub open spec fn sat_add64(a: u64, b: u64) -> u64 {
    if a + b > u64::MAX {
        u64::MAX
    } else {
        (a + b) as u64
    }
}

/// `a + b` in cents, stopping at the top of the range.
pub open spec fn sat_add32(a: u32, b: u32) -> u32 {
    if a + b > u32::MAX {
        u32::MAX
    } else {
        (a + b) as u32
    }
}

// ---------------------------------------------------------------
// Spec views of a tap
// ---------------------------------------------------------------

/// The card record in the report is usable: it parses, and when the
/// card id spells a UID that UID matches the record.
pub open spec fn card_ok(d: CardDetected) -> bool {
    &&& parse_err(d.card_data@) is None
    &&& (spec_uid_from_hex(encode_utf8(d.card_id@)) matches Some(u) ==> u == d.card_data@.subrange(
        4,
        8,
    ))
}

/// The balance stored in the reported card record.
pub open spec fn card_balance_of(d: CardDetected) -> u32 {
    u32_from_le(d.card_data@[12], d.card_data@[13], d.card_data@[14], d.card_data@[15])
}

/// The status byte stored in the reported card record.
pub open spec fn card_status_of(d: CardDetected) -> u8 {
    d.card_data@[16]
}

/// The UID the card id string spells, if it is 8 hex characters.
pub open spec fn uid_of(d: CardDetected) -> Option<Seq<u8>> {
    spec_uid_from_hex(encode_utf8(d.card_id@))
}

pub open spec fn profile_blocked(p: CachedCardProfile) -> bool {
    p.status matches Some(s) && s@ == "blocked"@
}

pub open spec fn profile_lost(p: CachedCardProfile) -> bool {
    p.status matches Some(s) && s@ == "lost"@
}

/// Register mode is set and has not yet expired.
pub open spec fn reg_active(s: GatewayState, now_ms: u64) -> bool {
    s.register_mode matches Some(m) && now_ms < m.expires_at_ms
}

/// Recharge mode is set and has not yet expired.
pub open spec fn rech_active(s: GatewayState, now_ms: u64) -> bool {
    s.recharge_mode matches Some(m) && now_ms < m.expires_at_ms
}

/// The fresh backend profile a tap can fall back on when the card
/// record itself is unusable: only reachable through a well-formed
/// card id.
pub open spec fn spec_fallback(s: GatewayState, d: CardDetected, now_ms: u64) -> Option<
    CachedCardProfile,
> {
    if uid_of(d) is Some {
        fresh_profile(s.card_cache.view_entries(), d.card_id@, now_ms)
    } else {
        None
    }
}

/// The tap has a usable card value: the record itself, or a fresh
/// backend profile that is neither blocked nor lost.
pub open spec fn eff_ok(s: GatewayState, d: CardDetected, now_ms: u64) -> bool {
    card_ok(d) || (spec_fallback(s, d, now_ms) matches Some(p) && !profile_blocked(p)
        && !profile_lost(p))
}

/// The balance the tap works with.
pub open spec fn eff_balance(s: GatewayState, d: CardDetected, now_ms: u64) -> u32 {
    if card_ok(d) {
        card_balance_of(d)
    } else {
        match spec_fallback(s, d, now_ms) {
            Some(p) => match p.balance_cents {
                Some(b) => b,
                None => 0u32,
            },
            None => 0u32,
        }
    }
}

/// The card status the tap works with; a synthesised fallback card
/// is always idle.
pub open spec fn eff_status(s: GatewayState, d: CardDetected, now_ms: u64) -> u8 {
    if card_ok(d) {
        card_status_of(d)
    } else {
        0
    }
}

// ---------------------------------------------------------------
// Discount policy, in cents
// ---------------------------------------------------------------

pub open spec fn clamp_bp(bp: u32) -> u32 {
    if bp > 10000 {
        10000
    } else {
        bp
    }
}

/// A rate discount in basis points of the base fare, rounded to the
/// nearest cent, half up.
pub open spec fn rate_discount(b: u32, bp: u32) -> u32 {
    (((b * clamp_bp(bp)) + 5000) / 10000) as u32
}

/// The rate discount never exceeds the fare itself.
pub proof fn lemma_rate_discount_le(b: u32, bp: u32)
    ensures
        rate_discount(b, bp) <= b,
    {
    assert((b * clamp_bp(bp) + 5000) / 10000 <= b) by (nonlinear_arith)
        requires
            clamp_bp(bp) <= 10000,
    ;
}

/// A full rate takes the whole fare: riding free means paying zero.
pub proof fn lemma_rate_discount_full(b: u32)
    ensures
        rate_discount(b, 10000) == b,
{
    assert((b * 10000 + 5000) / 10000 == b) by (nonlinear_arith);
}

/// The route's standard fare, read off the cached config.
pub open spec fn cfg_standard(s: GatewayState) -> Option<u32> {
    match s.config_cache.route {
        Some(cfg) => spec_standard_fare(cfg.fares@),
        None => None,
    }
}

/// The tap mode in force: the cached config's, or single-tap.
pub open spec fn cfg_tap_mode(s: GatewayState) -> TapMode {
    match s.config_cache.route {
        Some(cfg) => cfg.tap_mode,
        None => TapMode::SingleTap,
    }
}

impl GatewayState {
    /// The caches are well-formed and at most one operator mode is
    /// set.
    pub open spec fn wf(&self) -> bool {
        &&& self.debounce.wf()
        &&& self.active_trips.wf()
        &&& self.card_cache.wf()
        &&& !(self.recharge_mode is Some && self.register_mode is Some)
    }

    /// Assembles a state from its parts.
    pub fn new(
        settings: GatewaySettings,
        route_state: RouteState,
        config_cache: ConfigCache,
        blacklist_cache: BlacklistCache,
        tap_cache: TapEventCache,
        debounce: TapDebounce,
        active_trips: ActiveTripCache,
    ) -> (r: Self)
        requires
            debounce.wf(),
            active_trips.wf(),
        ensures
            r.wf(),
            r.settings == settings,
            r.route_state == route_state,
            r.recharge_mode is None,
            r.register_mode is None,
            r.last_written_balance_cents is None,
            r.backend_reachable == false,
            r.wifi_connected == false,
            r.tap_cache == tap_cache,
            r.debounce == debounce,
            r.active_trips == active_trips,
            r.blacklist_cache == blacklist_cache,
            r.config_cache == config_cache,
            r.card_cache.view_entries() == Seq::<(Seq<char>, CachedCardProfile)>::empty(),
            r.card_state_cache.view_snapshots() == Seq::<CardStateSnapshot>::empty(),
            r.card_state_cache.cap() == settings.tap_cache_max,
            r.last_passenger_tone == PassengerTone::Normal,
            r.record_seq == 0u32,
    {
        let tap_cache_max = settings.tap_cache_max;
        Self {
            settings,
            route_state,
            config_cache,
            blacklist_cache,
            tap_cache,
            debounce,
            active_trips,
            wifi_connected: false,
            backend_reachable: false,
            backend_base_url: String::new(),
            last_card_id: String::new(),
            last_card_data_len: 0,
            last_card_data_prefix_hex: None,
            last_card_data_error: None,
            last_tap_nonce: 0,
            last_message_deadline_ms: 0,
            last_passenger_tone: PassengerTone::Normal,
            last_passenger_message: String::from_str("等待刷卡"),
            last_fare_base_cents: None,
            last_fare_cents: None,
            last_fare_label: String::from_str("应付"),
            last_balance_cents: None,
            last_tap_type: None,
            card_cache: CardProfileCache::new(),
            card_state_cache: CardStateSnapshotCache::new(tap_cache_max),
            recharge_mode: None,
            register_mode: None,
            last_write_context: None,
            last_written_balance_cents: None,
            record_seq: 0,
        }
    }

    /// The boot-time state: route unset, caches empty, TTLs from the
    /// settings.
    pub fn bootstrap(settings: GatewaySettings) -> (r: Self)
        ensures
            r.wf(),
            r.route_state.route_id == 0u16,
            r.route_state.station_id == 0u16,
            r.recharge_mode is None,
            r.register_mode is None,
    {
        let config_ttl = settings.config_ttl_secs;
        let blacklist_ttl = settings.blacklist_ttl_secs;
        let tap_cache_max = settings.tap_cache_max;
        let debounce_window = settings.debounce_window_secs;
        let active_trip_ttl = settings.active_trip_ttl_secs;
        let route_state = RouteState::new(0, 0, String::from_str("未设置"), Direction::Up);
        Self::new(
            settings,
            route_state,
            ConfigCache::new(config_ttl),
            BlacklistCache::new(blacklist_ttl),
            TapEventCache::new(tap_cache_max),
            TapDebounce::new(debounce_window, 128),
            ActiveTripCache::new(active_trip_ttl),
        )
    }

    /// Sets the current route, station and direction.
    pub fn update_route(
        &mut self,
        route_id: u16,
        station_id: u16,
        station_name: String,
        direction: Direction,
    )
        requires
            old(self).wf(),
        ensures
            final(self).wf(),
            final(self).route_state.route_id == route_id,
            final(self).route_state.station_id == station_id,
            final(self).route_state.station_name == station_name,
            final(self).route_state.direction == direction,
            *final(self) == (GatewayState {
                route_state: final(self).route_state,
                ..*old(self)
            }),
    {
        self.route_state.route_id = route_id;
        self.route_state.station_id = station_id;
        self.route_state.station_name = station_name;
        self.route_state.direction = direction;
    }

    pub fn set_direction(&mut self, direction: Direction)
        requires
            old(self).wf(),
        ensures
            final(self).wf(),
            final(self).route_state.direction == direction,
            *final(self) == (GatewayState {
                route_state: final(self).route_state,
                ..*old(self)
            }),
            final(self).route_state == (RouteState { direction, ..old(self).route_state }),
    {
        self.route_state.direction = direction;
    }

    /// Replaces the blacklist cache.
    pub fn update_blacklist(&mut self, cards: Vec<String>, now: u64)
        requires
            old(self).wf(),
        ensures
            final(self).wf(),
            final(self).blacklist_cache.cards == cards,
            final(self).blacklist_cache.fetched_at == now,
            *final(self) == (GatewayState {
                blacklist_cache: final(self).blacklist_cache,
                ..*old(self)
            }),
    {
        self.blacklist_cache.replace(cards, now);
    }

    /// Points later backend calls at a new base URL.
    pub fn update_backend_base_url(&mut self, url: String)
        requires
            old(self).wf(),
        ensures
            final(self).wf(),
            final(self).backend_base_url == url,
            *final(self) == (GatewayState { backend_base_url: url, ..*old(self) }),
    {
        self.backend_base_url = url;
    }

    /// Updates the health flags that were observed.
    pub fn update_health(&mut self, wifi_connected: Option<bool>, backend_reachable: Option<bool>)
        requires
            old(self).wf(),
        ensures
            final(self).wf(),
            final(self).wifi_connected == (match wifi_connected {
                Some(v) => v,
                None => old(self).wifi_connected,
            }),
            final(self).backend_reachable == (match backend_reachable {
                Some(v) => v,
                None => old(self).backend_reachable,
            }),
            *final(self) == (GatewayState {
                wifi_connected: final(self).wifi_connected,
                backend_reachable: final(self).backend_reachable,
                ..*old(self)
            }),
    {
        if let Some(connected) = wifi_connected {
            self.wifi_connected = connected;
        }
        if let Some(reachable) = backend_reachable {
            self.backend_reachable = reachable;
        }
    }

    /// Arms recharge mode for about a minute; a zero or oversized
    /// amount is refused. Register mode is cleared: the modes are
    /// exclusive.
    pub fn set_recharge_mode(&mut self, amount_cents: u32, now_ms: u64)
        requires
            old(self).wf(),
        ensures
            final(self).wf(),
            amount_cents == 0 || amount_cents > MAX_RECHARGE_CENTS ==> *final(self) == *old(self),
            0 < amount_cents <= MAX_RECHARGE_CENTS ==> *final(self) == (GatewayState {
                register_mode: None::<RegisterMode>,
                recharge_mode: Some(
                    RechargeMode {
                        amount_cents,
                        expires_at_ms: sat_add64(now_ms, RECHARGE_MODE_TTL_MS),
                    },
                ),
                ..*old(self)
            }),
    {
        if amount_cents == 0 || amount_cents > MAX_RECHARGE_CENTS {
            return ;
        }
        self.register_mode = None;
        self.recharge_mode = Some(
            RechargeMode { amount_cents, expires_at_ms: now_ms.saturating_add(RECHARGE_MODE_TTL_MS) },
        );
    }

    pub fn clear_recharge_mode(&mut self)
        requires
            old(self).wf(),
        ensures
            final(self).wf(),
            *final(self) == (GatewayState { recharge_mode: None::<RechargeMode>, ..*old(self) }),
    {
        self.recharge_mode = None;
    }

    /// Arms register mode for about a minute, clearing recharge
    /// mode.
    pub fn set_register_mode(&mut self, now_ms: u64)
        requires
            old(self).wf(),
        ensures
            final(self).wf(),
            *final(self) == (GatewayState {
                recharge_mode: None::<RechargeMode>,
                register_mode: Some(
                    RegisterMode { expires_at_ms: sat_add64(now_ms, REGISTER_MODE_TTL_MS) },
                ),
                ..*old(self)
            }),
    {
        self.recharge_mode = None;
        self.register_mode = Some(
            RegisterMode { expires_at_ms: now_ms.saturating_add(REGISTER_MODE_TTL_MS) },
        );
    }

    pub fn clear_register_mode(&mut self)
        requires
            old(self).wf(),
        ensures
            final(self).wf(),
            *final(self) == (GatewayState { register_mode: None::<RegisterMode>, ..*old(self) }),
    {
        self.register_mode = None;
    }

    /// Silently clears whichever operator mode has expired.
    fn refresh_modes(&mut self, now_ms: u64)
        requires
            old(self).wf(),
        ensures
            final(self).wf(),
            final(self).recharge_mode == (if rech_active(*old(self), now_ms) {
                old(self).recharge_mode
            } else {
                None::<RechargeMode>
            }),
            final(self).register_mode == (if reg_active(*old(self), now_ms) {
                old(self).register_mode
            } else {
                None::<RegisterMode>
            }),
            *final(self) == (GatewayState {
                recharge_mode: final(self).recharge_mode,
                register_mode: final(self).register_mode,
                ..*old(self)
            }),
    {
        let clear_rech = match &self.recharge_mode {
            Some(mode) => now_ms >= mode.expires_at_ms,
            None => false,
        };
        if clear_rech {
            self.recharge_mode = None;
        }
        let clear_reg = match &self.register_mode {
            Some(mode) => now_ms >= mode.expires_at_ms,
            None => false,
        };
        if clear_reg {
            self.register_mode = None;
        }
    }

    /// Applies the reader's report on the last write: success
    /// promotes the written balance into the display and closes a
    /// recharge; failure reports a context-specific message.
    pub fn handle_write_result(&mut self, result: CardWriteResult, now_ms: u64)
        requires
            old(self).wf(),
        ensures
            final(self).wf(),
            final(self).last_write_context is None,
            result.result == 1 ==> final(self).last_balance_cents == (match old(self).last_written_balance_cents {
                Some(b) => Some(b),
                None => old(self).last_balance_cents,
            }) && final(self).last_written_balance_cents is None,
            result.result == 1 && old(self).last_write_context == Some(WriteContext::Recharge)
                ==> final(self).recharge_mode is None,
            result.result == 1 && old(self).last_write_context != Some(WriteContext::Recharge)
                ==> final(self).recharge_mode == old(self).recharge_mode,
            result.result == 1 && old(self).last_write_context == Some(WriteContext::Register)
                ==> final(self).register_mode is None,
            result.result == 1 && old(self).last_write_context != Some(WriteContext::Register)
                ==> final(self).register_mode == old(self).register_mode,
            result.result != 1 ==> final(self).recharge_mode == old(self).recharge_mode && final(self).register_mode == old(self).register_mode && final(self).last_message_deadline_ms
                == sat_add64(now_ms, PASSENGER_MSG_TTL_ERROR_MS),
            result.result != 1 ==> final(self).last_written_balance_cents is None && final(self).last_passenger_tone == PassengerTone::Error && final(self).last_passenger_message@ == (if old(self).last_write_context == Some(
                WriteContext::Recharge,
            ) {
                "充值写卡失败"@
            } else if old(self).last_write_context == Some(WriteContext::Register) {
                "注册写卡失败"@
            } else if old(self).last_write_context == Some(WriteContext::Blacklist) {
                "冻结写卡失败"@
            } else {
                "写卡失败"@
            }),
    {
        let context = self.last_write_context;
        self.last_write_context = None;
        if result.result == 1 {
            if let Some(new_balance) = self.last_written_balance_cents {
                self.last_balance_cents = Some(new_balance);
                self.last_written_balance_cents = None;
            }
            if matches!(context, Some(WriteContext::Recharge)) {
                self.recharge_mode = None;
            }
            if matches!(context, Some(WriteContext::Register)) {
                self.register_mode = None;
            }
            return ;
        }
        self.last_written_balance_cents = None;
        let message: &'static str = match context {
            Some(WriteContext::Recharge) => "充值写卡失败",
            Some(WriteContext::Register) => "注册写卡失败",
            Some(WriteContext::Blacklist) => "冻结写卡失败",
            _ => "写卡失败",
        };
        self.last_passenger_tone = PassengerTone::Error;
        self.last_passenger_message = message.to_owned();
        self.last_message_deadline_ms = now_ms.saturating_add(PASSENGER_MSG_TTL_ERROR_MS);
    }

    /// The tone may be refined later by a backend lookup, but an
    /// error tone is never overridden.
    pub fn update_passenger_tone(&mut self, tone: PassengerTone)
        requires
            old(self).wf(),
        ensures
            final(self).wf(),
            tone != PassengerTone::Error ==> *final(self) == (GatewayState {
                last_passenger_tone: tone,
                ..*old(self)
            }),
            tone == PassengerTone::Error ==> *final(self) == *old(self),
    {
        if tone != PassengerTone::Error {
            self.last_passenger_tone = tone;
        }
    }

    /// The route's standard fare, from the cached config.
    pub fn standard_fare(&self) -> (r: Option<u32>)
        ensures
            r == cfg_standard(*self),
    {
        match &self.config_cache.route {
            Some(cfg) => cfg.standard_fare(),
            None => None,
        }
    }

    /// Stores a backend profile for a card.
    pub fn update_card_cache(
        &mut self,
        card_id: String,
        card_type: Option<String>,
        status: Option<String>,
        discount_rate_bp: Option<u32>,
        discount_amount_cents: Option<u32>,
        balance_cents: Option<u32>,
        now_ms: u64,
    )
        requires
            old(self).wf(),
        ensures
            final(self).wf(),
            final(self).card_cache.view_entries().len() <= CARD_PROFILE_CACHE_CAP,
            profile_lookup(final(self).card_cache.view_entries(), card_id@) == Some(
                CachedCardProfile {
                    card_type,
                    status,
                    discount_rate_bp,
                    discount_amount_cents,
                    balance_cents,
                    updated_at_ms: now_ms,
                },
            ),
            *final(self) == (GatewayState { card_cache: final(self).card_cache, ..*old(self) }),
    {
        let profile = CachedCardProfile {
            card_type,
            status,
            discount_rate_bp,
            discount_amount_cents,
            balance_cents,
            updated_at_ms: now_ms,
        };
        self.card_cache.insert(card_id, profile);
    }
}


// ---------------------------------------------------------------
// Tap decisions
// ---------------------------------------------------------------

/// `a` if set, else `b`.
pub open spec fn opt_or(a: Option<u32>, b: Option<u32>) -> Option<u32> {
    if a is Some {
        a
    } else {
        b
    }
}

/// The fare charged once the display fields settle: the applied
/// fare, or nothing at all.
pub open spec fn charge_of(applied: Option<u32>) -> u32 {
    match applied {
        Some(f) => f,
        None => 0u32,
    }
}

/// The base fare a tap-out starts from: the estimate between the
/// boarding and the current station, else the standard fare.
pub open spec fn spec_tapout_base(s: GatewayState, board_station: u16) -> Option<u32> {
    match s.config_cache.route {
        Some(cfg) => opt_or(
            spec_estimate_fare(cfg, board_station, s.route_state.station_id),
            spec_standard_fare(cfg.fares@),
        ),
        None => None,
    }
}

/// The pending tap-in event for a card; meaningful only when
/// `trip_hit` holds, and unique because the cache keeps one trip
/// per card.
pub open spec fn spec_pending_trip(
    entries: Seq<(Seq<char>, TapEvent, u64)>,
    id: Seq<char>,
    now: u64,
    ttl: u64,
) -> TapEvent {
    let i = choose|i: int|
        0 <= i < entries.len() && entries[i].0 == id && sat_sub(now, entries[i].2) <= ttl;
    entries[i].1
}

fn uid_eq(a: &[u8; 4], b: &[u8; 4]) -> (r: bool)
    ensures
        r == (a@ == b@),
{
    let ok = a[0] == b[0] && a[1] == b[1] && a[2] == b[2] && a[3] == b[3];
    proof {
        if ok {
            assert(a@ =~= b@);
        }
    }
    ok
}

impl GatewayState {
    /// A fresh, unique record id: gateway id, epoch seconds and a
    /// wrapping sequence number.
    fn next_record_id(&mut self, now: u64) -> (r: String)
        requires
            old(self).wf(),
        ensures
            final(self).wf(),
            *final(self) == (GatewayState {
                record_seq: old(self).record_seq.wrapping_add(1),
                ..*old(self)
            }),
            r@ == old(self).settings.gateway_id@ + seq!['-'] + dec_str(now as nat) + seq!['-']
                + dec_str(old(self).record_seq as nat),
    {
        proof {
            reveal_strlit("-");
        }
        let seq_no = self.record_seq;
        self.record_seq = self.record_seq.wrapping_add(1);
        let mut r = self.settings.gateway_id.clone();
        r.append("-");
        let t = u64_to_string(now);
        r.append(t.as_str());
        r.append("-");
        let q = u64_to_string(seq_no as u64);
        r.append(q.as_str());
        proof {
            assert(r@ =~= old(self).settings.gateway_id@ + seq!['-'] + dec_str(now as nat) + seq![
                '-',
            ] + dec_str(seq_no as nat));
        }
        r
    }

    /// Rejects the tap: error tone, the given message, fares
    /// cleared, and a plain rejected ACK carrying the given write
    /// request if any.
    fn reject_with_write(
        &mut self,
        message: &str,
        write_request: Option<CardWriteRequest>,
        now_ms: u64,
    ) -> (d: Decision)
        requires
            old(self).wf(),
        ensures
            final(self).wf(),
            *final(self) == (GatewayState {
                last_passenger_tone: PassengerTone::Error,
                last_passenger_message: final(self).last_passenger_message,
                last_fare_base_cents: None::<u32>,
                last_fare_cents: None::<u32>,
                last_message_deadline_ms: sat_add64(now_ms, PASSENGER_MSG_TTL_ERROR_MS),
                ..*old(self)
            }),
            final(self).last_passenger_message@ == message@,
            d.ack.result == 0u8,
            d.event is None,
            d.upload_record is None,
            d.registration is None,
            d.write_request == write_request,
    {
        self.last_passenger_tone = PassengerTone::Error;
        self.last_passenger_message = message.to_owned();
        self.last_fare_base_cents = None;
        self.last_fare_cents = None;
        self.last_message_deadline_ms = now_ms.saturating_add(PASSENGER_MSG_TTL_ERROR_MS);
        Decision {
            ack: CardAck::rejected(),
            event: None,
            upload_record: None,
            write_request,
            registration: None,
        }
    }

    /// Builds the rewrite request for a card record and remembers
    /// the written balance and context for the write-result report.
    fn build_write_request(
        &mut self,
        card_id: &str,
        card_data: &CardData,
        context: WriteContext,
    ) -> (w: CardWriteRequest)
        requires
            old(self).wf(),
        ensures
            final(self).wf(),
            *final(self) == (GatewayState {
                last_write_context: Some(context),
                last_written_balance_cents: Some(card_data.balance_cents),
                ..*old(self)
            }),
            w.card_id@ == card_id@,
            w.card_data@ == card_bytes(*card_data),
            w.block_start == CARD_DATA_BLOCK_START,
            w.block_count == CARD_DATA_BLOCK_COUNT,
    {
        self.last_write_context = Some(context);
        self.last_written_balance_cents = Some(card_data.balance_cents);
        let bytes = card_data.to_bytes();
        CardWriteRequest {
            card_id: card_id.to_owned(),
            card_data: bytes,
            block_start: CARD_DATA_BLOCK_START,
            block_count: CARD_DATA_BLOCK_COUNT,
        }
    }

    /// Queues a snapshot of the rewritten card for the backend; a
    /// full buffer drops it.
    fn push_card_snapshot(&mut self, card_id: &str, card_data: &CardData, source: &str, now_ms: u64)
        requires
            old(self).wf(),
        ensures
            final(self).wf(),
            *final(self) == (GatewayState {
                card_state_cache: final(self).card_state_cache,
                ..*old(self)
            }),
            final(self).card_state_cache.cap() == old(self).card_state_cache.cap(),
            old(self).card_state_cache.view_snapshots().len() >= old(self).card_state_cache.cap() ==> final(self).card_state_cache.view_snapshots() == old(self).card_state_cache.view_snapshots(),
            old(self).card_state_cache.view_snapshots().len() < old(self).card_state_cache.cap()
                ==> ({
                let snaps = final(self).card_state_cache.view_snapshots();
                &&& snaps.len() == old(self).card_state_cache.view_snapshots().len() + 1
                &&& snaps.drop_last() == old(self).card_state_cache.view_snapshots()
                &&& snaps.last().card_id@ == card_id@
                &&& snaps.last().balance_cents == card_data.balance_cents
                &&& snaps.last().card_status@ == crate::card_data::spec_status_str(
                    card_data.status,
                )
                &&& snaps.last().entry_station_id == card_data.entry_station_id
                &&& snaps.last().last_route_id == card_data.last_route_id
                &&& snaps.last().last_board_station_id == card_data.last_board_station_id
                &&& snaps.last().last_alight_station_id == card_data.last_alight_station_id
                &&& snaps.last().updated_at == now_ms
                &&& snaps.last().source@ == source@
            }),
    {
        let snapshot = CardStateSnapshot {
            card_id: card_id.to_owned(),
            balance_cents: card_data.balance_cents,
            card_status: card_data.status.as_str().to_owned(),
            entry_station_id: card_data.entry_station_id,
            last_route_id: card_data.last_route_id,
            last_direction: match card_data.last_direction {
                Some(d) => Some(d.as_str().to_owned()),
                None => None,
            },
            last_board_station_id: card_data.last_board_station_id,
            last_alight_station_id: card_data.last_alight_station_id,
            updated_at: now_ms,
            source: source.to_owned(),
        };
        let _ = self.card_state_cache.push(snapshot);
    }

    /// Applies the default discount for a card type to the shown
    /// fare.
    pub fn apply_card_discount(&mut self, card_type: &str)
        requires
            old(self).wf(),
        ensures
            final(self).wf(),
            opt_or(old(self).last_fare_base_cents, old(self).last_fare_cents) is None ==> *final(self) == *old(self),
            !(card_type@ == "student"@ || card_type@ == "elder"@ || card_type@ == "disabled"@)
                ==> *final(self) == *old(self),
            opt_or(old(self).last_fare_base_cents, old(self).last_fare_cents) matches Some(b)
                ==> (*final(self) == (GatewayState {
                last_fare_cents: final(self).last_fare_cents,
                last_fare_label: final(self).last_fare_label,
                ..*old(self)
            }) && ((card_type@ == "student"@ || card_type@ == "elder"@ || card_type@
                == "disabled"@) ==> final(self).last_fare_cents == Some(
                (b - spec_default_discount_ty(b, card_type@)) as u32,
            ))),
    {
        let base = match self.last_fare_base_cents {
            Some(b) => Some(b),
            None => self.last_fare_cents,
        };
        let b = match base {
            Some(b) => b,
            None => {
                return ;
            },
        };
        let bp: u32 = if crate::strutil::str_eq(card_type, "student") {
            5000
        } else if crate::strutil::str_eq(card_type, "elder") {
            10000
        } else if crate::strutil::str_eq(card_type, "disabled") {
            10000
        } else {
            return ;
        };
        let discount = rate_discount_exec(b, bp);
        proof {
            lemma_rate_discount_le(b, bp);
            lemma_rate_discount_full(b);
        }
        self.last_fare_cents = Some(b - discount);
        let label = self.discount_label();
        self.last_fare_label = label.to_owned();
    }

    /// Applies a backend discount policy to the shown fare: an
    /// explicit amount wins, else a rate, else the defaults.
    pub fn apply_card_discount_policy(
        &mut self,
        card_type: &str,
        discount_rate_bp: Option<u32>,
        discount_amount_cents: Option<u32>,
    )
        requires
            old(self).wf(),
        ensures
            final(self).wf(),
            opt_or(old(self).last_fare_base_cents, old(self).last_fare_cents) is None ==> *final(self) == *old(self),
            opt_or(old(self).last_fare_base_cents, old(self).last_fare_cents) matches Some(b)
                ==> (*final(self) == (GatewayState {
                last_fare_cents: final(self).last_fare_cents,
                last_fare_label: final(self).last_fare_label,
                ..*old(self)
            }) && (final(self).last_fare_cents == Some(
                (b - spec_discount(b, discount_rate_bp, discount_amount_cents, card_type@)) as u32,
            ) || (spec_discount(b, discount_rate_bp, discount_amount_cents, card_type@) == 0
                && final(self).last_fare_cents == old(self).last_fare_cents))),
    {
        let base = match self.last_fare_base_cents {
            Some(b) => Some(b),
            None => self.last_fare_cents,
        };
        let b = match base {
            Some(v) => v,
            None => {
                return ;
            },
        };
        let has_policy = discount_rate_bp.is_some() || discount_amount_cents.is_some();
        let mut discount: u32 = 0;
        if let Some(amount) = discount_amount_cents {
            if amount > 0 {
                discount = if amount > b {
                    b
                } else {
                    amount
                };
            }
        }
        let amount_zero = match discount_amount_cents {
            Some(a) => a == 0,
            None => true,
        };
        if discount == 0 && amount_zero {
            if let Some(bp) = discount_rate_bp {
                discount = rate_discount_exec(b, bp);
                proof {
                    lemma_rate_discount_le(b, bp);
                }
            }
        }
        if discount == 0 && !has_policy {
            self.apply_card_discount(card_type);
            return ;
        }
        proof {
            lemma_discount_le_fields(b, discount_rate_bp, discount_amount_cents, card_type@);
        }
        self.last_fare_cents = Some(b - discount);
        let label = self.discount_label();
        self.last_fare_label = label.to_owned();
    }

    /// The label for a discounted fare, by tap mode and side.
    fn discount_label(&self) -> (r: &'static str)
    {
        let tap_mode = match &self.config_cache.route {
            Some(cfg) => cfg.tap_mode,
            None => TapMode::SingleTap,
        };
        if tap_mode == TapMode::TapInOut {
            match self.last_tap_type {
                Some(TapType::TapIn) => "优惠起步价",
                Some(TapType::TapOut) => "优惠结算价",
                None => "优惠票价",
            }
        } else {
            "优惠票价"
        }
    }
}

/// Discount by plain policy fields: an explicit positive amount
/// capped at the fare, else an explicit rate, else zero for a
/// supplied-but-zero amount, else the card-type default.
pub open spec fn spec_discount(
    b: u32,
    rate_bp: Option<u32>,
    amount: Option<u32>,
    ty: Seq<char>,
) -> u32 {
    let amt = match amount {
        Some(a) => a,
        None => 0u32,
    };
    if amt > 0 {
        if amt > b {
            b
        } else {
            amt
        }
    } else {
        match rate_bp {
            Some(bp) => rate_discount(b, bp),
            None => if amount is Some {
                0
            } else {
                spec_default_discount_ty(b, ty)
            },
        }
    }
}

/// The card-type default over the plain type string.
pub open spec fn spec_default_discount_ty(b: u32, ty: Seq<char>) -> u32 {
    if ty == "student"@ {
        rate_discount(b, 5000)
    } else if ty == "elder"@ || ty == "disabled"@ {
        b
    } else {
        0
    }
}

proof fn lemma_discount_le_fields(b: u32, rate_bp: Option<u32>, amount: Option<u32>, ty: Seq<char>)
    ensures
        spec_discount(b, rate_bp, amount, ty) <= b,
{
    lemma_rate_discount_le(b, match rate_bp {
        Some(bp) => bp,
        None => 0u32,
    });
    lemma_rate_discount_le(b, 5000);
}

/// A rate discount in basis points, rounded half up to a cent.
fn rate_discount_exec(b: u32, bp: u32) -> (r: u32)
    ensures
        r == rate_discount(b, bp),
{
    let clamped: u32 = if bp > 10000 {
        10000
    } else {
        bp
    };
    proof {
        assert((b as u64) * (clamped as u64) <= 0xFFFF_FFFFu64 * 10000u64) by (nonlinear_arith)
            requires
                b as u64 <= 0xFFFF_FFFFu64,
                clamped as u64 <= 10000u64,
        ;
        lemma_rate_discount_le(b, bp);
    }
    let product: u64 = (b as u64) * (clamped as u64);
    (((product + 5000) / 10000)) as u32
}


// ---------------------------------------------------------------
// The per-tap decision
// ---------------------------------------------------------------

/// A blank card record for a fresh UID.
pub open spec fn blank_card(u: [u8; 4]) -> CardData {
    CardData {
        uid: u,
        balance_cents: 0u32,
        status: CardStatus::Idle,
        entry_station_id: None::<u16>,
        last_route_id: None::<u16>,
        last_direction: None::<Direction>,
        last_board_station_id: None::<u16>,
        last_alight_station_id: None::<u16>,
    }
}

/// What a base fare becomes once a cached profile is applied.
pub open spec fn spec_applied_fare(base: Option<u32>, p_opt: Option<CachedCardProfile>) -> Option<
    u32,
> {
    match p_opt {
        None => base,
        Some(p) => if profile_blocked(p) || profile_lost(p) {
            None
        } else {
            match p.card_type {
                None => base,
                Some(ty) => match base {
                    None => None,
                    Some(b) => Some(
                        (b - spec_discount(
                            b,
                            p.discount_rate_bp,
                            p.discount_amount_cents,
                            ty@,
                        )) as u32,
                    ),
                },
            }
        },
    }
}

pub open spec fn s_hit(s: GatewayState, d: CardDetected, now: u64) -> bool {
    debounce_hit(s.debounce.view_entries(), d.card_id@, now, s.debounce.window())
}

pub open spec fn s_blk(s: GatewayState, d: CardDetected) -> bool {
    blacklist_contains(s.blacklist_cache.cards@, d.card_id@)
}

pub open spec fn s_profile(s: GatewayState, d: CardDetected, now_ms: u64) -> Option<
    CachedCardProfile,
> {
    fresh_profile(s.card_cache.view_entries(), d.card_id@, now_ms)
}

/// The fare a single-tap trip is charged: the standard fare after
/// the cached profile's discount.
pub open spec fn s_applied_single(s: GatewayState, d: CardDetected, now_ms: u64) -> Option<u32> {
    spec_applied_fare(cfg_standard(s), s_profile(s, d, now_ms))
}

pub open spec fn s_pending(s: GatewayState, d: CardDetected, now: u64) -> bool {
    trip_hit(s.active_trips.view_entries(), d.card_id@, now, s.active_trips.ttl())
}

pub open spec fn s_prev(s: GatewayState, d: CardDetected, now: u64) -> TapEvent {
    spec_pending_trip(s.active_trips.view_entries(), d.card_id@, now, s.active_trips.ttl())
}

/// The fare a tap-out is charged: the trip estimate (or standard
/// fare) after the cached profile's discount.
pub open spec fn s_applied_tapout(s: GatewayState, d: CardDetected, now: u64, now_ms: u64) -> Option<u32> {
    spec_applied_fare(spec_tapout_base(s, s_prev(s, d, now).station_id), s_profile(s, d, now_ms))
}

impl GatewayState {
    /// Applies the cached backend profile to the tone and the shown
    /// fare: blocked or lost cards clear the fare and flag an error;
    /// a known card type refines the tone and discounts the fare.
    pub fn apply_cached_profile(&mut self, card_id: &str, now_ms: u64)
        requires
            old(self).wf(),
        ensures
            final(self).wf(),
            *final(self) == (GatewayState {
                last_passenger_tone: final(self).last_passenger_tone,
                last_passenger_message: final(self).last_passenger_message,
                last_fare_base_cents: final(self).last_fare_base_cents,
                last_fare_cents: final(self).last_fare_cents,
                last_fare_label: final(self).last_fare_label,
                ..*old(self)
            }),
            fresh_profile(old(self).card_cache.view_entries(), card_id@, now_ms) is None ==>
                *final(self) == *old(self),
            final(self).last_fare_base_cents == (match fresh_profile(
                old(self).card_cache.view_entries(),
                card_id@,
                now_ms,
            ) {
                Some(p) => if profile_blocked(p) || profile_lost(p) {
                    None
                } else {
                    old(self).last_fare_base_cents
                },
                None => old(self).last_fare_base_cents,
            }),
            old(self).last_fare_cents == old(self).last_fare_base_cents ==> final(self).last_fare_cents == spec_applied_fare(
                old(self).last_fare_base_cents,
                fresh_profile(old(self).card_cache.view_entries(), card_id@, now_ms),
            ),
            fresh_profile(old(self).card_cache.view_entries(), card_id@, now_ms) matches Some(p)
                ==> ((profile_blocked(p) || profile_lost(p)) ==> final(self).last_passenger_tone
                == PassengerTone::Error),
            fresh_profile(old(self).card_cache.view_entries(), card_id@, now_ms) matches Some(p)
                ==> (!(profile_blocked(p) || profile_lost(p)) ==> final(self).last_passenger_tone
                != PassengerTone::Error || old(self).last_passenger_tone == PassengerTone::Error),
            old(self).last_passenger_tone == PassengerTone::Error && !(fresh_profile(
                old(self).card_cache.view_entries(),
                card_id@,
                now_ms,
            ) matches Some(p) && (profile_blocked(p) || profile_lost(p))) ==> final(self).last_passenger_tone == PassengerTone::Error,
            fresh_profile(old(self).card_cache.view_entries(), card_id@, now_ms) matches Some(p)
                && (profile_blocked(p) || profile_lost(p)) ==> final(self).last_passenger_tone
                == PassengerTone::Error,
    {
        let profile = match self.card_cache.get(card_id, now_ms) {
            Some(p) => p,
            None => {
                return ;
            },
        };
        let blocked = match &profile.status {
            Some(st) => crate::strutil::str_eq(st.as_str(), "blocked"),
            None => false,
        };
        if blocked {
            self.last_passenger_tone = PassengerTone::Error;
            self.last_passenger_message = "卡已冻结".to_owned();
            self.last_fare_base_cents = None;
            self.last_fare_cents = None;
            return ;
        }
        let lost = match &profile.status {
            Some(st) => crate::strutil::str_eq(st.as_str(), "lost"),
            None => false,
        };
        if lost {
            self.last_passenger_tone = PassengerTone::Error;
            self.last_passenger_message = "卡已挂失".to_owned();
            self.last_fare_base_cents = None;
            self.last_fare_cents = None;
            return ;
        }
        let ty = match &profile.card_type {
            Some(t) => t.clone(),
            None => {
                return ;
            },
        };
        if !matches!(self.last_passenger_tone, PassengerTone::Error) {
            if crate::strutil::str_eq(ty.as_str(), "student") {
                self.last_passenger_tone = PassengerTone::Student;
            } else if crate::strutil::str_eq(ty.as_str(), "elder") {
                self.last_passenger_tone = PassengerTone::Elder;
            } else if crate::strutil::str_eq(ty.as_str(), "disabled") {
                self.last_passenger_tone = PassengerTone::Disabled;
            }
        }
        self.apply_card_discount_policy(
            ty.as_str(),
            profile.discount_rate_bp,
            profile.discount_amount_cents,
        );
    }

    /// Rejects a blacklisted card, and when its record still reads
    /// as unblocked, asks the reader to flip the on-card status to
    /// blocked.
    fn reject_blacklisted(
        &mut self,
        card_id: &str,
        card_data: Option<CardData>,
        now_ms: u64,
    ) -> (d: Decision)
        requires
            old(self).wf(),
        ensures
            final(self).wf(),
            final(self).active_trips == old(self).active_trips,
            final(self).debounce == old(self).debounce,
            final(self).register_mode == old(self).register_mode,
            final(self).recharge_mode == old(self).recharge_mode,
            d.ack.result == 0u8,
            d.event is None,
            d.upload_record is None,
            d.registration is None,
            final(self).last_passenger_message@ == "卡已冻结"@,
            final(self).last_card_data_error == old(self).last_card_data_error,
            (card_data matches Some(c) && !(c.status is Blocked)) <==> d.write_request is Some,
            d.write_request matches Some(w) ==> w.card_data@.len() == 32 && w.card_data@[16]
                == 2 && crate::wire::u16_from_le(w.card_data@[18], w.card_data@[19]) == 0xFFFF
                && w.card_data@[3] == 4 && crate::card_data::parse_err(w.card_data@) is None
                && w.card_id@ == card_id@ && w.block_start == CARD_DATA_BLOCK_START
                && w.block_count == CARD_DATA_BLOCK_COUNT,
            d.write_request is None ==> final(self).card_state_cache == old(self).card_state_cache,
            d.write_request is Some && old(self).card_state_cache.view_snapshots().len() < old(self).card_state_cache.cap() ==> ({
                let snaps = final(self).card_state_cache.view_snapshots();
                &&& snaps.len() == old(self).card_state_cache.view_snapshots().len() + 1
                &&& snaps.last().source@ == "blacklist"@
                &&& snaps.last().card_id@ == card_id@
                &&& snaps.last().updated_at == now_ms
            }),
            old(self).card_state_cache.view_snapshots().len() >= old(self).card_state_cache.cap() ==> final(self).card_state_cache.view_snapshots() == old(self).card_state_cache.view_snapshots(),
            final(self).card_state_cache.cap() == old(self).card_state_cache.cap(),
            final(self).last_balance_cents == old(self).last_balance_cents,
    {
        let mut write_request: Option<CardWriteRequest> = None;
        if let Some(mut data) = card_data {
            if !matches!(data.status, CardStatus::Blocked) {
                data.status = CardStatus::Blocked;
                data.entry_station_id = None;
                let w = self.build_write_request(card_id, &data, WriteContext::Blacklist);
                proof {
                    crate::card_data::lemma_card_bytes_fields(data);
                }
                self.push_card_snapshot(card_id, &data, "blacklist", now_ms);
                write_request = Some(w);
            }
        }
        self.reject_with_write("卡已冻结", write_request, now_ms)
    }

    /// Provisions a blank card while register mode is armed: a tap
    /// with a readable UID and no readable record gets a zeroed
    /// record, a registration payload for the backend, and no tap
    /// event.
    fn handle_register(
        &mut self,
        card_id: String,
        uid: Option<[u8; 4]>,
        card_data: Option<CardData>,
        now_ms: u64,
    ) -> (d: Decision)
        requires
            old(self).wf(),
        ensures
            final(self).wf(),
            final(self).active_trips == old(self).active_trips,
            final(self).debounce == old(self).debounce,
            final(self).register_mode == old(self).register_mode,
            final(self).recharge_mode == old(self).recharge_mode,
            d.event is None,
            d.upload_record is None,
            d.ack.result == 0u8 || d.ack.result == 1u8,
            d.write_request matches Some(w) ==> w.card_id@ == card_id@ && w.block_start
                == CARD_DATA_BLOCK_START && w.block_count == CARD_DATA_BLOCK_COUNT
                && w.card_data@.len() == 32 && crate::card_data::parse_err(w.card_data@) is None,
            final(self).last_card_data_error == old(self).last_card_data_error,
            uid is None ==> d.ack.result == 0 && final(self).last_passenger_message@
                == "卡号异常"@ && d.registration is None && d.write_request is None,
            uid is Some && card_data is Some ==> d.ack.result == 0 && final(self).last_passenger_message@ == "卡已注册"@ && d.registration is None
                && d.write_request is None,
            uid is Some && card_data is None ==> d.ack.result == 1,
            uid is Some && card_data is None ==> (d.registration matches Some(rg)
                && rg.card_id@ == card_id@ && rg.balance_cents == 0 && rg.status@ == "active"@
                && rg.registered_at == now_ms && rg.gateway_id@ == old(self).settings.gateway_id@),
            uid is Some && card_data is None ==> (d.write_request matches Some(w)
                && w.card_data@ == card_bytes(blank_card(uid.unwrap())) && w.card_data@.len()
                == 32 && w.card_data@.subrange(4, 8) == uid.unwrap()@ && w.card_data@[16] == 0
                && u32_from_le(
                w.card_data@[12],
                w.card_data@[13],
                w.card_data@[14],
                w.card_data@[15],
            ) == 0),
            uid is Some && card_data is None ==> final(self).last_written_balance_cents == Some(
                0u32,
            ) && final(self).last_balance_cents is None && final(self).last_passenger_message@
                == "注册成功"@,
            d.ack.result == 0 ==> d.write_request is None && final(self).last_balance_cents
                == old(self).last_balance_cents,
            d.ack.result == 1 && old(self).card_state_cache.view_snapshots().len() < old(self).card_state_cache.cap() ==> ({
                let snaps = final(self).card_state_cache.view_snapshots();
                &&& snaps.len() == old(self).card_state_cache.view_snapshots().len() + 1
                &&& snaps.last().source@ == "register"@
                &&& snaps.last().card_id@ == card_id@
                &&& snaps.last().balance_cents == 0u32
                &&& snaps.last().updated_at == now_ms
            }),
            old(self).card_state_cache.view_snapshots().len() >= old(self).card_state_cache.cap() ==> final(self).card_state_cache.view_snapshots() == old(self).card_state_cache.view_snapshots(),
            final(self).card_state_cache.cap() == old(self).card_state_cache.cap(),
    {
        let u = match uid {
            Some(u) => u,
            None => {
                return self.reject_with_write("卡号异常", None, now_ms);
            },
        };
        if card_data.is_some() {
            return self.reject_with_write("卡已注册", None, now_ms);
        }
        let new_data = CardData::new(u);
        let write_request = self.build_write_request(card_id.as_str(), &new_data, WriteContext::Register);
        proof {
            crate::card_data::lemma_card_bytes_fields(new_data);
        }
        let registration = CardRegistration {
            card_id: card_id.clone(),
            balance_cents: new_data.balance_cents,
            status: "active".to_owned(),
            registered_at: now_ms,
            gateway_id: self.settings.gateway_id.clone(),
        };
        self.push_card_snapshot(card_id.as_str(), &new_data, "register", now_ms);
        self.last_balance_cents = None;
        self.last_passenger_tone = PassengerTone::Normal;
        self.last_passenger_message = "注册成功".to_owned();
        self.last_message_deadline_ms = now_ms.saturating_add(PASSENGER_MSG_TTL_ACTION_MS);
        Decision {
            ack: CardAck::accepted(),
            event: None,
            upload_record: None,
            write_request: Some(write_request),
            registration: Some(registration),
        }
    }

    /// Credits a card while recharge mode is armed. An unreadable
    /// record may fall back on a fresh backend profile; the card
    /// must be idle; the credit saturates.
    fn handle_recharge(
        &mut self,
        card_id: String,
        card_data: Option<CardData>,
        now_ms: u64,
    ) -> (d: Decision)
        requires
            old(self).wf(),
            old(self).recharge_mode is Some,
        ensures
            final(self).wf(),
            final(self).active_trips == old(self).active_trips,
            final(self).debounce == old(self).debounce,
            final(self).register_mode == old(self).register_mode,
            final(self).recharge_mode == old(self).recharge_mode,
            d.event is None,
            d.upload_record is None,
            d.registration is None,
            d.ack.result == 0u8 || d.ack.result == 1u8,
            d.write_request matches Some(w) ==> w.card_id@ == card_id@ && w.block_start
                == CARD_DATA_BLOCK_START && w.block_count == CARD_DATA_BLOCK_COUNT
                && w.card_data@.len() == 32 && crate::card_data::parse_err(w.card_data@) is None,
            final(self).last_card_data_error == old(self).last_card_data_error,
            d.ack.result == 0 ==> d.write_request is None,
            d.ack.result == 0 && card_data is None ==> final(self).last_balance_cents == old(self).last_balance_cents,
            d.ack.result == 1 && old(self).card_state_cache.view_snapshots().len() < old(self).card_state_cache.cap() ==> ({
                let snaps = final(self).card_state_cache.view_snapshots();
                &&& snaps.len() == old(self).card_state_cache.view_snapshots().len() + 1
                &&& snaps.last().source@ == "recharge"@
                &&& snaps.last().card_id@ == card_id@
                &&& Some(snaps.last().balance_cents) == final(self).last_written_balance_cents
                &&& snaps.last().updated_at == now_ms
            }),
            old(self).card_state_cache.view_snapshots().len() >= old(self).card_state_cache.cap() ==> final(self).card_state_cache.view_snapshots() == old(self).card_state_cache.view_snapshots(),
            final(self).card_state_cache.cap() == old(self).card_state_cache.cap(),
            ({
                let amt = old(self).recharge_mode.unwrap().amount_cents;
                let uid = spec_uid_from_hex(encode_utf8(card_id@));
                let p = fresh_profile(old(self).card_cache.view_entries(), card_id@, now_ms);
                &&& (card_data is Some && !(card_data.unwrap().status is Idle) ==> d.ack.result
                    == 0 && final(self).last_passenger_message@ == "卡状态异常"@ && final(self).last_balance_cents == Some(card_data.unwrap().balance_cents))
                &&& (card_data is Some && card_data.unwrap().status is Idle ==> d.ack.result == 1
                    && final(self).last_written_balance_cents == Some(
                    sat_add32(card_data.unwrap().balance_cents, amt),
                ) && (d.write_request matches Some(w) && w.card_data@ == card_bytes(
                    CardData {
                        balance_cents: sat_add32(card_data.unwrap().balance_cents, amt),
                        ..card_data.unwrap()
                    },
                )) && final(self).last_passenger_message@ == "充值成功"@ && final(self).last_balance_cents == Some(card_data.unwrap().balance_cents))
                &&& (card_data is None && uid is None ==> d.ack.result == 0 && final(self).last_passenger_message@ == "卡未注册"@)
                &&& (card_data is None && uid is Some && p is None ==> d.ack.result == 0 && final(self).last_passenger_message@ == "卡未注册"@)
                &&& (card_data is None && uid is Some && p is Some && profile_blocked(p.unwrap())
                    ==> d.ack.result == 0 && final(self).last_passenger_message@ == "卡已冻结"@)
                &&& (card_data is None && uid is Some && p is Some && !profile_blocked(p.unwrap())
                    && profile_lost(p.unwrap()) ==> d.ack.result == 0 && final(self).last_passenger_message@ == "卡已挂失"@)
                &&& (card_data is None && uid is Some && p is Some && !profile_blocked(p.unwrap())
                    && !profile_lost(p.unwrap()) ==> {
                    let b = match p.unwrap().balance_cents {
                        Some(v) => v,
                        None => 0u32,
                    };
                    &&& d.ack.result == 1
                    &&& final(self).last_written_balance_cents == Some(sat_add32(b, amt))
                    &&& d.write_request is Some
                    &&& (d.write_request matches Some(w) ==> w.card_data@.len() == 32
                        && u32_from_le(
                        w.card_data@[12],
                        w.card_data@[13],
                        w.card_data@[14],
                        w.card_data@[15],
                    ) == sat_add32(b, amt) && w.card_data@[16] == 0)
                    &&& final(self).last_passenger_message@ == "充值成功"@
                    &&& final(self).last_balance_cents == Some(b)
                })
            }),
    {
        let amount = match &self.recharge_mode {
            Some(mode) => mode.amount_cents,
            None => {
                return self.reject_with_write("充值模式已结束", None, now_ms);
            },
        };
        let mut data: CardData = match card_data {
            Some(c) => c,
            None => {
                let u = match decode_uid_hex(card_id.as_str()) {
                    Some(u) => u,
                    None => {
                        return self.reject_with_write("卡未注册", None, now_ms);
                    },
                };
                let profile = match self.card_cache.get(card_id.as_str(), now_ms) {
                    Some(p) => p,
                    None => {
                        return self.reject_with_write("卡未注册", None, now_ms);
                    },
                };
                let blocked = match &profile.status {
                    Some(st) => crate::strutil::str_eq(st.as_str(), "blocked"),
                    None => false,
                };
                if blocked {
                    return self.reject_with_write("卡已冻结", None, now_ms);
                }
                let lost = match &profile.status {
                    Some(st) => crate::strutil::str_eq(st.as_str(), "lost"),
                    None => false,
                };
                if lost {
                    return self.reject_with_write("卡已挂失", None, now_ms);
                }
                let mut c = CardData::new(u);
                if let Some(balance_cents) = profile.balance_cents {
                    c.balance_cents = balance_cents;
                }
                c
            },
        };
        self.last_balance_cents = Some(data.balance_cents);
        if !matches!(data.status, CardStatus::Idle) {
            return self.reject_with_write("卡状态异常", None, now_ms);
        }
        data.balance_cents = data.balance_cents.saturating_add(amount);
        let write_request = self.build_write_request(card_id.as_str(), &data, WriteContext::Recharge);
        proof {
            crate::card_data::lemma_card_bytes_fields(data);
        }
        self.push_card_snapshot(card_id.as_str(), &data, "recharge", now_ms);
        self.last_passenger_tone = PassengerTone::Normal;
        self.last_passenger_message = "充值成功".to_owned();
        self.last_message_deadline_ms = now_ms.saturating_add(PASSENGER_MSG_TTL_ACTION_MS);
        Decision {
            ack: CardAck::accepted(),
            event: None,
            upload_record: None,
            write_request: Some(write_request),
            registration: None,
        }
    }
}


impl GatewayState {
    /// Decides one tap. Within a single call: a debounce hit, a
    /// blacklisted card, an unusable card value or a short balance
    /// is rejected with its message; register and recharge modes
    /// reinterpret the tap; otherwise the tap charges or opens a
    /// trip according to the tap mode. A rejected ACK never carries
    /// an event, upload record or registration; a registration
    /// never carries an event or upload record; every charge and
    /// credit is exact, saturating arithmetic on the cents.
    #[verifier::rlimit(100)]
    pub fn handle_card_detected(&mut self, detected: CardDetected, now: u64, now_ms: u64) -> (d:
        Decision)
        requires
            old(self).wf(),
        ensures
            final(self).wf(),
            d.ack.result == 0u8 || d.ack.result == 1u8,
            d.ack.result == 0u8 ==> d.event is None && d.upload_record is None && d.registration
                is None,
            d.registration is Some ==> d.event is None && d.upload_record is None,
            d.upload_record is Some ==> d.event is Some,
            final(self).register_mode == (if reg_active(*old(self), now_ms) {
                old(self).register_mode
            } else {
                None::<RegisterMode>
            }),
            final(self).recharge_mode == (if rech_active(*old(self), now_ms) {
                old(self).recharge_mode
            } else {
                None::<RechargeMode>
            }),
            s_hit(*old(self), detected, now) ==> d.ack.result == 0 && final(self).last_passenger_message@ == "刷卡过快"@ && d.write_request is None,
            d.write_request matches Some(w) ==> w.card_id@ == detected.card_id@ && w.block_start
                == CARD_DATA_BLOCK_START && w.block_count == CARD_DATA_BLOCK_COUNT
                && w.card_data@.len() == 32 && parse_err(w.card_data@) is None,
            final(self).debounce.cap() == old(self).debounce.cap(),
            final(self).debounce.window() == old(self).debounce.window(),
            !s_hit(*old(self), detected, now) && old(self).debounce.cap() >= 1 ==> exists|j: int|
                0 <= j < final(self).debounce.view_entries().len() && final(self).debounce.view_entries()[j] == (detected.card_id@, now),
            old(self).card_state_cache.view_snapshots().len() >= old(self).card_state_cache.cap()
                ==> final(self).card_state_cache.view_snapshots() == old(self).card_state_cache.view_snapshots(),
            !s_hit(*old(self), detected, now) ==> ({
                let data = detected.card_data@;
                let err = final(self).last_card_data_error;
                &&& (data.len() < 32 ==> (err matches Some(e) && e@ == "short_card_data"@))
                &&& (data.len() >= 32 && parse_err(data) is Some ==> (err matches Some(e) && e@
                    == crate::card_data::spec_err_str(parse_err(data).unwrap())))
                &&& (data.len() >= 32 && parse_err(data) is None && uid_of(detected) is Some
                    && uid_of(detected).unwrap() != data.subrange(4, 8) ==> (err matches Some(e)
                    && e@ == "uid_mismatch"@))
                &&& (card_ok(detected) ==> err is None)
            }),
            !s_hit(*old(self), detected, now) && !rech_active(*old(self), now_ms) && !(reg_active(
                *old(self),
                now_ms,
            ) && !s_blk(*old(self), detected) && uid_of(detected) is Some && !card_ok(detected))
                ==> final(self).last_balance_cents == (if card_ok(detected) {
                Some(card_balance_of(detected))
            } else {
                None::<u32>
            }),
            ({
                let s0 = *old(self);
                let id = detected.card_id@;
                let hit = s_hit(s0, detected, now);
                let blk = s_blk(s0, detected);
                let reg = reg_active(s0, now_ms);
                let rech = rech_active(s0, now_ms);
                &&& (!hit && blk ==> d.ack.result == 0 && final(self).last_passenger_message@
                    == "卡已冻结"@)
                &&& (!hit && blk ==> ((card_ok(detected) && card_status_of(detected) != 2) <==> d
                    .write_request is Some))
                &&& (!hit && blk ==> (d.write_request matches Some(w) ==> w.card_data@.len() == 32
                    && w.card_data@[16] == 2 && u16_from_le(w.card_data@[18], w.card_data@[19])
                    == 0xFFFF))
                &&& (!hit && !blk && reg ==> {
                    &&& (uid_of(detected) is None ==> d.ack.result == 0 && final(self).last_passenger_message@ == "卡号异常"@)
                    &&& (uid_of(detected) is Some && card_ok(detected) ==> d.ack.result == 0
                        && final(self).last_passenger_message@ == "卡已注册"@)
                    &&& (uid_of(detected) is Some && !card_ok(detected) ==> {
                        &&& d.ack.result == 1
                        &&& (d.registration matches Some(rg) && rg.card_id@ == id
                            && rg.balance_cents == 0 && rg.status@ == "active"@
                            && rg.registered_at == now_ms && rg.gateway_id@
                            == s0.settings.gateway_id@)
                        &&& (d.write_request matches Some(w) && w.card_data@.len() == 32
                            && w.card_data@.subrange(4, 8) == uid_of(detected).unwrap()
                            && w.card_data@[16] == 0 && u32_from_le(
                            w.card_data@[12],
                            w.card_data@[13],
                            w.card_data@[14],
                            w.card_data@[15],
                        ) == 0)
                        &&& final(self).last_written_balance_cents == Some(0u32)
                        &&& final(self).last_passenger_message@ == "注册成功"@
                        &&& (s0.card_state_cache.view_snapshots().len()
                            < s0.card_state_cache.cap() ==> {
                            let snaps = final(self).card_state_cache.view_snapshots();
                            &&& snaps.len() == s0.card_state_cache.view_snapshots().len() + 1
                            &&& snaps.last().source@ == "register"@
                            &&& snaps.last().card_id@ == id
                            &&& snaps.last().balance_cents == 0u32
                            &&& snaps.last().updated_at == now_ms
                        })
                    })
                })
                &&& (!hit && !blk && !reg && rech ==> {
                    let amt = s0.recharge_mode.unwrap().amount_cents;
                    let p = s_profile(s0, detected, now_ms);
                    &&& (d.ack.result == 1 && s0.card_state_cache.view_snapshots().len()
                        < s0.card_state_cache.cap() ==> {
                        let snaps = final(self).card_state_cache.view_snapshots();
                        &&& snaps.len() == s0.card_state_cache.view_snapshots().len() + 1
                        &&& snaps.last().source@ == "recharge"@
                        &&& snaps.last().card_id@ == id
                        &&& Some(snaps.last().balance_cents) == final(self).last_written_balance_cents
                        &&& snaps.last().updated_at == now_ms
                    })
                    &&& (card_ok(detected) && card_status_of(detected) != 0 ==> d.ack.result == 0
                        && final(self).last_passenger_message@ == "卡状态异常"@)
                    &&& (card_ok(detected) && card_status_of(detected) == 0 ==> d.ack.result == 1
                        && final(self).last_written_balance_cents == Some(
                        sat_add32(card_balance_of(detected), amt),
                    ) && d.write_request is Some && final(self).last_passenger_message@
                        == "充值成功"@)
                    &&& (!card_ok(detected) && uid_of(detected) is None ==> d.ack.result == 0
                        && final(self).last_passenger_message@ == "卡未注册"@)
                    &&& (!card_ok(detected) && uid_of(detected) is Some && p is None ==> d
                        .ack.result == 0 && final(self).last_passenger_message@ == "卡未注册"@)
                    &&& (!card_ok(detected) && uid_of(detected) is Some && p is Some
                        && profile_blocked(p.unwrap()) ==> d.ack.result == 0 && final(self).last_passenger_message@ == "卡已冻结"@)
                    &&& (!card_ok(detected) && uid_of(detected) is Some && p is Some
                        && !profile_blocked(p.unwrap()) && profile_lost(p.unwrap()) ==> d
                        .ack.result == 0 && final(self).last_passenger_message@ == "卡已挂失"@)
                    &&& (!card_ok(detected) && uid_of(detected) is Some && p is Some
                        && !profile_blocked(p.unwrap()) && !profile_lost(p.unwrap()) ==> {
                        let b = match p.unwrap().balance_cents {
                            Some(v) => v,
                            None => 0u32,
                        };
                        d.ack.result == 1 && final(self).last_written_balance_cents == Some(
                            sat_add32(b, amt),
                        ) && d.write_request is Some && final(self).last_passenger_message@
                            == "充值成功"@
                    })
                })
                &&& (!hit && !blk && !reg && !rech ==> {
                    let okc = eff_ok(s0, detected, now_ms);
                    let st = eff_status(s0, detected, now_ms);
                    let bal = eff_balance(s0, detected, now_ms);
                    let mode = cfg_tap_mode(s0);
                    let pending = s_pending(s0, detected, now);
                    &&& (!okc ==> d.ack.result == 0)
                    &&& (okc && st == 2 ==> d.ack.result == 0 && final(self).last_passenger_message@ == "卡已冻结"@)
                    &&& (okc && st != 2 && mode is SingleTap ==> {
                        let fare = charge_of(s_applied_single(s0, detected, now_ms));
                        &&& (fare != 0 && bal < fare ==> d.ack.result == 0 && final(self).last_passenger_message@ == "余额不足"@ && d.write_request is None)
                        &&& (fare == 0 || bal >= fare ==> {
                            &&& d.ack.result == 1
                            &&& (d.event matches Some(ev) && ev.tap_type is TapIn && ev.card_id@
                                == id && ev.route_id == s0.route_state.route_id && ev.station_id
                                == s0.route_state.station_id && ev.station_name
                                == s0.route_state.station_name && ev.tap_time
                                == detected.tap_time)
                            &&& (d.upload_record matches Some(u) && u.alight_time is None
                                && u.card_id@ == id && u.route_id == Some(
                                s0.route_state.route_id,
                            ) && u.board_station_id == Some(s0.route_state.station_id)
                                && u.board_station == Some(s0.route_state.station_name)
                                && u.alight_station_id is None && u.alight_station is None
                                && u.board_time@ == dec_str(detected.tap_time as nat))
                            &&& (d.write_request matches Some(w) && w.card_data@.len() == 32
                                && u32_from_le(
                                w.card_data@[12],
                                w.card_data@[13],
                                w.card_data@[14],
                                w.card_data@[15],
                            ) == bal - fare && w.card_data@[16] == 0 && u16_from_le(
                                w.card_data@[18],
                                w.card_data@[19],
                            ) == 0xFFFF)
                            &&& final(self).last_written_balance_cents == Some((bal - fare) as u32)
                            &&& final(self).last_fare_cents == s_applied_single(
                                s0,
                                detected,
                                now_ms,
                            )
                            &&& (s0.card_state_cache.view_snapshots().len()
                                < s0.card_state_cache.cap() ==> {
                                let snaps = final(self).card_state_cache.view_snapshots();
                                &&& snaps.len() == s0.card_state_cache.view_snapshots().len() + 1
                                &&& snaps.last().source@ == "tap_in"@
                                &&& snaps.last().card_id@ == id
                                &&& snaps.last().balance_cents == bal - fare
                                &&& snaps.last().updated_at == now_ms
                            })
                        })
                    })
                    &&& (okc && st != 2 && mode is TapInOut && !pending ==> {
                        &&& d.ack.result == 1
                        &&& (d.event matches Some(ev) && ev.tap_type is TapIn && ev.card_id@ == id
                            && ev.route_id == s0.route_state.route_id && ev.station_id
                            == s0.route_state.station_id && ev.station_name
                            == s0.route_state.station_name && ev.tap_time == detected.tap_time)
                        &&& (d.upload_record matches Some(u) && u.alight_time is None
                            && u.card_id@ == id && u.board_station_id == Some(
                            s0.route_state.station_id,
                        ) && u.board_station == Some(s0.route_state.station_name)
                            && u.alight_station_id is None && u.alight_station is None
                            && u.board_time@ == dec_str(detected.tap_time as nat))
                        &&& (d.write_request matches Some(w) && w.card_data@.len() == 32
                            && u32_from_le(
                            w.card_data@[12],
                            w.card_data@[13],
                            w.card_data@[14],
                            w.card_data@[15],
                        ) == bal && w.card_data@[16] == 1 && u16_from_le(
                            w.card_data@[18],
                            w.card_data@[19],
                        ) == crate::card_data::opt_u16_encode(Some(s0.route_state.station_id)))
                        &&& trip_hit(
                            final(self).active_trips.view_entries(),
                            id,
                            now,
                            final(self).active_trips.ttl(),
                        )
                        &&& (s0.card_state_cache.view_snapshots().len()
                            < s0.card_state_cache.cap() ==> {
                            let snaps = final(self).card_state_cache.view_snapshots();
                            &&& snaps.len() == s0.card_state_cache.view_snapshots().len() + 1
                            &&& snaps.last().source@ == "tap_in"@
                            &&& snaps.last().card_id@ == id
                            &&& snaps.last().balance_cents == bal
                            &&& snaps.last().updated_at == now_ms
                        })
                    })
                    &&& (okc && st != 2 && mode is TapInOut && pending ==> {
                        let fare = charge_of(s_applied_tapout(s0, detected, now, now_ms));
                        &&& (fare != 0 && bal < fare ==> d.ack.result == 0 && final(self).last_passenger_message@ == "余额不足"@ && d.write_request is None && exists|
                            j: int,
                        |
                            0 <= j < final(self).active_trips.view_entries().len() && final(self).active_trips.view_entries()[j] == (
                            id,
                            s_prev(s0, detected, now),
                            now,
                        ))
                        &&& (fare == 0 || bal >= fare ==> {
                            &&& d.ack.result == 1
                            &&& (d.event matches Some(ev) && ev.tap_type is TapOut && ev.card_id@
                                == id)
                            &&& (d.upload_record matches Some(u) && u.card_id@ == id
                                && u.board_station_id == Some(
                                s_prev(s0, detected, now).station_id,
                            ) && u.board_station == Some(s_prev(s0, detected, now).station_name)
                                && u.board_time@ == dec_str(
                                s_prev(s0, detected, now).tap_time as nat,
                            ) && u.alight_station_id == Some(s0.route_state.station_id)
                                && u.alight_station == Some(s0.route_state.station_name) && (
                            u.alight_time matches Some(at) && at@ == dec_str(
                                detected.tap_time as nat,
                            )))
                            &&& (d.write_request matches Some(w) && w.card_data@.len() == 32
                                && u32_from_le(
                                w.card_data@[12],
                                w.card_data@[13],
                                w.card_data@[14],
                                w.card_data@[15],
                            ) == bal - fare && w.card_data@[16] == 0 && u16_from_le(
                                w.card_data@[18],
                                w.card_data@[19],
                            ) == 0xFFFF)
                            &&& final(self).last_written_balance_cents == Some((bal - fare) as u32)
                            &&& (s0.card_state_cache.view_snapshots().len()
                                < s0.card_state_cache.cap() ==> {
                                let snaps = final(self).card_state_cache.view_snapshots();
                                &&& snaps.len() == s0.card_state_cache.view_snapshots().len() + 1
                                &&& snaps.last().source@ == "tap_out"@
                                &&& snaps.last().card_id@ == id
                                &&& snaps.last().balance_cents == bal - fare
                                &&& snaps.last().updated_at == now_ms
                            })
                        })
                    })
                    &&& (d.event matches Some(ev) && ev.tap_type is TapOut ==> pending)
                })
            }),
    {
        self.refresh_modes(now_ms);
        self.last_tap_nonce = self.last_tap_nonce.wrapping_add(1);
        let card_id = detected.card_id.clone();
        self.last_card_id = card_id.clone();
        self.last_card_data_len = detected.card_data.len();
        self.last_card_data_prefix_hex = if detected.card_data.len() == 0 {
            None
        } else {
            Some(hex_prefix(detected.card_data.as_slice(), 16))
        };
        self.last_card_data_error = None;

        let allowed = self.debounce.allow(card_id.as_str(), now);
        if !allowed {
            return self.reject_with_write("刷卡过快", None, now_ms);
        }
        let ghost dbj: int = choose|j: int|
            0 <= j < self.debounce.view_entries().len() && self.debounce.view_entries()[j] == (
            card_id@,
            now,
        );
        proof {
            if old(self).debounce.cap() >= 1 {
                assert(self.debounce.view_entries()[dbj] == (detected.card_id@, now));
            }
        }
        let uid = decode_uid_hex(card_id.as_str());
        let mut card_data: Option<CardData> = if detected.card_data.len() >= CARD_DATA_LEN {
            match CardData::from_bytes_verbose(detected.card_data.as_slice()) {
                Ok(c) => Some(c),
                Err(err) => {
                    self.last_card_data_error = Some(err.as_str().to_owned());
                    None
                },
            }
        } else {
            self.last_card_data_error = Some("short_card_data".to_owned());
            None
        };
        let mismatch = match (uid, card_data) {
            (Some(u), Some(c)) => !uid_eq(&c.uid, &u),
            _ => false,
        };
        if mismatch {
            self.last_card_data_error = Some("uid_mismatch".to_owned());
            card_data = None;
        }
        proof {
            assert(card_data is Some <==> card_ok(detected));
            if card_data is Some {
                assert(card_data.unwrap().balance_cents == card_balance_of(detected));
                assert(Some(card_data.unwrap().status) == crate::card_data::spec_status_from_u8(
                    card_status_of(detected),
                ));
            }
        }
        self.last_balance_cents = match card_data {
            Some(c) => Some(c.balance_cents),
            None => None,
        };

        if self.blacklist_cache.is_blocked(card_id.as_str()) {
            return self.reject_blacklisted(card_id.as_str(), card_data, now_ms);
        }
        if self.register_mode.is_some() {
            return self.handle_register(card_id, uid, card_data, now_ms);
        }
        if self.recharge_mode.is_some() {
            return self.handle_recharge(card_id, card_data, now_ms);
        }

        let mut card: CardData = match card_data {
            Some(c) => c,
            None => {
                let u = match uid {
                    Some(u) => u,
                    None => {
                        return self.reject_with_write("卡未注册", None, now_ms);
                    },
                };
                let profile = match self.card_cache.get(card_id.as_str(), now_ms) {
                    Some(p) => p,
                    None => {
                        return self.reject_with_write("卡未注册", None, now_ms);
                    },
                };
                let blocked = match &profile.status {
                    Some(st) => crate::strutil::str_eq(st.as_str(), "blocked"),
                    None => false,
                };
                if blocked {
                    return self.reject_with_write("卡已冻结", None, now_ms);
                }
                let lost = match &profile.status {
                    Some(st) => crate::strutil::str_eq(st.as_str(), "lost"),
                    None => false,
                };
                if lost {
                    return self.reject_with_write("卡已挂失", None, now_ms);
                }
                let mut c = CardData::new(u);
                if let Some(balance_cents) = profile.balance_cents {
                    c.balance_cents = balance_cents;
                }
                c
            },
        };
        if matches!(card.status, CardStatus::Blocked) {
            return self.reject_with_write("卡已冻结", None, now_ms);
        }

        let tap_mode = match &self.config_cache.route {
            Some(cfg) => cfg.tap_mode,
            None => TapMode::SingleTap,
        };
        let mut removed_trip: Option<TapEvent> = None;
        let tap_type = match tap_mode {
            TapMode::SingleTap => TapType::TapIn,
            TapMode::TapInOut => {
                match self.active_trips.take(card_id.as_str(), now) {
                    Some(prev) => {
                        removed_trip = Some(prev);
                        TapType::TapOut
                    },
                    None => TapType::TapIn,
                }
            },
        };

        let record_id = self.next_record_id(now);
        let event = TapEvent::new(
            record_id,
            card_id.clone(),
            self.route_state.route_id,
            self.route_state.station_id,
            self.route_state.station_name.clone(),
            tap_type,
            detected.tap_time,
            self.settings.gateway_id.clone(),
        );

        self.last_passenger_tone = PassengerTone::Normal;
        let standard = self.standard_fare();
        let mut upload_record: Option<UploadRecord> = None;
        let mut write_request: Option<CardWriteRequest> = None;

        match (tap_mode, tap_type) {
            (TapMode::SingleTap, _) => {
                upload_record = Some(UploadRecord::from_tap_in(&event));
                self.last_fare_base_cents = standard;
                self.last_fare_cents = standard;
                self.last_fare_label = "应付".to_owned();
                self.apply_cached_profile(card_id.as_str(), now_ms);
                let fare_cents: u32 = match self.last_fare_cents {
                    Some(f) => f,
                    None => match self.last_fare_base_cents {
                        Some(f) => f,
                        None => 0,
                    },
                };
                if fare_cents != 0 && card.balance_cents < fare_cents {
                    return self.reject_with_write("余额不足", None, now_ms);
                }
                if fare_cents != 0 {
                    card.balance_cents = card.balance_cents - fare_cents;
                }
                card.last_route_id = Some(self.route_state.route_id);
                card.last_direction = Some(self.route_state.direction);
                card.last_board_station_id = None;
                card.last_alight_station_id = Some(event.station_id);
                card.status = CardStatus::Idle;
                card.entry_station_id = None;
                let w = self.build_write_request(card_id.as_str(), &card, WriteContext::TapIn);
                proof {
                    crate::card_data::lemma_card_bytes_fields(card);
                }
                write_request = Some(w);
                self.push_card_snapshot(card_id.as_str(), &card, "tap_in", now_ms);
            },
            (TapMode::TapInOut, TapType::TapIn) => {
                self.active_trips.insert(event.duplicate(), now);
                upload_record = Some(UploadRecord::from_tap_in(&event));
                let est = match &self.config_cache.route {
                    Some(cfg) => cfg.estimate_trip_fare(event.station_id, event.station_id),
                    None => None,
                };
                let shown = match est {
                    Some(f) => Some(f),
                    None => standard,
                };
                self.last_fare_base_cents = shown;
                self.last_fare_cents = shown;
                self.last_fare_label = "起步价".to_owned();
                self.apply_cached_profile(card_id.as_str(), now_ms);
                card.status = CardStatus::InTrip;
                card.entry_station_id = Some(event.station_id);
                let w = self.build_write_request(card_id.as_str(), &card, WriteContext::TapIn);
                proof {
                    crate::card_data::lemma_card_bytes_fields(card);
                }
                write_request = Some(w);
                self.push_card_snapshot(card_id.as_str(), &card, "tap_in", now_ms);
            },
            (TapMode::TapInOut, TapType::TapOut) => {
                match removed_trip {
                    Some(prev) => {
                        upload_record = Some(
                            UploadRecord::from_tap_out(
                                &event,
                                prev.tap_time,
                                Some(prev.station_id),
                                Some(prev.station_name.clone()),
                            ),
                        );
                        let est = match &self.config_cache.route {
                            Some(cfg) => cfg.estimate_trip_fare(prev.station_id, event.station_id),
                            None => None,
                        };
                        let fare_shown = match est {
                            Some(f) => Some(f),
                            None => standard,
                        };
                        self.last_fare_base_cents = fare_shown;
                        self.last_fare_cents = fare_shown;
                        self.last_fare_label = "结算价".to_owned();
                        self.apply_cached_profile(card_id.as_str(), now_ms);
                        let fare_cents: u32 = match self.last_fare_cents {
                            Some(f) => f,
                            None => match self.last_fare_base_cents {
                                Some(f) => f,
                                None => 0,
                            },
                        };
                        if fare_cents != 0 && card.balance_cents < fare_cents {
                            self.active_trips.insert(prev, now);
                            return self.reject_with_write("余额不足", None, now_ms);
                        }
                        if fare_cents != 0 {
                            card.balance_cents = card.balance_cents - fare_cents;
                        }
                        card.last_route_id = Some(self.route_state.route_id);
                        card.last_direction = Some(self.route_state.direction);
                        card.last_board_station_id = Some(prev.station_id);
                        card.last_alight_station_id = Some(event.station_id);
                        card.status = CardStatus::Idle;
                        card.entry_station_id = None;
                        let w = self.build_write_request(
                            card_id.as_str(),
                            &card,
                            WriteContext::TapOut,
                        );
                        proof {
                            crate::card_data::lemma_card_bytes_fields(card);
                        }
                        write_request = Some(w);
                        self.push_card_snapshot(card_id.as_str(), &card, "tap_out", now_ms);
                    },
                    None => {
                        self.last_fare_base_cents = standard;
                        self.last_fare_cents = standard;
                        self.last_fare_label = "结算价".to_owned();
                        self.apply_cached_profile(card_id.as_str(), now_ms);
                    },
                }
            },
        }

        self.last_tap_type = Some(tap_type);
        if !matches!(self.last_passenger_tone, PassengerTone::Error) {
            self.last_passenger_message = "刷卡成功".to_owned();
        }
        self.last_message_deadline_ms = now_ms.saturating_add(PASSENGER_MSG_TTL_OK_MS);
        proof {
            if old(self).debounce.cap() >= 1 {
                assert(self.debounce.view_entries()[dbj] == (detected.card_id@, now));
            }
        }

        Decision {
            ack: CardAck::accepted(),
            event: Some(event),
            upload_record,
            write_request,
            registration: None,
        }
    }
}


/// There is a station with this id in the list.
pub open spec fn has_station(stations: Seq<crate::model::StationConfig>, id: u16) -> bool {
    exists|i: int| 0 <= i < stations.len() && stations[i].id == id
}

/// The first index holding this station id, or the length.
pub open spec fn spec_station_idx(stations: Seq<crate::model::StationConfig>, id: u16) -> int
    decreases stations.len(),
{
    if stations.len() == 0 {
        0
    } else if stations[0].id == id {
        0
    } else {
        1 + spec_station_idx(stations.drop_first(), id)
    }
}

/// The index answers with the first position holding the id.
proof fn lemma_station_idx_first(stations: Seq<crate::model::StationConfig>, id: u16, i: int)
    requires
        0 <= i < stations.len(),
        stations[i].id == id,
        forall|k: int| 0 <= k < i ==> stations[k].id != id,
    ensures
        spec_station_idx(stations, id) == i,
    decreases i,
{
    if i > 0 {
        lemma_station_idx_first(stations.drop_first(), id, i - 1);
    }
}

/// Station `j` comes after station `ci` in boarding order: larger
/// sequence number, or the same sequence later in the list.
pub open spec fn station_follows(
    stations: Seq<crate::model::StationConfig>,
    ci: int,
    j: int,
) -> bool {
    stations[j].sequence > stations[ci].sequence || (stations[j].sequence
        == stations[ci].sequence && j > ci)
}

/// Station `j` comes before station `ci` in boarding order.
pub open spec fn station_precedes(
    stations: Seq<crate::model::StationConfig>,
    ci: int,
    j: int,
) -> bool {
    stations[j].sequence < stations[ci].sequence || (stations[j].sequence
        == stations[ci].sequence && j < ci)
}

/// `i` names the first station with the smallest sequence number.
pub open spec fn is_first_min_seq(stations: Seq<crate::model::StationConfig>, i: int) -> bool {
    &&& 0 <= i < stations.len()
    &&& forall|j: int| 0 <= j < stations.len() ==> stations[i].sequence <= stations[j].sequence
    &&& forall|j: int| 0 <= j < i ==> stations[j].sequence > stations[i].sequence
}

impl GatewayState {
    /// Installs a fresh route config. If the current station is no
    /// longer on the route, the state snaps to the first station
    /// with the smallest sequence number, or to "unset" on an empty
    /// station list; otherwise only the displayed name refreshes.
    #[verifier::loop_isolation(false)]
    #[verifier::rlimit(50)]
    pub fn update_route_config(&mut self, config: RouteConfig, now: u64)
        requires
            old(self).wf(),
        ensures
            final(self).wf(),
            final(self).config_cache.route == Some(config),
            final(self).config_cache.fetched_at == now,
            *final(self) == (GatewayState {
                config_cache: final(self).config_cache,
                route_state: final(self).route_state,
                ..*old(self)
            }),
            final(self).route_state.direction == old(self).route_state.direction,
            old(self).route_state.route_id == config.route_id && has_station(
                config.stations@,
                old(self).route_state.station_id,
            ) ==> final(self).route_state.station_id == old(self).route_state.station_id && final(self).route_state.route_id == config.route_id && final(self).route_state.station_name
                == crate::fare::spec_find_station(
                config.stations@,
                old(self).route_state.station_id,
            ).unwrap().name,
            !(old(self).route_state.route_id == config.route_id && has_station(
                config.stations@,
                old(self).route_state.station_id,
            )) ==> final(self).route_state.route_id == config.route_id && (config.stations@.len()
                > 0 ==> exists|i: int|
                is_first_min_seq(config.stations@, i) && final(self).route_state.station_id
                    == config.stations@[i].id && final(self).route_state.station_name
                    == config.stations@[i].name) && (config.stations@.len() == 0 ==> final(self).route_state.station_id == 0u16 && final(self).route_state.station_name@
                == "未设置"@),
    {
        let route_id = config.route_id;
        let same_route = self.route_state.route_id == route_id;
        let mut present = false;
        let mut i: usize = 0;
        while i < config.stations.len()
            invariant
                i <= config.stations@.len(),
                present == exists|k: int|
                    0 <= k < i && config.stations@[k].id == old(self).route_state.station_id,
                self == old(self),
            decreases config.stations@.len() - i,
        {
            if config.stations[i].id == self.route_state.station_id {
                present = true;
            }
            i = i + 1;
        }
        if same_route && present {
            let mut k: usize = 0;
            let mut name_idx: Option<usize> = None;
            while k < config.stations.len()
                invariant
                    k <= config.stations@.len(),
                    self == old(self),
                    name_idx matches Some(x) ==> x < config.stations@.len()
                        && config.stations@[x as int].id == old(self).route_state.station_id
                        && (forall|j: int| 0 <= j < x ==> config.stations@[j].id != old(self).route_state.station_id),
                    name_idx is None ==> forall|j: int|
                        0 <= j < k ==> config.stations@[j].id != old(self).route_state.station_id,
                decreases config.stations@.len() - k,
            {
                if config.stations[k].id == self.route_state.station_id {
                    if name_idx.is_none() {
                        name_idx = Some(k);
                    }
                }
                k = k + 1;
            }
            match name_idx {
                Some(x) => {
                    proof {
                        crate::fare::lemma_find_station_first(
                            config.stations@,
                            old(self).route_state.station_id,
                            x as int,
                        );
                    }
                    self.route_state.station_name = config.stations[x].name.clone();
                },
                None => {
                    proof {
                        assert(false);
                    }
                },
            }
            self.config_cache.update(config, now);
            return ;
        }
        if config.stations.len() == 0 {
            self.route_state.route_id = route_id;
            self.route_state.station_id = 0;
            self.route_state.station_name = "未设置".to_owned();
            self.config_cache.update(config, now);
            return ;
        }
        let mut best: usize = 0;
        let mut k: usize = 1;
        while k < config.stations.len()
            invariant
                best < k <= config.stations@.len(),
                self == old(self),
                forall|j: int| 0 <= j < k ==> config.stations@[best as int].sequence
                    <= config.stations@[j].sequence,
                forall|j: int| 0 <= j < best ==> config.stations@[j].sequence
                    > config.stations@[best as int].sequence,
            decreases config.stations@.len() - k,
        {
            if config.stations[k].sequence < config.stations[best].sequence {
                best = k;
            }
            k = k + 1;
        }
        self.route_state.route_id = route_id;
        self.route_state.station_id = config.stations[best].id;
        self.route_state.station_name = config.stations[best].name.clone();
        proof {
            assert(is_first_min_seq(config.stations@, best as int));
        }
        self.config_cache.update(config, now);
    }

    /// Jumps straight to a station by id, when the cached config
    /// knows it.
    #[verifier::loop_isolation(false)]
    pub fn set_station_by_id(&mut self, station_id: u16) -> (r: bool)
        requires
            old(self).wf(),
        ensures
            final(self).wf(),
            *final(self) == (GatewayState { route_state: final(self).route_state, ..*old(self) }),
            final(self).route_state.route_id == old(self).route_state.route_id,
            final(self).route_state.direction == old(self).route_state.direction,
            r == (old(self).config_cache.route matches Some(cfg) && has_station(
                cfg.stations@,
                station_id,
            )),
            r ==> final(self).route_state.station_id == station_id,
            !r ==> final(self).route_state == old(self).route_state,
    {
        let found: Option<usize> = match &self.config_cache.route {
            Some(cfg) => {
                let mut i: usize = 0;
                let mut hit: Option<usize> = None;
                while i < cfg.stations.len()
                    invariant
                        i <= cfg.stations@.len(),
                        hit matches Some(x) ==> x < cfg.stations@.len() && cfg.stations@[
                        x as int].id == station_id,
                        hit is None ==> forall|k: int|
                            0 <= k < i ==> cfg.stations@[k].id != station_id,
                    decreases cfg.stations@.len() - i,
                {
                    if cfg.stations[i].id == station_id {
                        if hit.is_none() {
                            hit = Some(i);
                        }
                    }
                    i = i + 1;
                }
                hit
            },
            None => None,
        };
        match found {
            Some(x) => {
                let name = match &self.config_cache.route {
                    Some(cfg) => cfg.stations[x].name.clone(),
                    None => {
                        return false;
                    },
                };
                self.route_state.station_id = station_id;
                self.route_state.station_name = name;
                true
            },
            None => false,
        }
    }

    /// Steps to the neighbouring station in boarding order: forward
    /// to the least station that follows the current one in
    /// (sequence, list position) order, backward to the greatest
    /// that precedes it, staying put at the first station. Without a
    /// config or a known current station nothing changes.
    #[verifier::loop_isolation(false)]
    #[verifier::rlimit(100)]
    pub fn step_station(&mut self, forward: bool) -> (r: bool)
        requires
            old(self).wf(),
        ensures
            final(self).wf(),
            *final(self) == (GatewayState { route_state: final(self).route_state, ..*old(self) }),
            final(self).route_state.route_id == old(self).route_state.route_id,
            final(self).route_state.direction == old(self).route_state.direction,
            old(self).config_cache.route is None ==> r == false && final(self).route_state == old(self).route_state,
            !r ==> final(self).route_state == old(self).route_state,
            old(self).config_cache.route matches Some(cfg) ==> ({
                let stations = cfg.stations@;
                let found = has_station(stations, old(self).route_state.station_id);
                let ci = spec_station_idx(stations, old(self).route_state.station_id);
                &&& (!found ==> r == false)
                &&& (found && forward ==> r == exists|j: int|
                    0 <= j < stations.len() && station_follows(stations, ci, j))
                &&& (found && forward && r ==> exists|j: int|
                    #![trigger stations[j]]
                    0 <= j < stations.len() && station_follows(stations, ci, j) && final(self).route_state.station_id == stations[j].id && final(self).route_state.station_name
                        == stations[j].name && forall|k: int|
                        0 <= k < stations.len() && station_follows(stations, ci, k) ==> (
                        stations[j].sequence < stations[k].sequence || (stations[j].sequence
                            == stations[k].sequence && j <= k)))
                &&& (found && !forward ==> r)
                &&& (found && !forward && (exists|j: int|
                    0 <= j < stations.len() && station_precedes(stations, ci, j)) ==> exists|
                    j: int,
                |
                    #![trigger stations[j]]
                    0 <= j < stations.len() && station_precedes(stations, ci, j) && final(self).route_state.station_id == stations[j].id && final(self).route_state.station_name
                        == stations[j].name && forall|k: int|
                        0 <= k < stations.len() && station_precedes(stations, ci, k) ==> (
                        stations[j].sequence > stations[k].sequence || (stations[j].sequence
                            == stations[k].sequence && j >= k)))
                &&& (found && !forward && !(exists|j: int|
                    0 <= j < stations.len() && station_precedes(stations, ci, j)) ==> final(self).route_state.station_id == old(self).route_state.station_id && final(self).route_state.station_name == stations[ci].name)
            }),
    {
        let cur_id = self.route_state.station_id;
        let (cur_idx, cur_seq): (usize, u16) = match &self.config_cache.route {
            Some(cfg) => {
                let mut i: usize = 0;
                let mut hit: Option<usize> = None;
                while i < cfg.stations.len()
                    invariant
                        i <= cfg.stations@.len(),
                        hit matches Some(x) ==> x < cfg.stations@.len() && cfg.stations@[
                        x as int].id == cur_id && (forall|k: int|
                            0 <= k < x ==> cfg.stations@[k].id != cur_id),
                        hit is None ==> forall|k: int| 0 <= k < i ==> cfg.stations@[k].id
                            != cur_id,
                    decreases cfg.stations@.len() - i,
                {
                    if cfg.stations[i].id == cur_id {
                        if hit.is_none() {
                            hit = Some(i);
                        }
                    }
                    i = i + 1;
                }
                match hit {
                    Some(x) => {
                        proof {
                            lemma_station_idx_first(cfg.stations@, cur_id, x as int);
                        }
                        (x, cfg.stations[x].sequence)
                    },
                    None => {
                        return false;
                    },
                }
            },
            None => {
                return false;
            },
        };
        let target: Option<usize> = match &self.config_cache.route {
            Some(cfg) => {
                let ghost stations = cfg.stations@;
                let mut choice: Option<usize> = None;
                let mut i: usize = 0;
                while i < cfg.stations.len()
                    invariant
                        i <= stations.len(),
                        stations == cfg.stations@,
                        cur_idx < stations.len(),
                        forward ==> (choice is None ==> forall|k: int|
                            0 <= k < i ==> !station_follows(stations, cur_idx as int, k)),
                        forward ==> (choice matches Some(x) ==> x < stations.len()
                            && station_follows(stations, cur_idx as int, x as int) && forall|
                            k: int,
                        |
                            0 <= k < i && station_follows(stations, cur_idx as int, k) ==> (
                            stations[x as int].sequence < stations[k].sequence || (stations[
                            x as int].sequence == stations[k].sequence && x <= k))),
                        !forward ==> (choice is None ==> forall|k: int|
                            0 <= k < i ==> !station_precedes(stations, cur_idx as int, k)),
                        !forward ==> (choice matches Some(x) ==> x < stations.len()
                            && station_precedes(stations, cur_idx as int, x as int) && forall|
                            k: int,
                        |
                            0 <= k < i && station_precedes(stations, cur_idx as int, k) ==> (
                            stations[x as int].sequence > stations[k].sequence || (stations[
                            x as int].sequence == stations[k].sequence && x >= k))),
                        cur_seq == stations[cur_idx as int].sequence,
                    decreases stations.len() - i,
                {
                    let cand_seq = cfg.stations[i].sequence;
                    let after_current = cand_seq > cur_seq || (cand_seq == cur_seq && i
                        > cur_idx);
                    let before_current = cand_seq < cur_seq || (cand_seq == cur_seq && i
                        < cur_idx);
                    if forward && after_current {
                        let better = match choice {
                            Some(x) => {
                                let xs = cfg.stations[x].sequence;
                                cand_seq < xs || (cand_seq == xs && i < x)
                            },
                            None => true,
                        };
                        if better {
                            choice = Some(i);
                        }
                    }
                    if !forward && before_current {
                        let better = match choice {
                            Some(x) => {
                                let xs = cfg.stations[x].sequence;
                                cand_seq > xs || (cand_seq == xs && i > x)
                            },
                            None => true,
                        };
                        if better {
                            choice = Some(i);
                        }
                    }
                    i = i + 1;
                }
                choice
            },
            None => {
                return false;
            },
        };
        let step_to = match target {
            Some(x) => x,
            None => {
                if forward {
                    return false;
                }
                cur_idx
            },
        };
        let (new_id, new_name) = match &self.config_cache.route {
            Some(cfg) => (cfg.stations[step_to].id, cfg.stations[step_to].name.clone()),
            None => {
                return false;
            },
        };
        self.route_state.station_id = new_id;
        self.route_state.station_name = new_name;
        true
    }

    /// Clears an expired passenger message back to the idle prompt.
    pub fn refresh_passenger_display(&mut self, now_ms: u64)
        requires
            old(self).wf(),
        ensures
            final(self).wf(),
            old(self).last_message_deadline_ms > 0 && now_ms >= old(self).last_message_deadline_ms
                ==> final(self).last_message_deadline_ms == 0 && final(self).last_passenger_tone
                == PassengerTone::Normal && final(self).last_passenger_message@ == "等待刷卡"@
                && final(self).last_fare_cents is None && final(self).last_fare_base_cents
                is None && final(self).last_tap_type is None,
            !(old(self).last_message_deadline_ms > 0 && now_ms >= old(self).last_message_deadline_ms) ==> *final(self) == *old(self),
    {
        if self.last_message_deadline_ms > 0 && now_ms >= self.last_message_deadline_ms {
            self.last_message_deadline_ms = 0;
            self.last_passenger_tone = PassengerTone::Normal;
            self.last_passenger_message = "等待刷卡".to_owned();
            self.last_fare_base_cents = None;
            self.last_fare_cents = None;
            self.last_fare_label = "应付".to_owned();
            self.last_tap_type = None;
        }
    }

    /// The snapshot the web UI renders, after expiring a stale
    /// passenger message.
    pub fn status_panel(&mut self, now_ms: u64) -> (r: crate::web::StatusPanel)
        requires
            old(self).wf(),
        ensures
            final(self).wf(),
            r.route_id == final(self).route_state.route_id,
            r.station_id == final(self).route_state.station_id,
            r.station_name == final(self).route_state.station_name,
            r.direction == final(self).route_state.direction,
            r.wifi_connected == final(self).wifi_connected,
            r.backend_reachable == final(self).backend_reachable,
            r.passenger_tone == final(self).last_passenger_tone,
            r.passenger_message == final(self).last_passenger_message,
            r.standard_fare_cents == cfg_standard(*final(self)),
            r.last_fare_cents == final(self).last_fare_cents,
            r.cache_count == final(self).tap_cache.view_events().len(),
            r.recharge_active == final(self).recharge_mode is Some,
            r.register_active == final(self).register_mode is Some,
    {
        self.refresh_passenger_display(now_ms);
        let (route_name, tap_mode_label, fare_type_label): (String, String, String) = match &self
            .config_cache.route {
            Some(cfg) => {
                let tm: &'static str = match cfg.tap_mode {
                    TapMode::SingleTap => "单次刷卡",
                    TapMode::TapInOut => "上下车刷卡",
                };
                let ft: &'static str = match cfg.fare_type {
                    crate::model::FareType::Uniform => "统一票价",
                    crate::model::FareType::Segment => "分段计价",
                    crate::model::FareType::Distance => "距离计价",
                };
                (cfg.route_name.clone(), tm.to_owned(), ft.to_owned())
            },
            None => (String::new(), "未同步".to_owned(), "未同步".to_owned()),
        };
        let recharge_amount = match &self.recharge_mode {
            Some(m) => Some(m.amount_cents),
            None => None,
        };
        crate::web::StatusPanel {
            route_id: self.route_state.route_id,
            route_name,
            station_id: self.route_state.station_id,
            station_name: self.route_state.station_name.clone(),
            direction: self.route_state.direction,
            tap_mode_label,
            fare_type_label,
            cache_count: self.tap_cache.len(),
            wifi_connected: self.wifi_connected,
            backend_reachable: self.backend_reachable,
            backend_base_url: self.backend_base_url.clone(),
            passenger_tone: self.last_passenger_tone,
            passenger_message: self.last_passenger_message.clone(),
            standard_fare_cents: self.standard_fare(),
            last_fare_cents: self.last_fare_cents,
            last_fare_label: self.last_fare_label.clone(),
            recharge_active: recharge_amount.is_some(),
            recharge_amount_cents: recharge_amount,
            register_active: self.register_mode.is_some(),
        }
    }
}

} // verus!
