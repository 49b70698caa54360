//! Domain model of the fare gateway: tap and fare enums, gateway
//! settings, route configuration, tap events and the records uploaded
//! to the backend.
//!
//! All money amounts are integers in cents, so fare arithmetic is
//! exact and every rounding rule is explicit.

use vstd::prelude::*;

verus! {

use vstd::string::StringExecFns;
use crate::strutil::{dec_str, u64_to_string};

/// Which side of a trip a tap records.
#[derive(Clone, Copy, Debug, PartialEq, Eq, Structural)]
pub enum TapType {
    TapIn,
    TapOut,
}

impl TapType {
    pub fn as_str(&self) -> (r: &'static str)
        ensures
            self is TapIn ==> r@ == "tap_in"@,
            self is TapOut ==> r@ == "tap_out"@,
    {
        match self {
            TapType::TapIn => "tap_in",
            TapType::TapOut => "tap_out",
        }
    }
}

/// How taps are counted on the current route.
#[derive(Clone, Copy, Debug, PartialEq, Eq, Structural)]
pub enum TapMode {
    SingleTap,
    TapInOut,
}

impl TapMode {
    pub fn as_str(&self) -> (r: &'static str)
        ensures
            self is SingleTap ==> r@ == "single_tap"@,
            self is TapInOut ==> r@ == "tap_in_out"@,
    {
        match self {
            TapMode::SingleTap => "single_tap",
            TapMode::TapInOut => "tap_in_out",
        }
    }
}

/// Travel direction along the route.
#[derive(Clone, Copy, Debug, PartialEq, Eq, Structural)]
pub enum Direction {
    Up,
    Down,
}

impl Direction {
    pub fn as_str(&self) -> (r: &'static str)
        ensures
            self is Up ==> r@ == "up"@,
            self is Down ==> r@ == "down"@,
    {
        match self {
            Direction::Up => "up",
            Direction::Down => "down",
        }
    }
}

/// How the fare for a trip is computed.
#[derive(Clone, Copy, Debug, PartialEq, Eq, Structural)]
pub enum FareType {
    Uniform,
    Segment,
    Distance,
}

impl FareType {
    pub fn as_str(&self) -> (r: &'static str)
        ensures
            self is Uniform ==> r@ == "uniform"@,
            self is Segment ==> r@ == "segment"@,
            self is Distance ==> r@ == "distance"@,
    {
        match self {
            FareType::Uniform => "uniform",
            FareType::Segment => "segment",
            FareType::Distance => "distance",
        }
    }
}

/// Tone shown and sounded for the passenger after a tap.
#[derive(Clone, Copy, Debug, PartialEq, Eq, Structural)]
pub enum PassengerTone {
    Normal,
    Student,
    Elder,
    Disabled,
    Error,
}

impl PassengerTone {
    pub fn css_class(&self) -> (r: &'static str)
        ensures
            self is Normal ==> r@ == "tone-normal"@,
            self is Student ==> r@ == "tone-student"@,
            self is Elder ==> r@ == "tone-elder"@,
            self is Disabled ==> r@ == "tone-disabled"@,
            self is Error ==> r@ == "tone-error"@,
    {
        match self {
            PassengerTone::Normal => "tone-normal",
            PassengerTone::Student => "tone-student",
            PassengerTone::Elder => "tone-elder",
            PassengerTone::Disabled => "tone-disabled",
            PassengerTone::Error => "tone-error",
        }
    }

    pub fn label(&self) -> (r: &'static str)
        ensures
            self is Normal ==> r@ == "普通票"@,
            self is Student ==> r@ == "学生票"@,
            self is Elder ==> r@ == "长者票"@,
            self is Disabled ==> r@ == "残障票"@,
            self is Error ==> r@ == "异常"@,
    {
        match self {
            PassengerTone::Normal => "普通票",
            PassengerTone::Student => "学生票",
            PassengerTone::Elder => "长者票",
            PassengerTone::Disabled => "残障票",
            PassengerTone::Error => "异常",
        }
    }
}

/// Gateway runtime parameters, fixed after boot.
#[derive(Clone, Debug)]
pub struct GatewaySettings {
    pub gateway_id: String,
    pub reader_id: u16,
    pub debounce_window_secs: u32,
    pub tap_cache_max: usize,
    pub config_ttl_secs: u32,
    pub blacklist_ttl_secs: u32,
    pub active_trip_ttl_secs: u32,
    pub batch_size: usize,
}

impl GatewaySettings {
    /// Default parameters under the given gateway id.
    pub fn with_gateway_id(id: String) -> (r: Self)
        ensures
            r.gateway_id == id,
            r.reader_id == 1u16,
            r.debounce_window_secs == 2u32,
            r.tap_cache_max == 512usize,
            r.config_ttl_secs == 300u32,
            r.blacklist_ttl_secs == 300u32,
            r.active_trip_ttl_secs == 3600u32,
            r.batch_size == 50usize,
    {
        Self {
            gateway_id: id,
            reader_id: 1,
            debounce_window_secs: 2,
            tap_cache_max: 512,
            config_ttl_secs: 300,
            blacklist_ttl_secs: 300,
            active_trip_ttl_secs: 3600,
            batch_size: 50,
        }
    }
}

impl Default for GatewaySettings {
    fn default() -> (r: Self)
        ensures
            r.gateway_id@ == "gateway-unknown"@,
            r.reader_id == 1u16,
            r.debounce_window_secs == 2u32,
            r.tap_cache_max == 512usize,
            r.config_ttl_secs == 300u32,
            r.blacklist_ttl_secs == 300u32,
            r.active_trip_ttl_secs == 3600u32,
            r.batch_size == 50usize,
    {
        Self::with_gateway_id(String::from_str("gateway-unknown"))
    }
}

/// One station of the route, as configured by the backend.
#[derive(Clone, Debug)]
pub struct StationConfig {
    pub id: u16,
    pub name: String,
    pub sequence: u16,
    pub zone_id: Option<u16>,
    pub is_transfer: bool,
}

/// One fare rule of the route. Prices are in cents.
#[derive(Clone, Debug)]
pub struct FareRule {
    pub base_price_cents: u32,
    pub fare_type: Option<String>,
    pub segment_count: Option<u16>,
    pub extra_price_cents: Option<u32>,
    pub start_station: Option<u16>,
    pub end_station: Option<u16>,
}

/// Route configuration: stations, fare rules and tap mode.
#[derive(Clone, Debug)]
pub struct RouteConfig {
    pub route_id: u16,
    pub route_name: String,
    pub fare_type: FareType,
    pub tap_mode: TapMode,
    pub max_fare_cents: Option<u32>,
    pub stations: Vec<StationConfig>,
    pub fares: Vec<FareRule>,
}

/// One tap as recorded inside the gateway.
#[derive(Clone, Debug)]
pub struct TapEvent {
    pub record_id: String,
    pub card_id: String,
    pub route_id: u16,
    pub station_id: u16,
    pub station_name: String,
    pub tap_type: TapType,
    pub tap_time: u64,
    pub gateway_id: String,
}

impl TapEvent {
    pub fn new(
        record_id: String,
        card_id: String,
        route_id: u16,
        station_id: u16,
        station_name: String,
        tap_type: TapType,
        tap_time: u64,
        gateway_id: String,
    ) -> (r: Self)
        ensures
            r == (TapEvent {
                record_id,
                card_id,
                route_id,
                station_id,
                station_name,
                tap_type,
                tap_time,
                gateway_id,
            }),
    {
        Self {
            record_id,
            card_id,
            route_id,
            station_id,
            station_name,
            tap_type,
            tap_time,
            gateway_id,
        }
    }
}

/// The record shape the backend accepts for batched tap uploads.
#[derive(Clone, Debug)]
pub struct UploadRecord {
    pub record_id: String,
    pub card_id: String,
    pub route_id: Option<u16>,
    pub board_time: String,
    pub alight_time: Option<String>,
    pub board_station_id: Option<u16>,
    pub board_station: Option<String>,
    pub alight_station_id: Option<u16>,
    pub alight_station: Option<String>,
    pub gateway_id: Option<String>,
}

/// Epoch seconds rendered as the decimal string the backend accepts.
pub fn format_time(epoch_secs: u64) -> (r: String)
    ensures
        r@ == dec_str(epoch_secs as nat),
{
    u64_to_string(epoch_secs)
}

impl UploadRecord {
    /// Upload record for a boarding tap.
    pub fn from_tap_in(event: &TapEvent) -> (r: Self)
        ensures
            r.record_id == event.record_id,
            r.card_id == event.card_id,
            r.route_id == Some(event.route_id),
            r.board_time@ == dec_str(event.tap_time as nat),
            r.alight_time is None,
            r.board_station_id == Some(event.station_id),
            r.board_station == Some(event.station_name),
            r.alight_station_id is None,
            r.alight_station is None,
            r.gateway_id == Some(event.gateway_id),
    {
        Self {
            record_id: event.record_id.clone(),
            card_id: event.card_id.clone(),
            route_id: Some(event.route_id),
            board_time: format_time(event.tap_time),
            alight_time: None,
            board_station_id: Some(event.station_id),
            board_station: Some(event.station_name.clone()),
            alight_station_id: None,
            alight_station: None,
            gateway_id: Some(event.gateway_id.clone()),
        }
    }

    /// Upload record for an alighting tap, carrying the boarding side
    /// remembered from the matching tap-in.
    pub fn from_tap_out(
        event: &TapEvent,
        board_time: u64,
        board_station_id: Option<u16>,
        board_station: Option<String>,
    ) -> (r: Self)
        ensures
            r.record_id == event.record_id,
            r.card_id == event.card_id,
            r.route_id == Some(event.route_id),
            r.board_time@ == dec_str(board_time as nat),
            r.alight_time matches Some(t) && t@ == dec_str(event.tap_time as nat),
            r.board_station_id == board_station_id,
            r.board_station == board_station,
            r.alight_station_id == Some(event.station_id),
            r.alight_station == Some(event.station_name),
            r.gateway_id == Some(event.gateway_id),
    {
        Self {
            record_id: event.record_id.clone(),
            card_id: event.card_id.clone(),
            route_id: Some(event.route_id),
            board_time: format_time(board_time),
            alight_time: Some(format_time(event.tap_time)),
            board_station_id,
            board_station,
            alight_station_id: Some(event.station_id),
            alight_station: Some(event.station_name.clone()),
            gateway_id: Some(event.gateway_id.clone()),
        }
    }
}

impl TapEvent {
    /// An equal copy of the event.
    pub fn duplicate(&self) -> (r: Self)
        ensures
            r == *self,
    {
        Self {
            record_id: self.record_id.clone(),
            card_id: self.card_id.clone(),
            route_id: self.route_id,
            station_id: self.station_id,
            station_name: self.station_name.clone(),
            tap_type: self.tap_type,
            tap_time: self.tap_time,
            gateway_id: self.gateway_id.clone(),
        }
    }
}

fn dup_opt_string(o: &Option<String>) -> (r: Option<String>)
    ensures
        r == *o,
{
    match o {
        Some(s) => Some(s.clone()),
        None => None,
    }
}

impl UploadRecord {
    /// An equal copy of the record.
    pub fn duplicate(&self) -> (r: Self)
        ensures
            r == *self,
    {
        Self {
            record_id: self.record_id.clone(),
            card_id: self.card_id.clone(),
            route_id: self.route_id,
            board_time: self.board_time.clone(),
            alight_time: dup_opt_string(&self.alight_time),
            board_station_id: self.board_station_id,
            board_station: dup_opt_string(&self.board_station),
            alight_station_id: self.alight_station_id,
            alight_station: dup_opt_string(&self.alight_station),
            gateway_id: dup_opt_string(&self.gateway_id),
        }
    }
}

/// Payload sent to the backend when a blank card is provisioned.
#[derive(Clone, Debug)]
pub struct CardRegistration {
    pub card_id: String,
    pub balance_cents: u32,
    pub status: String,
    pub registered_at: u64,
    pub gateway_id: String,
}

/// Snapshot of the on-card record after a write-back, queued for
/// backend reconciliation.
#[derive(Clone, Debug)]
pub struct CardStateSnapshot {
    pub card_id: String,
    pub balance_cents: u32,
    pub card_status: String,
    pub entry_station_id: Option<u16>,
    pub last_route_id: Option<u16>,
    pub last_direction: Option<String>,
    pub last_board_station_id: Option<u16>,
    pub last_alight_station_id: Option<u16>,
    pub updated_at: u64,
    pub source: String,
}

} // verus!
