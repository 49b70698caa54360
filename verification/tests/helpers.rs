//! Fare rules, caches, the upload batcher and the UI helpers.

use tap_gateway::cache::{ActiveTripCache, BlacklistCache, TapDebounce, TapEventCache};
use tap_gateway::model::{FareRule, FareType, RouteConfig, TapEvent, TapMode, TapType};
use tap_gateway::net::{blacklist_additions, CardStateReject, UploadBatcher};
use tap_gateway::api::ApiConfig;
use tap_gateway::strutil::{hex_prefix, u64_to_string};
use tap_gateway::web::{
    decode_component, format_cents, normalize_backend_url, parse_action, parse_amount_cents,
    DriverAction,
};
use tap_gateway::model::UploadRecord;

fn rule(base: u32, extra: Option<u32>, included: Option<u16>, pair: Option<(u16, u16)>) -> FareRule {
    FareRule {
        base_price_cents: base,
        fare_type: None,
        segment_count: included,
        extra_price_cents: extra,
        start_station: pair.map(|p| p.0),
        end_station: pair.map(|p| p.1),
    }
}

fn config(fare_type: FareType, fares: Vec<FareRule>) -> RouteConfig {
    RouteConfig {
        route_id: 1,
        route_name: "r".to_string(),
        fare_type,
        tap_mode: TapMode::TapInOut,
        max_fare_cents: None,
        stations: (1u16..=5)
            .map(|i| tap_gateway::model::StationConfig {
                id: i,
                name: "s".to_string(),
                sequence: i,
                zone_id: None,
                is_transfer: false,
            })
            .collect(),
        fares,
    }
}

fn event(id: &str, station: u16, time: u64) -> TapEvent {
    TapEvent::new(
        format!("r-{time}"),
        id.to_string(),
        1,
        station,
        "s".to_string(),
        TapType::TapIn,
        time,
        "gw".to_string(),
    )
}

fn record(n: u64) -> UploadRecord {
    UploadRecord::from_tap_in(&event("c", 1, n))
}

#[test]
fn standard_fare_picks_the_smallest_positive_price() {
    let cfg = config(FareType::Uniform, vec![rule(0, None, None, None), rule(300, None, None, None), rule(150, None, None, None)]);
    assert_eq!(cfg.standard_fare(), Some(150));
    let unpriced = config(FareType::Uniform, vec![rule(0, None, None, None)]);
    assert_eq!(unpriced.standard_fare(), None);
    let empty = config(FareType::Uniform, vec![]);
    assert_eq!(empty.standard_fare(), None);
}

#[test]
fn estimate_within_included_segments_is_the_base() {
    let cfg = config(FareType::Distance, vec![rule(200, Some(100), Some(2), None)]);
    assert_eq!(cfg.estimate_trip_fare(1, 1), Some(200));
    assert_eq!(cfg.estimate_trip_fare(1, 3), Some(200));
    assert_eq!(cfg.estimate_trip_fare(1, 4), Some(300));
    assert_eq!(cfg.estimate_trip_fare(1, 5), Some(400));
}

#[test]
fn estimate_prefers_an_exact_pair_rule() {
    let cfg = config(
        FareType::Distance,
        vec![rule(200, Some(100), Some(1), None), rule(50, None, None, Some((2, 4)))],
    );
    assert_eq!(cfg.estimate_trip_fare(2, 4), Some(50));
    assert_eq!(cfg.estimate_trip_fare(4, 2), Some(300));
}

#[test]
fn estimate_with_unset_station_falls_back_to_standard() {
    let cfg = config(FareType::Distance, vec![rule(200, Some(100), Some(1), None)]);
    assert_eq!(cfg.estimate_trip_fare(0, 3), Some(200));
    assert_eq!(cfg.estimate_trip_fare(3, 0), Some(200));
}

#[test]
fn debounce_suppresses_within_the_window() {
    let mut debounce = TapDebounce::new(2, 8);
    assert!(debounce.allow("a", 100));
    assert!(!debounce.allow("a", 101));
    assert!(!debounce.allow("a", 102));
    assert!(debounce.allow("a", 105));
    assert!(debounce.allow("b", 105));
}

#[test]
fn debounce_capacity_evicts_the_oldest() {
    let mut debounce = TapDebounce::new(100, 2);
    assert!(debounce.allow("a", 10));
    assert!(debounce.allow("b", 11));
    assert!(debounce.allow("c", 12));
    // "a" was evicted to make room, so it is admitted again.
    assert!(debounce.allow("a", 13));
}

#[test]
fn tap_event_cache_rejects_on_overflow() {
    let mut cache = TapEventCache::new(2);
    assert!(cache.push(event("a", 1, 1)).is_ok());
    assert!(cache.push(event("b", 1, 2)).is_ok());
    assert!(cache.push(event("c", 1, 3)).is_err());
    assert_eq!(cache.len(), 2);
    let batch = cache.drain_batch(1);
    assert_eq!(batch.len(), 1);
    assert_eq!(batch[0].card_id, "a");
    assert_eq!(cache.len(), 1);
    cache.clear();
    assert_eq!(cache.len(), 0);
}

#[test]
fn active_trips_expire_and_replace() {
    let mut trips = ActiveTripCache::new(10);
    trips.insert(event("a", 1, 100), 100);
    assert!(trips.take("a", 105).is_some());
    assert!(trips.take("a", 105).is_none());
    trips.insert(event("a", 2, 200), 200);
    // Expired entries are gone once the TTL passes.
    assert!(trips.take("a", 300).is_none());
}

#[test]
fn blacklist_matches_exact_ids() {
    let mut cache = BlacklistCache::new(300);
    cache.replace(vec!["aa".to_string(), "bb".to_string()], 100);
    assert!(cache.is_blocked("aa"));
    assert!(cache.is_blocked("bb"));
    assert!(!cache.is_blocked("cc"));
    assert!(!cache.is_blocked("a"));
}

#[test]
fn upload_batcher_is_all_or_nothing() {
    let mut batcher = UploadBatcher::new(50);
    for i in 0..50 {
        let flush = batcher.push(record(i));
        assert_eq!(flush, i == 49);
    }
    assert_eq!(batcher.len(), 50);
    // A failed POST leaves the whole batch in place.
    batcher.on_upload_outcome(false);
    assert_eq!(batcher.len(), 50);
    // The next success clears everything.
    batcher.on_upload_outcome(true);
    assert_eq!(batcher.len(), 0);
}

#[test]
fn idle_flush_waits_for_age_and_content() {
    let mut batcher = UploadBatcher::new(50);
    assert!(!batcher.idle_flush_due(10));
    batcher.push(record(1));
    assert!(!batcher.idle_flush_due(4));
    assert!(batcher.idle_flush_due(5));
}

#[test]
fn only_blocked_reasons_blacklist() {
    let rejections = vec![
        CardStateReject { card_id: "a".to_string(), reason: Some("card blocked".to_string()) },
        CardStateReject { card_id: "b".to_string(), reason: Some("stale".to_string()) },
        CardStateReject { card_id: "c".to_string(), reason: None },
        CardStateReject { card_id: "d".to_string(), reason: Some("card blocked".to_string()) },
    ];
    let ids = blacklist_additions(rejections);
    assert_eq!(ids, vec!["a".to_string(), "d".to_string()]);
}

#[test]
fn api_urls_are_assembled() {
    let api = ApiConfig { base_url: "http://backend".to_string() };
    assert_eq!(api.config_url(42), "http://backend/api/v1/bus/config?route_id=42");
    assert_eq!(api.batch_records_url(), "http://backend/api/v1/bus/batchRecords");
}

#[test]
fn decimal_rendering() {
    assert_eq!(u64_to_string(0), "0");
    assert_eq!(u64_to_string(7), "7");
    assert_eq!(u64_to_string(1717000000), "1717000000");
    assert_eq!(hex_prefix(&[0xDE, 0xAD, 0xBE, 0xEF], 2), "DEAD");
    assert_eq!(hex_prefix(&[0x0F], 16), "0F");
}

#[test]
fn query_actions_parse() {
    assert!(matches!(parse_action("type=next"), Some(DriverAction::NextStation)));
    assert!(matches!(parse_action("type=dir_down"), Some(DriverAction::SetDirection { .. })));
    assert!(matches!(
        parse_action("type=set_route&route_id=42"),
        Some(DriverAction::SetRoute { route_id: 42 })
    ));
    assert!(matches!(
        parse_action("type=recharge&amount=5.00"),
        Some(DriverAction::StartRecharge { amount_cents: 500 })
    ));
    assert!(parse_action("type=recharge&amount=0").is_none());
    assert!(parse_action("type=bogus").is_none());
    assert!(parse_action("route_id=42").is_none());
}

#[test]
fn component_decoding_handles_percent_and_plus() {
    assert_eq!(decode_component("a%20b+c"), "a b c");
    assert_eq!(decode_component("100%25"), "100%");
    assert_eq!(decode_component("%zz"), "%zz");
}

#[test]
fn amounts_parse_to_cents() {
    assert_eq!(parse_amount_cents("5"), Some(500));
    assert_eq!(parse_amount_cents("5.5"), Some(550));
    assert_eq!(parse_amount_cents("3.14"), Some(314));
    assert_eq!(parse_amount_cents(" 2.005 "), Some(201));
    assert_eq!(parse_amount_cents("0"), None);
    assert_eq!(parse_amount_cents("0.001"), None);
    assert_eq!(parse_amount_cents("-1"), None);
    assert_eq!(parse_amount_cents("abc"), None);
}

#[test]
fn backend_urls_normalise() {
    assert_eq!(normalize_backend_url("172.20.1.5:80/".to_string()), "http://172.20.1.5:80");
    assert_eq!(normalize_backend_url("  https://x/ ".to_string()), "https://x");
    assert_eq!(normalize_backend_url("   ".to_string()), "");
    assert_eq!(normalize_backend_url("http://y".to_string()), "http://y");
}

#[test]
fn cents_format_with_two_decimals() {
    assert_eq!(format_cents(Some(1234)), "¥12.34");
    assert_eq!(format_cents(Some(5)), "¥0.05");
    assert_eq!(format_cents(None), "—");
}
