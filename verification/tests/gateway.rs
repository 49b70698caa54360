//! End-to-end decision-engine scenarios.

use tap_gateway::card_data::{CardData, CardStatus};
use tap_gateway::model::{
    Direction, FareRule, FareType, GatewaySettings, RouteConfig, StationConfig, TapMode, TapType,
};
use tap_gateway::serial::{CardDetected, CardWriteResult};
use tap_gateway::state::GatewayState;

fn settings() -> GatewaySettings {
    GatewaySettings::with_gateway_id("gw-test".to_string())
}

fn station(id: u16, name: &str, sequence: u16) -> StationConfig {
    StationConfig { id, name: name.to_string(), sequence, zone_id: None, is_transfer: false }
}

fn uniform_config(route_id: u16, fare_cents: u32) -> RouteConfig {
    RouteConfig {
        route_id,
        route_name: "test-line".to_string(),
        fare_type: FareType::Uniform,
        tap_mode: TapMode::SingleTap,
        max_fare_cents: None,
        stations: vec![station(1, "one", 1), station(2, "two", 2)],
        fares: vec![FareRule {
            base_price_cents: fare_cents,
            fare_type: None,
            segment_count: None,
            extra_price_cents: None,
            start_station: None,
            end_station: None,
        }],
    }
}

fn distance_config(route_id: u16) -> RouteConfig {
    RouteConfig {
        route_id,
        route_name: "dist-line".to_string(),
        fare_type: FareType::Distance,
        tap_mode: TapMode::TapInOut,
        max_fare_cents: None,
        stations: (1u16..=5).map(|i| station(i, "s", i)).collect(),
        fares: vec![FareRule {
            base_price_cents: 200,
            fare_type: None,
            segment_count: Some(1),
            extra_price_cents: Some(100),
            start_station: None,
            end_station: None,
        }],
    }
}

fn card(balance: u32, status: CardStatus) -> CardData {
    let mut c = CardData::new([0xDE, 0xAD, 0xBE, 0xEF]);
    c.balance_cents = balance;
    c.status = status;
    c
}

fn tap(card_data: Vec<u8>, time: u64) -> CardDetected {
    CardDetected { card_id: "deadbeef".to_string(), tap_time: time, reader_id: 1, card_data }
}

#[test]
fn happy_single_tap_charges_the_uniform_fare() {
    let mut state = GatewayState::bootstrap(settings());
    state.update_route_config(uniform_config(101, 200), 1000);
    state.set_station_by_id(1);

    let d = state.handle_card_detected(tap(card(1000, CardStatus::Idle).to_bytes(), 500), 500, 500_000);
    assert_eq!(d.ack.result, 1);
    let event = d.event.expect("an accepted tap records an event");
    assert_eq!(event.tap_type, TapType::TapIn);
    assert_eq!(event.route_id, 101);
    assert_eq!(event.station_id, 1);
    let upload = d.upload_record.expect("single-tap success uploads a record");
    assert!(upload.alight_time.is_none());
    assert_eq!(upload.board_time, "500");
    let write = d.write_request.expect("the new balance is written back");
    let written = CardData::from_bytes(&write.card_data).expect("write bytes form a record");
    assert_eq!(written.balance_cents, 800);
    assert_eq!(written.status, CardStatus::Idle);
    assert_eq!(state.last_fare_cents, Some(200));
    assert!(d.registration.is_none());
}

#[test]
fn insufficient_balance_rolls_back_the_tap_out() {
    let mut state = GatewayState::bootstrap(settings());
    state.update_route_config(distance_config(7), 1000);
    state.set_station_by_id(1);

    // Board at station 1 with 150 cents.
    let d1 = state.handle_card_detected(tap(card(150, CardStatus::Idle).to_bytes(), 100), 100, 100_000);
    assert_eq!(d1.ack.result, 1);
    assert_eq!(d1.event.as_ref().unwrap().tap_type, TapType::TapIn);

    // Try to alight at station 3: two segments, one included, 200 + 100 * 2... wait
    // diff = 2, included = 1, extra = 100: fare = 200 + 100 = 300 > 150.
    state.set_station_by_id(3);
    let d2 = state.handle_card_detected(tap(card(150, CardStatus::InTrip).to_bytes(), 110), 110, 110_000);
    assert_eq!(d2.ack.result, 0);
    assert_eq!(state.last_passenger_message, "余额不足");
    assert!(d2.upload_record.is_none());

    // The pending trip survives the rejection.
    let pending = state.active_trips.take("deadbeef", 111);
    assert!(pending.is_some(), "the tap-in must still be cached");
    assert_eq!(pending.unwrap().station_id, 1);
}

#[test]
fn tap_out_with_funds_charges_the_distance_fare() {
    let mut state = GatewayState::bootstrap(settings());
    state.update_route_config(distance_config(7), 1000);
    state.set_station_by_id(1);

    let d1 = state.handle_card_detected(tap(card(1000, CardStatus::Idle).to_bytes(), 100), 100, 100_000);
    assert_eq!(d1.ack.result, 1);
    let boarding_write = d1.write_request.expect("boarding writes the in-trip record");
    let boarded = CardData::from_bytes(&boarding_write.card_data).unwrap();
    assert_eq!(boarded.status, CardStatus::InTrip);
    assert_eq!(boarded.entry_station_id, Some(1));
    assert_eq!(boarded.balance_cents, 1000);

    state.set_station_by_id(3);
    let d2 = state.handle_card_detected(tap(card(1000, CardStatus::InTrip).to_bytes(), 110), 110, 110_000);
    assert_eq!(d2.ack.result, 1);
    let event = d2.event.unwrap();
    assert_eq!(event.tap_type, TapType::TapOut);
    let upload = d2.upload_record.expect("tap-out uploads the trip");
    assert_eq!(upload.board_station_id, Some(1));
    assert_eq!(upload.alight_station_id, Some(3));
    assert!(upload.alight_time.is_some());
    let written = CardData::from_bytes(&d2.write_request.unwrap().card_data).unwrap();
    assert_eq!(written.balance_cents, 700);
    assert_eq!(written.status, CardStatus::Idle);
    assert_eq!(written.entry_station_id, None);
    assert!(state.active_trips.take("deadbeef", 111).is_none());
}

#[test]
fn debounce_rejects_the_second_tap() {
    let mut state = GatewayState::bootstrap(settings());
    state.update_route_config(uniform_config(101, 200), 1000);
    state.set_station_by_id(1);

    let d1 = state.handle_card_detected(tap(card(1000, CardStatus::Idle).to_bytes(), 100), 100, 100_000);
    assert_eq!(d1.ack.result, 1);
    assert!(d1.upload_record.is_some());

    let d2 = state.handle_card_detected(tap(card(800, CardStatus::Idle).to_bytes(), 101), 101, 101_000);
    assert_eq!(d2.ack.result, 0);
    assert_eq!(state.last_passenger_message, "刷卡过快");
    assert!(d2.upload_record.is_none());
    assert!(d2.event.is_none());
}

#[test]
fn blacklisted_card_gets_blocked_on_chip() {
    let mut state = GatewayState::bootstrap(settings());
    state.update_route_config(uniform_config(101, 200), 1000);
    state.update_blacklist(vec!["deadbeef".to_string()], 1000);

    let d = state.handle_card_detected(tap(card(1000, CardStatus::Idle).to_bytes(), 100), 100, 100_000);
    assert_eq!(d.ack.result, 0);
    assert_eq!(state.last_passenger_message, "卡已冻结");
    assert!(d.upload_record.is_none());
    let write = d.write_request.expect("an unblocked chip gets a blocking write");
    let written = CardData::from_bytes(&write.card_data).unwrap();
    assert_eq!(written.status, CardStatus::Blocked);
}

#[test]
fn already_blocked_chip_gets_no_write() {
    let mut state = GatewayState::bootstrap(settings());
    state.update_blacklist(vec!["deadbeef".to_string()], 1000);
    let d = state.handle_card_detected(tap(card(0, CardStatus::Blocked).to_bytes(), 100), 100, 100_000);
    assert_eq!(d.ack.result, 0);
    assert!(d.write_request.is_none());
}

#[test]
fn register_then_recharge_a_blank_card() {
    let mut state = GatewayState::bootstrap(settings());
    state.update_route_config(uniform_config(101, 200), 1000);

    // Register mode: an unreadable (all 0xFF) card with a good id is provisioned.
    state.set_register_mode(100_000);
    let d1 = state.handle_card_detected(tap(vec![0xFF; 32], 100), 100, 100_500);
    assert_eq!(d1.ack.result, 1);
    let registration = d1.registration.expect("registration payload for the backend");
    assert_eq!(registration.card_id, "deadbeef");
    assert_eq!(registration.balance_cents, 0);
    assert_eq!(registration.status, "active");
    assert!(d1.event.is_none());
    assert!(d1.upload_record.is_none());
    let blank_bytes = d1.write_request.expect("the blank record is written").card_data;
    let blank = CardData::from_bytes(&blank_bytes).unwrap();
    assert_eq!(blank.balance_cents, 0);
    assert_eq!(blank.status, CardStatus::Idle);
    assert_eq!(blank.uid, [0xDE, 0xAD, 0xBE, 0xEF]);
    assert_eq!(state.last_passenger_message, "注册成功");
    state.handle_write_result(CardWriteResult { result: 1, error_code: 0, block_start: 8, block_count: 2 }, 100_600);
    assert!(state.register_mode.is_none(), "a successful register write closes the mode");

    // Recharge mode with 500 cents: the freshly written card is credited.
    state.set_recharge_mode(500, 101_000);
    let d2 = state.handle_card_detected(tap(blank_bytes, 105), 105, 101_500);
    assert_eq!(d2.ack.result, 1);
    assert_eq!(state.last_passenger_message, "充值成功");
    let written = CardData::from_bytes(&d2.write_request.unwrap().card_data).unwrap();
    assert_eq!(written.balance_cents, 500);
    assert!(d2.event.is_none());
    assert!(d2.upload_record.is_none());
}

#[test]
fn recharge_needs_idle_status() {
    let mut state = GatewayState::bootstrap(settings());
    state.set_recharge_mode(500, 100_000);
    let d = state.handle_card_detected(tap(card(100, CardStatus::InTrip).to_bytes(), 100), 100, 100_500);
    assert_eq!(d.ack.result, 0);
    assert_eq!(state.last_passenger_message, "卡状态异常");
}

#[test]
fn uid_mismatch_needs_a_backend_profile() {
    let mut state = GatewayState::bootstrap(settings());
    state.update_route_config(uniform_config(101, 200), 1000);

    // The record carries a different UID than the hex card id spells.
    let mut other = CardData::new([1, 2, 3, 4]);
    other.balance_cents = 900;
    let d1 = state.handle_card_detected(tap(other.to_bytes(), 100), 100, 100_000);
    assert_eq!(d1.ack.result, 0);
    assert_eq!(state.last_passenger_message, "卡未注册");

    // With a fresh backend profile the recharge path accepts the card.
    state.update_card_cache(
        "deadbeef".to_string(),
        None,
        Some("active".to_string()),
        None,
        None,
        Some(250),
        200_000,
    );
    state.set_recharge_mode(100, 200_000);
    let d2 = state.handle_card_detected(tap(other.to_bytes(), 110), 110, 200_500);
    assert_eq!(d2.ack.result, 1);
    let written = CardData::from_bytes(&d2.write_request.unwrap().card_data).unwrap();
    assert_eq!(written.balance_cents, 350);
}

#[test]
fn expired_mode_is_silently_cleared() {
    let mut state = GatewayState::bootstrap(settings());
    state.update_route_config(uniform_config(101, 200), 1000);
    state.set_station_by_id(1);
    state.set_register_mode(100_000);

    // Sixty-plus seconds later the tap is processed as a normal tap.
    let d = state.handle_card_detected(tap(card(1000, CardStatus::Idle).to_bytes(), 200), 200, 161_000);
    assert_eq!(d.ack.result, 1);
    assert!(d.registration.is_none());
    assert!(d.upload_record.is_some());
    assert!(state.register_mode.is_none());
}

#[test]
fn student_profile_halves_the_fare() {
    let mut state = GatewayState::bootstrap(settings());
    state.update_route_config(uniform_config(101, 200), 1000);
    state.set_station_by_id(1);
    state.update_card_cache(
        "deadbeef".to_string(),
        Some("student".to_string()),
        Some("active".to_string()),
        None,
        None,
        None,
        100_000,
    );
    let d = state.handle_card_detected(tap(card(1000, CardStatus::Idle).to_bytes(), 100), 100, 100_000);
    assert_eq!(d.ack.result, 1);
    assert_eq!(state.last_fare_cents, Some(100));
    let written = CardData::from_bytes(&d.write_request.unwrap().card_data).unwrap();
    assert_eq!(written.balance_cents, 900);
}

#[test]
fn write_failure_reports_the_context() {
    let mut state = GatewayState::bootstrap(settings());
    state.update_route_config(uniform_config(101, 200), 1000);
    state.set_station_by_id(1);
    let d = state.handle_card_detected(tap(card(1000, CardStatus::Idle).to_bytes(), 100), 100, 100_000);
    assert_eq!(d.ack.result, 1);
    state.handle_write_result(
        CardWriteResult { result: 0, error_code: 3, block_start: 8, block_count: 2 },
        101_000,
    );
    assert_eq!(state.last_passenger_message, "写卡失败");
    assert_eq!(state.last_written_balance_cents, None);
}

#[test]
fn write_success_promotes_the_balance() {
    let mut state = GatewayState::bootstrap(settings());
    state.update_route_config(uniform_config(101, 200), 1000);
    state.set_station_by_id(1);
    let d = state.handle_card_detected(tap(card(1000, CardStatus::Idle).to_bytes(), 100), 100, 100_000);
    assert_eq!(d.ack.result, 1);
    state.handle_write_result(
        CardWriteResult { result: 1, error_code: 0, block_start: 8, block_count: 2 },
        101_000,
    );
    assert_eq!(state.last_balance_cents, Some(800));
}

#[test]
fn unregistered_card_without_profile_is_rejected() {
    let mut state = GatewayState::bootstrap(settings());
    state.update_route_config(uniform_config(101, 200), 1000);
    let d = state.handle_card_detected(tap(vec![0u8; 16], 100), 100, 100_000);
    assert_eq!(d.ack.result, 0);
    assert_eq!(state.last_passenger_message, "卡未注册");
}

#[test]
fn status_panel_reflects_the_state() {
    let mut state = GatewayState::bootstrap(settings());
    state.update_route_config(uniform_config(101, 200), 1000);
    state.set_station_by_id(2);
    state.set_direction(Direction::Down);
    let panel = state.status_panel(1_000);
    assert_eq!(panel.route_id, 101);
    assert_eq!(panel.station_id, 2);
    assert_eq!(panel.direction, Direction::Down);
    assert_eq!(panel.standard_fare_cents, Some(200));
    assert_eq!(panel.tap_mode_label, "单次刷卡");
    assert!(!panel.recharge_active);
}

#[test]
fn stepping_stations_follows_the_sequence() {
    let mut state = GatewayState::bootstrap(settings());
    state.update_route_config(distance_config(7), 1000);
    assert_eq!(state.route_state.station_id, 1);
    assert!(state.step_station(true));
    assert_eq!(state.route_state.station_id, 2);
    assert!(state.step_station(true));
    assert_eq!(state.route_state.station_id, 3);
    assert!(state.step_station(false));
    assert_eq!(state.route_state.station_id, 2);
}
