//! Codec behaviour: the 32-byte card record, the wire frames and
//! the byte-stream reassembler.

use tap_gateway::card_data::{decode_uid_hex, CardData, CardDataParseError, CardStatus};
use tap_gateway::frame::{decode_frame, encode_frame, Frame, FrameError};
use tap_gateway::model::Direction;
use tap_gateway::serial::{
    decode_card_ack, decode_card_detected, decode_card_write_result, encode_card_ack,
    encode_card_detected, encode_card_write_request, CardAck, CardDetected, CardWriteRequest,
};
use tap_gateway::serial_io::{frame_to_bytes, FrameReader, SerialFrameCodec};

fn sample_card() -> CardData {
    CardData {
        uid: [0xDE, 0xAD, 0xBE, 0xEF],
        balance_cents: 12345,
        status: CardStatus::InTrip,
        entry_station_id: Some(7),
        last_route_id: Some(101),
        last_direction: Some(Direction::Down),
        last_board_station_id: Some(3),
        last_alight_station_id: None,
    }
}

#[test]
fn card_record_round_trips() {
    let card = sample_card();
    let bytes = card.to_bytes();
    assert_eq!(bytes.len(), 32);
    let back = CardData::from_bytes_verbose(&bytes).expect("fresh encoding must parse");
    assert_eq!(back, card);
}

#[test]
fn blank_card_round_trips() {
    let card = CardData::new([1, 2, 3, 4]);
    let bytes = card.to_bytes();
    let back = CardData::from_bytes(&bytes).expect("blank card must parse");
    assert_eq!(back, card);
    assert_eq!(back.balance_cents, 0);
    assert_eq!(back.status, CardStatus::Idle);
}

#[test]
fn every_single_byte_flip_is_caught() {
    let bytes = sample_card().to_bytes();
    for i in 0..32 {
        let mut damaged = bytes.clone();
        damaged[i] ^= 0x01;
        assert!(
            CardData::from_bytes_verbose(&damaged).is_err(),
            "flip at offset {i} went unnoticed"
        );
    }
}

#[test]
fn short_and_malformed_records_report_their_reason() {
    assert_eq!(
        CardData::from_bytes_verbose(&[0u8; 10]).unwrap_err(),
        CardDataParseError::BadLength
    );
    let mut bytes = sample_card().to_bytes();
    bytes[0] = 0x00;
    assert_eq!(
        CardData::from_bytes_verbose(&bytes).unwrap_err(),
        CardDataParseError::BadMagic
    );
    let mut bytes = sample_card().to_bytes();
    bytes[2] = 0x02;
    assert_eq!(
        CardData::from_bytes_verbose(&bytes).unwrap_err(),
        CardDataParseError::BadVersion
    );
    let mut bytes = sample_card().to_bytes();
    bytes[3] = 0x07;
    assert_eq!(
        CardData::from_bytes_verbose(&bytes).unwrap_err(),
        CardDataParseError::BadUidLen
    );
    let mut bytes = sample_card().to_bytes();
    bytes[12] ^= 0xFF;
    assert_eq!(
        CardData::from_bytes_verbose(&bytes).unwrap_err(),
        CardDataParseError::BadCrc
    );
}

#[test]
fn uid_hex_decoding() {
    assert_eq!(decode_uid_hex("deadbeef"), Some([0xDE, 0xAD, 0xBE, 0xEF]));
    assert_eq!(decode_uid_hex("DEADBEEF"), Some([0xDE, 0xAD, 0xBE, 0xEF]));
    assert_eq!(decode_uid_hex("01020304"), Some([1, 2, 3, 4]));
    assert_eq!(decode_uid_hex("deadbee"), None);
    assert_eq!(decode_uid_hex("deadbeez"), None);
    assert_eq!(decode_uid_hex(""), None);
}

#[test]
fn frame_round_trips() {
    let frame = Frame { msg_type: 0x01, flags: 0, payload: vec![1, 2, 3, 4, 5] };
    let bytes = encode_frame(&frame);
    let back = decode_frame(&bytes).expect("fresh frame must decode");
    assert_eq!(back.msg_type, 0x01);
    assert_eq!(back.flags, 0);
    assert_eq!(back.payload, vec![1, 2, 3, 4, 5]);
}

#[test]
fn empty_payload_frame_round_trips() {
    let frame = Frame { msg_type: 0x04, flags: 7, payload: vec![] };
    let bytes = encode_frame(&frame);
    assert_eq!(bytes.len(), 9);
    let back = decode_frame(&bytes).expect("empty frame must decode");
    assert_eq!(back.msg_type, 0x04);
    assert_eq!(back.flags, 7);
    assert!(back.payload.is_empty());
}

#[test]
fn frame_decode_rejections() {
    assert!(matches!(decode_frame(&[0xAA, 0x55]), Err(FrameError::TooShort)));
    assert!(matches!(
        decode_frame(&[0x00, 0x55, 1, 2, 0, 1, 1, 0, 0]),
        Err(FrameError::BadHeader)
    ));
    assert!(matches!(
        decode_frame(&[0xAA, 0x55, 9, 2, 0, 1, 1, 0, 0]),
        Err(FrameError::BadVersion)
    ));
    let frame = Frame { msg_type: 1, flags: 0, payload: vec![9] };
    let mut bytes = encode_frame(&frame);
    let last = bytes.len() - 1;
    bytes[last] ^= 0xFF;
    assert!(matches!(decode_frame(&bytes), Err(FrameError::BadChecksum)));
    let mut bytes = encode_frame(&frame);
    bytes.truncate(bytes.len() - 1);
    assert!(matches!(decode_frame(&bytes), Err(FrameError::BadLength)));
}

#[test]
fn reader_reassembles_frame_byte_by_byte() {
    let frame = Frame { msg_type: 0x05, flags: 1, payload: vec![0xAA, 0x55, 0x10] };
    let bytes = encode_frame(&frame);
    let mut reader = FrameReader::new();
    for (i, b) in bytes.iter().enumerate() {
        match reader.push(*b) {
            None => assert!(i + 1 < bytes.len(), "nothing emitted at the last byte"),
            Some(result) => {
                assert_eq!(i + 1, bytes.len(), "emitted before the frame was complete");
                let got = result.expect("completed frame must decode");
                assert_eq!(got.msg_type, 0x05);
                assert_eq!(got.flags, 1);
                assert_eq!(got.payload, vec![0xAA, 0x55, 0x10]);
            }
        }
    }
}

#[test]
fn reader_recovers_after_noise() {
    let frame = Frame { msg_type: 0x02, flags: 0, payload: vec![1, 2] };
    let bytes = encode_frame(&frame);
    let mut reader = FrameReader::new();
    for b in [0x00u8, 0x13, 0x55, 0x99] {
        assert!(reader.push(b).is_none(), "noise must not complete a frame");
    }
    let mut seen = None;
    for b in &bytes {
        if let Some(result) = reader.push(*b) {
            seen = Some(result.expect("frame after noise must decode"));
        }
    }
    let got = seen.expect("the frame must come out whole after noise");
    assert_eq!(got.msg_type, 0x02);
    assert_eq!(got.payload, vec![1, 2]);
}

#[test]
fn card_detected_payload_round_trips() {
    let msg = CardDetected {
        card_id: "deadbeef".to_string(),
        tap_time: 1717000000,
        reader_id: 9,
        card_data: sample_card().to_bytes(),
    };
    let payload = encode_card_detected(&msg);
    let back = decode_card_detected(&payload).expect("payload must decode");
    assert_eq!(back.card_id, "deadbeef");
    assert_eq!(back.tap_time, 1717000000);
    assert_eq!(back.reader_id, 9);
    assert_eq!(back.card_data, msg.card_data);
}

#[test]
fn card_ack_payload_round_trips() {
    let ack = CardAck {
        result: 1,
        beep_pattern: 2,
        display_code: 3,
        write_flag: 1,
        write_data: vec![4, 5, 6],
    };
    let payload = encode_card_ack(&ack);
    let back = decode_card_ack(&payload).expect("ack must decode");
    assert_eq!(back.result, 1);
    assert_eq!(back.beep_pattern, 2);
    assert_eq!(back.display_code, 3);
    assert_eq!(back.write_flag, 1);
    assert_eq!(back.write_data, vec![4, 5, 6]);
    assert!(decode_card_ack(&[1, 2, 3]).is_none());
}

#[test]
fn write_result_payload_decodes() {
    assert_eq!(
        decode_card_write_result(&[1, 0, 8, 2]).map(|r| (r.result, r.error_code, r.block_start, r.block_count)),
        Some((1, 0, 8, 2))
    );
    assert!(decode_card_write_result(&[1, 0]).is_none());
}

#[test]
fn codec_classifies_card_detected_frames() {
    let msg = CardDetected {
        card_id: "01020304".to_string(),
        tap_time: 1000,
        reader_id: 1,
        card_data: CardData::new([1, 2, 3, 4]).to_bytes(),
    };
    let bytes = frame_to_bytes(&msg.to_frame());
    let mut codec = SerialFrameCodec::new();
    let mut events = 0;
    for b in &bytes {
        if let Some(Ok(event)) = codec.push_byte(*b) {
            events += 1;
            match event {
                tap_gateway::serial_io::SerialEvent::CardDetected(card) => {
                    assert_eq!(card.card_id, "01020304");
                    assert_eq!(card.tap_time, 1000);
                }
                _ => panic!("wrong event kind"),
            }
        }
    }
    assert_eq!(events, 1);
}

#[test]
fn write_request_encoding_truncates_nothing_for_card_records() {
    let req = CardWriteRequest {
        card_id: "deadbeef".to_string(),
        card_data: sample_card().to_bytes(),
        block_start: 8,
        block_count: 2,
    };
    let payload = encode_card_write_request(&req);
    // card id (1 + 8) + data len byte + 32 data bytes + block start + count
    assert_eq!(payload.len(), 1 + 8 + 1 + 32 + 2);
    assert_eq!(payload[9], 32);
}
