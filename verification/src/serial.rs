//! Messages exchanged with the card reader over the framed link:
//! card-detected reports, ACKs, write requests and write results,
//! each with its length-prefixed payload encoding.

use vstd::prelude::*;

verus! {

use vstd::math::min;
use vstd::string::StringSliceAdditionalSpecFns;
use vstd::utf8::{valid_utf8, decode_utf8, encode_utf8};
use crate::frame::{Frame, MSG_CARD_ACK, MSG_CARD_DETECTED, MSG_CARD_WRITE_REQ,
    MSG_CARD_WRITE_RESULT};
use crate::wire::{u16_lo, u16_hi, u16_from_le, u32_byte0, u32_byte1, u32_byte2, u32_byte3,
    u32_from_le, u16_lo_byte, u16_hi_byte, u16_from_le_bytes, u32_le_bytes, u32_from_le_bytes};
use crate::strutil::bytes_to_string_lossy;

/// A tap reported by the reader.
#[derive(Clone, Debug)]
pub struct CardDetected {
    pub card_id: String,
    pub tap_time: u64,
    pub reader_id: u16,
    pub card_data: Vec<u8>,
}

/// The gateway's answer to a tap.
#[derive(Clone, Debug)]
pub struct CardAck {
    pub result: u8,
    pub beep_pattern: u8,
    pub display_code: u8,
    pub write_flag: u8,
    pub write_data: Vec<u8>,
}

/// A request to rewrite the card's record blocks.
#[derive(Clone, Debug)]
pub struct CardWriteRequest {
    pub card_id: String,
    pub card_data: Vec<u8>,
    pub block_start: u8,
    pub block_count: u8,
}

/// The reader's report on a write request.
#[derive(Clone, Copy, Debug, PartialEq, Eq, Structural)]
pub struct CardWriteResult {
    pub result: u8,
    pub error_code: u8,
    pub block_start: u8,
    pub block_count: u8,
}

/// What the gateway sends down the serial line.
#[derive(Clone, Debug)]
pub enum SerialCommand {
    Ack(CardAck),
    Write(CardWriteRequest),
}

// ---------------------------------------------------------------
// Length-prefixed primitives
// ---------------------------------------------------------------

/// A string on the wire: one length byte, then at most 255 bytes.
pub open spec fn str_payload(s: Seq<u8>) -> Seq<u8> {
    seq![min(s.len() as int, 255) as u8] + s.take(min(s.len() as int, 255))
}

/// A byte block on the wire: a little-endian length, then at most
/// 65535 bytes.
pub open spec fn bytes_payload(s: Seq<u8>) -> Seq<u8> {
    seq![
        u16_lo(min(s.len() as int, 65535) as u16),
        u16_hi(min(s.len() as int, 65535) as u16),
    ] + s.take(min(s.len() as int, 65535))
}

pub open spec fn rd_u16(d: Seq<u8>, c: int) -> Option<(u16, int)> {
    if 0 <= c && c + 2 <= d.len() {
        Some((u16_from_le(d[c], d[c + 1]), c + 2))
    } else {
        None
    }
}

pub open spec fn rd_u32(d: Seq<u8>, c: int) -> Option<(u32, int)> {
    if 0 <= c && c + 4 <= d.len() {
        Some((u32_from_le(d[c], d[c + 1], d[c + 2], d[c + 3]), c + 4))
    } else {
        None
    }
}

pub open spec fn rd_string(d: Seq<u8>, c: int) -> Option<(Seq<u8>, int)> {
    if 0 <= c < d.len() && c + 1 + (d[c] as int) <= d.len() {
        Some((d.subrange(c + 1, c + 1 + (d[c] as int)), c + 1 + (d[c] as int)))
    } else {
        None
    }
}

pub open spec fn rd_bytes(d: Seq<u8>, c: int) -> Option<(Seq<u8>, int)> {
    match rd_u16(d, c) {
        Some((l, c2)) => if c2 + (l as int) <= d.len() {
            Some((d.subrange(c2, c2 + (l as int)), c2 + (l as int)))
        } else {
            None
        },
        None => None,
    }
}

/// Writes a string with its one-byte length prefix, truncating the
/// text to 255 bytes as the prefix demands.
pub fn write_string(out: &mut Vec<u8>, value: &str)
    ensures
        final(out)@ == old(out)@ + str_payload(value.spec_bytes()),
{
    let bytes = value.as_bytes();
    let len: usize = if bytes.len() < 255 {
        bytes.len()
    } else {
        255
    };
    out.push(len as u8);
    let mut i: usize = 0;
    while i < len
        invariant
            i <= len,
            len <= bytes@.len(),
            len == min(bytes@.len() as int, 255),
            out@ == old(out)@ + seq![len as u8] + bytes@.take(i as int),
        decreases len - i,
    {
        out.push(bytes[i]);
        proof {
            assert(out@ =~= old(out)@ + seq![len as u8] + bytes@.take(i as int + 1));
        }
        i = i + 1;
    }
    proof {
        assert(out@ =~= old(out)@ + str_payload(value.spec_bytes()));
    }
}

/// Writes a byte block with its two-byte length prefix, truncating
/// to 65535 bytes.
pub fn write_bytes(out: &mut Vec<u8>, value: &[u8])
    ensures
        final(out)@ == old(out)@ + bytes_payload(value@),
{
    let len: usize = if value.len() < 65535 {
        value.len()
    } else {
        65535
    };
    let len16: u16 = len as u16;
    out.push(u16_lo_byte(len16));
    out.push(u16_hi_byte(len16));
    let mut i: usize = 0;
    while i < len
        invariant
            i <= len,
            len <= value@.len(),
            len == min(value@.len() as int, 65535),
            len16 == len as u16,
            out@ == old(out)@ + seq![u16_lo(len16), u16_hi(len16)] + value@.take(i as int),
        decreases len - i,
    {
        out.push(value[i]);
        proof {
            assert(out@ =~= old(out)@ + seq![u16_lo(len16), u16_hi(len16)] + value@.take(
                i as int + 1,
            ));
        }
        i = i + 1;
    }
    proof {
        assert(out@ =~= old(out)@ + bytes_payload(value@));
    }
}

/// Reads a one-byte-length-prefixed string; the bytes come back as
/// text, decoded as UTF-8.
pub fn read_string(data: &[u8], cursor: &mut usize) -> (r: Option<String>)
    ensures
        rd_string(data@, *old(cursor) as int) matches Some(v) ==> (r matches Some(s) && (
        valid_utf8(v.0) ==> s@ == decode_utf8(v.0)) && *final(cursor) == v.1),
        rd_string(data@, *old(cursor) as int) is None ==> r is None,
{
    if *cursor >= data.len() {
        return None;
    }
    let len = data[*cursor] as usize;
    if len > data.len() - (*cursor + 1) {
        return None;
    }
    let start = *cursor + 1;
    let end: usize = start + len;
    let mut bytes: Vec<u8> = Vec::new();
    let mut i: usize = 0;
    while i < len
        invariant
            i <= len,
            end == start + len,
            end <= data@.len(),
            bytes@ == data@.subrange(start as int, start as int + i as int),
        decreases len - i,
    {
        bytes.push(data[start + i]);
        proof {
            assert(bytes@ =~= data@.subrange(start as int, start as int + i as int + 1));
        }
        i = i + 1;
    }
    *cursor = end;
    Some(bytes_to_string_lossy(bytes.as_slice()))
}

/// Reads a two-byte-length-prefixed byte block.
pub fn read_bytes(data: &[u8], cursor: &mut usize) -> (r: Option<Vec<u8>>)
    ensures
        rd_bytes(data@, *old(cursor) as int) matches Some(v) ==> (r matches Some(b) && b@ == v.0
            && *final(cursor) == v.1),
        rd_bytes(data@, *old(cursor) as int) is None ==> r is None,
{
    let len16 = match read_u16(data, cursor) {
        Some(v) => v,
        None => {
            return None;
        },
    };
    let len = len16 as usize;
    if len > data.len() - *cursor {
        return None;
    }
    let start = *cursor;
    let end: usize = start + len;
    let mut bytes: Vec<u8> = Vec::new();
    let mut i: usize = 0;
    while i < len
        invariant
            i <= len,
            end == start + len,
            end <= data@.len(),
            bytes@ == data@.subrange(start as int, start as int + i as int),
        decreases len - i,
    {
        bytes.push(data[start + i]);
        proof {
            assert(bytes@ =~= data@.subrange(start as int, start as int + i as int + 1));
        }
        i = i + 1;
    }
    *cursor = end;
    Some(bytes)
}

/// Reads a little-endian `u16`.
pub fn read_u16(data: &[u8], cursor: &mut usize) -> (r: Option<u16>)
    ensures
        rd_u16(data@, *old(cursor) as int) matches Some(v) ==> r == Some(v.0) && *final(cursor)
            == v.1,
        rd_u16(data@, *old(cursor) as int) is None ==> (r is None && *final(cursor) == *old(
            cursor,
        )),
{
    if data.len() < 2 || *cursor > data.len() - 2 {
        return None;
    }
    let v = u16_from_le_bytes(data[*cursor], data[*cursor + 1]);
    *cursor = *cursor + 2;
    Some(v)
}

/// Reads a little-endian `u32`.
pub fn read_u32(data: &[u8], cursor: &mut usize) -> (r: Option<u32>)
    ensures
        rd_u32(data@, *old(cursor) as int) matches Some(v) ==> r == Some(v.0) && *final(cursor)
            == v.1,
        rd_u32(data@, *old(cursor) as int) is None ==> (r is None && *final(cursor) == *old(
            cursor,
        )),
{
    if data.len() < 4 || *cursor > data.len() - 4 {
        return None;
    }
    let v = u32_from_le_bytes(
        data[*cursor],
        data[*cursor + 1],
        data[*cursor + 2],
        data[*cursor + 3],
    );
    *cursor = *cursor + 4;
    Some(v)
}

// ---------------------------------------------------------------
// Message payloads
// ---------------------------------------------------------------

/// Wire payload of a card-detected report.
pub open spec fn card_detected_payload(m: CardDetected) -> Seq<u8> {
    str_payload(encode_utf8(m.card_id@)) + seq![
        u32_byte0((m.tap_time % 0x1_0000_0000) as u32),
        u32_byte1((m.tap_time % 0x1_0000_0000) as u32),
        u32_byte2((m.tap_time % 0x1_0000_0000) as u32),
        u32_byte3((m.tap_time % 0x1_0000_0000) as u32),
        u16_lo(m.reader_id),
        u16_hi(m.reader_id),
    ] + bytes_payload(m.card_data@)
}

/// The fields a card-detected payload spells out: card-id bytes, tap
/// time, reader id, card data.
pub open spec fn card_detected_fields(p: Seq<u8>) -> Option<(Seq<u8>, u32, u16, Seq<u8>)> {
    match rd_string(p, 0) {
        Some((id, c1)) => match rd_u32(p, c1) {
            Some((t, c2)) => match rd_u16(p, c2) {
                Some((rid, c3)) => match rd_bytes(p, c3) {
                    Some((cd, _c4)) => Some((id, t, rid, cd)),
                    None => None,
                },
                None => None,
            },
            None => None,
        },
        None => None,
    }
}

/// Wire payload of an ACK.
pub open spec fn card_ack_payload(m: CardAck) -> Seq<u8> {
    seq![m.result, m.beep_pattern, m.display_code, m.write_flag] + bytes_payload(m.write_data@)
}

/// The fields an ACK payload spells out.
pub open spec fn card_ack_fields(p: Seq<u8>) -> Option<(u8, u8, u8, u8, Seq<u8>)> {
    if p.len() < 4 {
        None
    } else {
        match rd_bytes(p, 4) {
            Some((wd, _c)) => Some((p[0], p[1], p[2], p[3], wd)),
            None => None,
        }
    }
}

/// Wire payload of a write request: card id, one-byte-length card
/// data, block start and count.
pub open spec fn card_write_request_payload(m: CardWriteRequest) -> Seq<u8> {
    str_payload(encode_utf8(m.card_id@)) + str_payload(m.card_data@) + seq![
        m.block_start,
        m.block_count,
    ]
}

/// The fields a write-result payload spells out.
pub open spec fn card_write_result_fields(p: Seq<u8>) -> Option<CardWriteResult> {
    if p.len() < 4 {
        None
    } else {
        Some(CardWriteResult { result: p[0], error_code: p[1], block_start: p[2], block_count: p[3] })
    }
}

/// Encodes a card-detected report.
pub fn encode_card_detected(msg: &CardDetected) -> (r: Vec<u8>)
    ensures
        r@ == card_detected_payload(*msg),
{
    let mut out: Vec<u8> = Vec::new();
    write_string(&mut out, msg.card_id.as_str());
    let t32: u32 = (msg.tap_time % 0x1_0000_0000) as u32;
    let (b0, b1, b2, b3) = u32_le_bytes(t32);
    out.push(b0);
    out.push(b1);
    out.push(b2);
    out.push(b3);
    out.push(u16_lo_byte(msg.reader_id));
    out.push(u16_hi_byte(msg.reader_id));
    write_bytes(&mut out, msg.card_data.as_slice());
    proof {
        assert(out@ =~= card_detected_payload(*msg));
    }
    out
}

/// Decodes a card-detected payload.
pub fn decode_card_detected(payload: &[u8]) -> (r: Option<CardDetected>)
    ensures
        card_detected_fields(payload@) is None ==> r is None,
        card_detected_fields(payload@) matches Some(f) ==> (r matches Some(m) && (valid_utf8(f.0)
            ==> m.card_id@ == decode_utf8(f.0)) && m.tap_time == f.1 as u64 && m.reader_id == f.2
            && m.card_data@ == f.3),
{
    let mut cursor: usize = 0;
    let card_id = match read_string(payload, &mut cursor) {
        Some(s) => s,
        None => {
            return None;
        },
    };
    let tap_time = match read_u32(payload, &mut cursor) {
        Some(v) => v as u64,
        None => {
            return None;
        },
    };
    let reader_id = match read_u16(payload, &mut cursor) {
        Some(v) => v,
        None => {
            return None;
        },
    };
    let card_data = match read_bytes(payload, &mut cursor) {
        Some(v) => v,
        None => {
            return None;
        },
    };
    Some(CardDetected { card_id, tap_time, reader_id, card_data })
}

/// Encodes an ACK payload.
pub fn encode_card_ack(msg: &CardAck) -> (r: Vec<u8>)
    ensures
        r@ == card_ack_payload(*msg),
{
    let mut out: Vec<u8> = Vec::new();
    out.push(msg.result);
    out.push(msg.beep_pattern);
    out.push(msg.display_code);
    out.push(msg.write_flag);
    write_bytes(&mut out, msg.write_data.as_slice());
    proof {
        assert(out@ =~= card_ack_payload(*msg));
    }
    out
}

/// Decodes an ACK payload.
pub fn decode_card_ack(payload: &[u8]) -> (r: Option<CardAck>)
    ensures
        card_ack_fields(payload@) is None ==> r is None,
        card_ack_fields(payload@) matches Some(f) ==> (r matches Some(m) && m.result == f.0
            && m.beep_pattern == f.1 && m.display_code == f.2 && m.write_flag == f.3
            && m.write_data@ == f.4),
{
    if payload.len() < 4 {
        return None;
    }
    let result = payload[0];
    let beep_pattern = payload[1];
    let display_code = payload[2];
    let write_flag = payload[3];
    let mut cursor: usize = 4;
    let write_data = match read_bytes(payload, &mut cursor) {
        Some(v) => v,
        None => {
            return None;
        },
    };
    Some(CardAck { result, beep_pattern, display_code, write_flag, write_data })
}

/// Encodes a write-request payload.
pub fn encode_card_write_request(msg: &CardWriteRequest) -> (r: Vec<u8>)
    ensures
        r@ == card_write_request_payload(*msg),
{
    let mut out: Vec<u8> = Vec::new();
    write_string(&mut out, msg.card_id.as_str());
    let ghost mid = out@;
    write_string_bytes(&mut out, msg.card_data.as_slice());
    out.push(msg.block_start);
    out.push(msg.block_count);
    proof {
        assert(out@ =~= card_write_request_payload(*msg));
    }
    out
}

/// Writes raw bytes with a one-byte length prefix, truncating to
/// 255 bytes.
fn write_string_bytes(out: &mut Vec<u8>, value: &[u8])
    ensures
        final(out)@ == old(out)@ + str_payload(value@),
{
    let len: usize = if value.len() < 255 {
        value.len()
    } else {
        255
    };
    out.push(len as u8);
    let mut i: usize = 0;
    while i < len
        invariant
            i <= len,
            len <= value@.len(),
            len == min(value@.len() as int, 255),
            out@ == old(out)@ + seq![len as u8] + value@.take(i as int),
        decreases len - i,
    {
        out.push(value[i]);
        proof {
            assert(out@ =~= old(out)@ + seq![len as u8] + value@.take(i as int + 1));
        }
        i = i + 1;
    }
    proof {
        assert(out@ =~= old(out)@ + str_payload(value@));
    }
}

/// Decodes a write-result payload.
pub fn decode_card_write_result(payload: &[u8]) -> (r: Option<CardWriteResult>)
    ensures
        r == card_write_result_fields(payload@),
{
    if payload.len() < 4 {
        return None;
    }
    Some(
        CardWriteResult {
            result: payload[0],
            error_code: payload[1],
            block_start: payload[2],
            block_count: payload[3],
        },
    )
}

// ---------------------------------------------------------------
// Frames
// ---------------------------------------------------------------

impl CardDetected {
    /// Wraps the report in its frame.
    pub fn to_frame(&self) -> (r: Frame)
        ensures
            r.msg_type == MSG_CARD_DETECTED,
            r.flags == 0u8,
            r.payload@ == card_detected_payload(*self),
    {
        Frame { msg_type: MSG_CARD_DETECTED, flags: 0, payload: encode_card_detected(self) }
    }
}

impl CardWriteRequest {
    /// Wraps the write request in its frame.
    pub fn to_frame(&self) -> (r: Frame)
        ensures
            r.msg_type == MSG_CARD_WRITE_REQ,
            r.flags == 0u8,
            r.payload@ == card_write_request_payload(*self),
    {
        Frame { msg_type: MSG_CARD_WRITE_REQ, flags: 0, payload: encode_card_write_request(self) }
    }
}

impl CardAck {
    /// The standard accepted ACK: beep once, no display code.
    pub fn accepted() -> (r: Self)
        ensures
            r.result == 1u8,
            r.beep_pattern == 1u8,
            r.display_code == 0u8,
            r.write_flag == 0u8,
            r.write_data@ == Seq::<u8>::empty(),
    {
        Self { result: 1, beep_pattern: 1, display_code: 0, write_flag: 0, write_data: Vec::new() }
    }

    /// The standard rejected ACK: error beep and display code.
    pub fn rejected() -> (r: Self)
        ensures
            r.result == 0u8,
            r.beep_pattern == 2u8,
            r.display_code == 1u8,
            r.write_flag == 0u8,
            r.write_data@ == Seq::<u8>::empty(),
    {
        Self { result: 0, beep_pattern: 2, display_code: 1, write_flag: 0, write_data: Vec::new() }
    }

    /// Wraps the ACK in its frame.
    pub fn to_frame(&self) -> (r: Frame)
        ensures
            r.msg_type == MSG_CARD_ACK,
            r.flags == 0u8,
            r.payload@ == card_ack_payload(*self),
    {
        Frame { msg_type: MSG_CARD_ACK, flags: 0, payload: encode_card_ack(self) }
    }
}

/// Reads a card-detected report out of a frame of the right type.
pub fn card_detected_from_frame(frame: &Frame) -> (r: Option<CardDetected>)
    ensures
        frame.msg_type != MSG_CARD_DETECTED ==> r is None,
        frame.msg_type == MSG_CARD_DETECTED && card_detected_fields(frame.payload@) is None ==> r
            is None,
        frame.msg_type == MSG_CARD_DETECTED ==> (card_detected_fields(frame.payload@) matches
        Some(f) ==> (r matches Some(m) && (valid_utf8(f.0) ==> m.card_id@ == decode_utf8(f.0))
            && m.tap_time == f.1 as u64 && m.reader_id == f.2 && m.card_data@ == f.3)),
{
    if frame.msg_type != MSG_CARD_DETECTED {
        return None;
    }
    decode_card_detected(frame.payload.as_slice())
}

/// Reads an ACK out of a frame of the right type.
pub fn card_ack_from_frame(frame: &Frame) -> (r: Option<CardAck>)
    ensures
        frame.msg_type != MSG_CARD_ACK ==> r is None,
        frame.msg_type == MSG_CARD_ACK && card_ack_fields(frame.payload@) is None ==> r is None,
        frame.msg_type == MSG_CARD_ACK ==> (card_ack_fields(frame.payload@) matches Some(f) ==> (r
            matches Some(m) && m.result == f.0 && m.beep_pattern == f.1 && m.display_code == f.2
            && m.write_flag == f.3 && m.write_data@ == f.4)),
{
    if frame.msg_type != MSG_CARD_ACK {
        return None;
    }
    decode_card_ack(frame.payload.as_slice())
}

/// Reads a write result out of a frame of the right type.
pub fn card_write_result_from_frame(frame: &Frame) -> (r: Option<CardWriteResult>)
    ensures
        frame.msg_type != MSG_CARD_WRITE_RESULT ==> r is None,
        frame.msg_type == MSG_CARD_WRITE_RESULT ==> r == card_write_result_fields(frame.payload@),
{
    if frame.msg_type != MSG_CARD_WRITE_RESULT {
        return None;
    }
    decode_card_write_result(frame.payload.as_slice())
}

} // verus!
