//! Wire framing between gateway and reader: two header bytes, a
//! version byte, a little-endian length covering type, flags and
//! payload, and a 16-bit truncating byte sum as checksum.

use vstd::prelude::*;

verus! {

use crate::wire::{u16_lo, u16_hi, u16_from_le, lemma_u16_le, u16_lo_byte, u16_hi_byte,
    u16_from_le_bytes};

pub const FRAME_HEADER_0: u8 = 0xAA;

pub const FRAME_HEADER_1: u8 = 0x55;

pub const FRAME_VERSION: u8 = 0x01;

pub const MSG_CARD_DETECTED: u8 = 0x01;

pub const MSG_CARD_ACK: u8 = 0x02;

pub const MSG_SET_ROUTE_INFO: u8 = 0x03;

pub const MSG_HEARTBEAT: u8 = 0x04;

pub const MSG_ERROR_REPORT: u8 = 0x05;

pub const MSG_CARD_WRITE_REQ: u8 = 0x06;

pub const MSG_CARD_WRITE_RESULT: u8 = 0x07;

/// One framed message: type, flags and payload.
#[derive(Clone, Debug, PartialEq, Eq)]
pub struct Frame {
    pub msg_type: u8,
    pub flags: u8,
    pub payload: Vec<u8>,
}

/// Why a byte sequence is not a valid frame.
#[derive(Clone, Copy, Debug, PartialEq, Eq, Structural)]
pub enum FrameError {
    TooShort,
    BadHeader,
    BadVersion,
    BadLength,
    BadChecksum,
}

/// Truncating 16-bit sum of the bytes.
pub open spec fn checksum16_of(s: Seq<u8>) -> u16
    decreases s.len(),
{
    if s.len() == 0 {
        0
    } else {
        (((checksum16_of(s.drop_last()) as int) + s.last()) % 0x10000) as u16
    }
}

/// The wire length field: type byte, flags byte and payload, reduced
/// to 16 bits the way a truncating cast would.
pub open spec fn frame_len16(payload_len: nat) -> u16 {
    (((payload_len + 2) % 0x10000) as u16)
}

/// Version, length, type and flags bytes followed by the payload:
/// everything the checksum covers.
pub open spec fn frame_body(msg_type: u8, flags: u8, payload: Seq<u8>) -> Seq<u8> {
    seq![
        FRAME_VERSION,
        u16_lo(frame_len16(payload.len())),
        u16_hi(frame_len16(payload.len())),
        msg_type,
        flags,
    ] + payload
}

/// The full encoded frame.
pub open spec fn frame_bytes(msg_type: u8, flags: u8, payload: Seq<u8>) -> Seq<u8> {
    seq![FRAME_HEADER_0, FRAME_HEADER_1] + frame_body(msg_type, flags, payload) + seq![
        u16_lo(checksum16_of(frame_body(msg_type, flags, payload))),
        u16_hi(checksum16_of(frame_body(msg_type, flags, payload))),
    ]
}

/// The error a frame decoder reports for these bytes, if any.
pub open spec fn frame_err(data: Seq<u8>) -> Option<FrameError> {
    if data.len() < 9 {
        Some(FrameError::TooShort)
    } else if data[0] != FRAME_HEADER_0 || data[1] != FRAME_HEADER_1 {
        Some(FrameError::BadHeader)
    } else if data[2] != FRAME_VERSION {
        Some(FrameError::BadVersion)
    } else if u16_from_le(data[3], data[4]) < 2 || data.len() < 7 + (u16_from_le(
        data[3],
        data[4],
    ) as int) {
        Some(FrameError::BadLength)
    } else if u16_from_le(
        data[5 + (u16_from_le(data[3], data[4]) as int)],
        data[6 + (u16_from_le(data[3], data[4]) as int)],
    ) != checksum16_of(data.subrange(2, 5 + (u16_from_le(data[3], data[4]) as int))) {
        Some(FrameError::BadChecksum)
    } else {
        None
    }
}

/// The frame these bytes spell out, field by field, ignoring
/// anything after the declared length.
pub open spec fn frame_matches_bytes(f: Frame, data: Seq<u8>) -> bool {
    &&& data.len() >= 9
    &&& f.msg_type == data[5]
    &&& f.flags == data[6]
    &&& f.payload@ == data.subrange(7, 5 + (u16_from_le(data[3], data[4]) as int))
}

/// Encodes a frame: header, version, length, type, flags, payload,
/// checksum. Total: an oversized payload has its length truncated to
/// 16 bits, exactly as the length field stores it.
pub fn encode_frame(frame: &Frame) -> (r: Vec<u8>)
    ensures
        r@ == frame_bytes(frame.msg_type, frame.flags, frame.payload@),
{
    let mut out: Vec<u8> = Vec::new();
    out.push(FRAME_HEADER_0);
    out.push(FRAME_HEADER_1);
    out.push(FRAME_VERSION);
    let length: u16 = (((frame.payload.len() % 0x10000) as u32 + 2) % 0x10000) as u16;
    proof {
        assert(length == frame_len16(frame.payload@.len()) as u16) by {
            assert(((frame.payload@.len() % 0x10000) + 2) % 0x10000 == (frame.payload@.len() + 2)
                % 0x10000) by (nonlinear_arith);
        };
    }
    out.push(u16_lo_byte(length));
    out.push(u16_hi_byte(length));
    out.push(frame.msg_type);
    out.push(frame.flags);
    let mut i: usize = 0;
    while i < frame.payload.len()
        invariant
            i <= frame.payload@.len(),
            out@ == seq![
                FRAME_HEADER_0,
                FRAME_HEADER_1,
                FRAME_VERSION,
                u16_lo(frame_len16(frame.payload@.len())),
                u16_hi(frame_len16(frame.payload@.len())),
                frame.msg_type,
                frame.flags,
            ] + frame.payload@.take(i as int),
        decreases frame.payload@.len() - i,
    {
        out.push(frame.payload[i]);
        proof {
            assert(frame.payload@.take(i as int).push(frame.payload@[i as int]) =~= frame.payload@
                .take(i as int + 1));
            assert(out@ =~= seq![
                FRAME_HEADER_0,
                FRAME_HEADER_1,
                FRAME_VERSION,
                u16_lo(frame_len16(frame.payload@.len())),
                u16_hi(frame_len16(frame.payload@.len())),
                frame.msg_type,
                frame.flags,
            ] + frame.payload@.take(i as int + 1));
        }
        i = i + 1;
    }
    proof {
        assert(frame.payload@.take(frame.payload@.len() as int) =~= frame.payload@);
        assert(out@.subrange(2, out@.len() as int) =~= frame_body(
            frame.msg_type,
            frame.flags,
            frame.payload@,
        ));
    }
    let checksum = checksum16_range(out.as_slice(), 2, out.len());
    out.push(u16_lo_byte(checksum));
    out.push(u16_hi_byte(checksum));
    proof {
        assert(out@ =~= frame_bytes(frame.msg_type, frame.flags, frame.payload@));
    }
    out
}

/// Decodes a frame, checking header, version, length and checksum.
pub fn decode_frame(data: &[u8]) -> (r: Result<Frame, FrameError>)
    ensures
        frame_err(data@) matches Some(e) ==> r == Err::<Frame, FrameError>(e),
        frame_err(data@) is None ==> (r matches Ok(f) && frame_matches_bytes(f, data@)),
{
    if data.len() < 9 {
        return Err(FrameError::TooShort);
    }
    if data[0] != FRAME_HEADER_0 || data[1] != FRAME_HEADER_1 {
        return Err(FrameError::BadHeader);
    }
    if data[2] != FRAME_VERSION {
        return Err(FrameError::BadVersion);
    }
    let length = u16_from_le_bytes(data[3], data[4]) as usize;
    if length < 2 || data.len() < 7 + length {
        return Err(FrameError::BadLength);
    }
    let expected: usize = 7 + length;
    let checksum = u16_from_le_bytes(data[expected - 2], data[expected - 1]);
    let computed = checksum16_range(data, 2, expected - 2);
    if checksum != computed {
        return Err(FrameError::BadChecksum);
    }
    let msg_type = data[5];
    let flags = data[6];
    let mut payload: Vec<u8> = Vec::new();
    let mut i: usize = 7;
    while i < expected - 2
        invariant
            7 <= i <= expected - 2,
            expected - 2 <= data@.len(),
            payload@ == data@.subrange(7, i as int),
        decreases expected - 2 - i,
    {
        payload.push(data[i]);
        proof {
            assert(data@.subrange(7, i as int).push(data@[i as int]) =~= data@.subrange(
                7,
                i as int + 1,
            ));
        }
        i = i + 1;
    }
    Ok(Frame { msg_type, flags, payload })
}

/// Truncating 16-bit sum of `data[from..to]`.
pub fn checksum16_range(data: &[u8], from: usize, to: usize) -> (r: u16)
    requires
        from <= to <= data@.len(),
    ensures
        r == checksum16_of(data@.subrange(from as int, to as int)),
{
    let mut acc: u16 = 0;
    let mut i: usize = from;
    proof {
        assert(data@.subrange(from as int, from as int) =~= Seq::<u8>::empty());
    }
    while i < to
        invariant
            from <= i <= to,
            to <= data@.len(),
            acc == checksum16_of(data@.subrange(from as int, i as int)),
        decreases to - i,
    {
        acc = (((acc as u32) + (data[i] as u32)) % 0x10000) as u16;
        proof {
            let s = data@.subrange(from as int, i as int + 1);
            assert(s.drop_last() =~= data@.subrange(from as int, i as int));
            assert(s.last() == data@[i as int]);
        }
        i = i + 1;
    }
    acc
}

/// The bytes of an encoded frame whose payload fits the 16-bit
/// length field decode without error, and spell out exactly the
/// type, flags and payload that were encoded.
pub proof fn lemma_frame_bytes_decode(t: u8, fl: u8, p: Seq<u8>)
    requires
        p.len() <= 65533,
    ensures
        frame_err(frame_bytes(t, fl, p)) is None,
        frame_bytes(t, fl, p)[5] == t,
        frame_bytes(t, fl, p)[6] == fl,
        frame_bytes(t, fl, p).subrange(
            7,
            5 + (u16_from_le(frame_bytes(t, fl, p)[3], frame_bytes(t, fl, p)[4]) as int),
        ) == p,
{
    let body = frame_body(t, fl, p);
    let data = frame_bytes(t, fl, p);
    let cs = checksum16_of(body);
    assert(frame_len16(p.len()) == p.len() + 2);
    lemma_u16_le(frame_len16(p.len()), 0, 0);
    assert(u16_from_le(data[3], data[4]) == p.len() + 2);
    assert(data.len() == 9 + p.len());
    lemma_u16_le(cs, 0, 0);
    assert(data.subrange(2, 7 + p.len() as int) =~= body);
    assert(u16_from_le(
        data[5 + (u16_from_le(data[3], data[4]) as int)],
        data[6 + (u16_from_le(data[3], data[4]) as int)],
    ) == checksum16_of(data.subrange(2, 5 + (u16_from_le(data[3], data[4]) as int))));
    assert(frame_err(data) is None);
    assert(data.subrange(7, 7 + p.len() as int) =~= p);
}

/// Encoding a frame whose payload fits the 16-bit length field and
/// decoding the bytes yields the frame back.
pub proof fn lemma_frame_round_trip(f: Frame, f2: Frame)
    requires
        f.payload@.len() <= 65533,
        frame_matches_bytes(f2, frame_bytes(f.msg_type, f.flags, f.payload@)),
    ensures
        frame_err(frame_bytes(f.msg_type, f.flags, f.payload@)) is None,
        f2.msg_type == f.msg_type,
        f2.flags == f.flags,
        f2.payload@ == f.payload@,
{
    lemma_frame_bytes_decode(f.msg_type, f.flags, f.payload@);
}

} // verus!
